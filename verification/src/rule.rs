//! A rule: which neighbours a tile colour looks at, what it looks for, and
//! what the tile becomes when the rule fires.

use vstd::prelude::*;
use crate::tile::Tile;

verus! {

/// Number of neighbour positions around a cell, in compass order
/// NW, N, NE, W, E, SW, S, SE.
pub const NEIGHBOUR_COUNT: usize = 8;

/// The transformation attached to one tile colour.
#[derive(Clone, Copy, Debug)]
pub struct Rule {
    /// Up to two operand tiles; the rule looks for either of them.
    pub tiles: [Option<Tile>; 2],
    /// Flips the match.
    pub invert: bool,
    /// Which of the eight neighbour positions take part.
    pub mask: [bool; 8],
    /// Mask positions already toggled during the current paint gesture.
    pub changed: [bool; 8],
    /// What the tile becomes when the rule fires; `None` leaves it as it is.
    pub result: Option<Tile>,
}

/// The rule every colour starts with: it looks at all eight neighbours for
/// nothing, is not inverted and changes nothing.
pub open spec fn default_rule() -> Rule {
    Rule {
        tiles: [None, None],
        invert: false,
        mask: [true, true, true, true, true, true, true, true],
        changed: [false, false, false, false, false, false, false, false],
        result: None,
    }
}

/// Whether an operand is set and occurs among the neighbours.
pub open spec fn operand_present(neighbours: Seq<Tile>, operand: Option<Tile>) -> bool {
    match operand {
        Some(tile) => neighbours.contains(tile),
        None => false,
    }
}

/// The match predicate: some operand occurs among the neighbours, flipped by
/// `invert`. With no operand set, nothing occurs, so the rule fires exactly
/// when it is inverted.
pub open spec fn rule_fires(rule: Rule, neighbours: Seq<Tile>) -> bool {
    (operand_present(neighbours, rule.tiles@[0]) || operand_present(neighbours, rule.tiles@[1]))
        != rule.invert
}

/// The replacement a rule yields for the given neighbours: its result where
/// it fires, nothing otherwise.
pub open spec fn rule_outcome(rule: Rule, neighbours: Seq<Tile>) -> Option<Tile> {
    if rule_fires(rule, neighbours) {
        rule.result
    } else {
        None
    }
}

/// The mask toggle of a paint gesture: a position not yet touched in this
/// gesture is flipped and marked, a marked one is left alone.
pub open spec fn painted(rule: Rule, index: int) -> Rule {
    if rule.changed@[index] {
        rule
    } else {
        Rule {
            mask: array_with(rule.mask, index, !rule.mask@[index]),
            changed: array_with(rule.changed, index, true),
            ..rule
        }
    }
}

/// The array that differs from `flags` at `index` alone.
pub open spec fn array_with(flags: [bool; 8], index: int, value: bool) -> [bool; 8] {
    [
        if index == 0 { value } else { flags@[0] },
        if index == 1 { value } else { flags@[1] },
        if index == 2 { value } else { flags@[2] },
        if index == 3 { value } else { flags@[3] },
        if index == 4 { value } else { flags@[4] },
        if index == 5 { value } else { flags@[5] },
        if index == 6 { value } else { flags@[6] },
        if index == 7 { value } else { flags@[7] },
    ]
}

/// The rule with all paint marks cleared.
pub open spec fn unmarked(rule: Rule) -> Rule {
    Rule { changed: default_rule().changed, ..rule }
}

/// The rule with one of its three tile slots replaced: slot 0 and 1 are the
/// operands, slot 2 is the result. Any other slot leaves the rule as it is.
pub open spec fn with_slot(rule: Rule, slot: int, tile: Option<Tile>) -> Rule {
    if slot == 0 {
        Rule { tiles: [tile, rule.tiles@[1]], ..rule }
    } else if slot == 1 {
        Rule { tiles: [rule.tiles@[0], tile], ..rule }
    } else if slot == 2 {
        Rule { result: tile, ..rule }
    } else {
        rule
    }
}

/// Whether `tile` occurs in `tiles`.
pub fn contains_tile(tiles: &Vec<Tile>, tile: Tile) -> (found: bool)
    ensures
        found == tiles@.contains(tile),
{
    let mut i: usize = 0;
    while i < tiles.len()
        invariant
            i <= tiles.len(),
            forall|j: int| 0 <= j < i ==> tiles@[j] != tile,
        decreases tiles.len() - i,
    {
        if tiles[i] == tile {
            return true;
        }
        i += 1;
    }
    false
}

impl Default for Rule {
    fn default() -> (rule: Rule)
        ensures
            rule == default_rule(),
    {
        let rule = Rule {
            tiles: [None, None],
            invert: false,
            mask: [true; 8],
            changed: [false; 8],
            result: None,
        };
        assert(rule.tiles =~= default_rule().tiles);
        assert(rule.mask =~= default_rule().mask);
        assert(rule.changed =~= default_rule().changed);
        rule
    }
}

impl Rule {
    /// Whether the rule fires for the given effective neighbour tiles.
    pub fn fires(&self, neighbours: &Vec<Tile>) -> (fired: bool)
        ensures
            fired == rule_fires(*self, neighbours@),
    {
        let first = match self.tiles[0] {
            Some(tile) => contains_tile(neighbours, tile),
            None => false,
        };
        let second = match self.tiles[1] {
            Some(tile) => contains_tile(neighbours, tile),
            None => false,
        };
        (first || second) != self.invert
    }

    /// The tile to place when the rule is applied to the given neighbours,
    /// or `None` when the cell keeps its value.
    pub fn outcome(&self, neighbours: &Vec<Tile>) -> (next: Option<Tile>)
        ensures
            next == rule_outcome(*self, neighbours@),
    {
        if self.fires(neighbours) {
            self.result
        } else {
            None
        }
    }

    /// Toggles one mask position as part of a paint gesture. Returns whether
    /// the position was flipped.
    pub fn paint_mask(&mut self, index: usize) -> (flipped: bool)
        requires
            index < 8,
        ensures
            *final(self) == painted(*old(self), index as int),
            flipped == !old(self).changed@[index as int],
    {
        if self.changed[index] {
            false
        } else {
            let bit = self.mask[index];
            self.changed[index] = true;
            self.mask[index] = !bit;
            assert(self.mask =~= painted(*old(self), index as int).mask);
            assert(self.changed =~= painted(*old(self), index as int).changed);
            true
        }
    }

    /// Ends a paint gesture: no position counts as touched any more.
    pub fn clear_changed(&mut self)
        ensures
            *final(self) == unmarked(*old(self)),
    {
        self.changed = [false; 8];
        assert(self.changed =~= default_rule().changed);
    }

    /// Flips the inversion flag.
    pub fn toggle_invert(&mut self)
        ensures
            *final(self) == (Rule { invert: !old(self).invert, ..*old(self) }),
    {
        self.invert = !self.invert;
    }

    /// Replaces one of the three tile slots (0 and 1: operands, 2: result).
    pub fn set_slot(&mut self, slot: usize, tile: Option<Tile>)
        ensures
            *final(self) == with_slot(*old(self), slot as int, tile),
    {
        if slot == 0 {
            self.tiles[0] = tile;
            assert(self.tiles =~= with_slot(*old(self), 0, tile).tiles);
        } else if slot == 1 {
            self.tiles[1] = tile;
            assert(self.tiles =~= with_slot(*old(self), 1, tile).tiles);
        } else if slot == 2 {
            self.result = tile;
        }
    }
}

} // verus!
