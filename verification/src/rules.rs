//! The player's rule set: one rule per tile colour in play, and the colour
//! pool that the rule editor offers.

use vstd::prelude::*;
use bevy::platform::collections::HashMap;
use crate::rule::{default_rule, painted, unmarked, with_slot, Rule};
use crate::rule_map::{
    map_get, map_get_mut, map_insert, map_new, rule_entries,
};
use crate::tile::{code_of_tile, palette, tile_of_code, Tile};

verus! {

/// The rules in force and the colours the editor may choose from.
#[derive(Debug)]
pub struct PlayerRules {
    /// The rules, stored under the code of the tile each applies to.
    pub rules: HashMap<u8, Rule>,
    /// The colours present on the board or in the goal, each as `Some`, in
    /// ascending code order, followed by one `None` for "no tile".
    pub color_pool: Vec<Option<Tile>>,
}

/// Reads a code-keyed mapping as a mapping from tiles: a tile has the rule
/// stored under its code.
pub open spec fn rules_by_tile(entries: Map<u8, Rule>) -> Map<Tile, Rule> {
    Map::new(
        |tile: Tile| entries.contains_key(code_of_tile(tile)),
        |tile: Tile| entries[code_of_tile(tile)],
    )
}

/// The rule of `tile` in `rules`, if it has one.
pub open spec fn rule_of(rules: Map<Tile, Rule>, tile: Tile) -> Option<Rule> {
    if rules.contains_key(tile) {
        Some(rules[tile])
    } else {
        None
    }
}

/// The tiles of the first `count` palette positions that have a rule, in
/// code order.
pub open spec fn ruled_tiles_upto(rules: Map<Tile, Rule>, count: nat) -> Seq<Tile>
    decreases count,
{
    if count == 0 {
        Seq::empty()
    } else {
        let before = ruled_tiles_upto(rules, (count - 1) as nat);
        let tile = tile_of_code((count - 1) as u8);
        if rules.contains_key(tile) {
            before.push(tile)
        } else {
            before
        }
    }
}

/// All tiles that have a rule, in code order.
pub open spec fn ruled_tiles(rules: Map<Tile, Rule>) -> Seq<Tile> {
    ruled_tiles_upto(rules, 9)
}

/// Whether every entry stands under the code of a tile of the palette.
pub open spec fn keyed_by_palette(entries: Map<u8, Rule>) -> bool {
    forall|key: u8| #[trigger] entries.contains_key(key) ==> key < 9
}

/// Where every entry stands under a palette code, the stored keys are
/// exactly the codes of the tiles that have a rule: the mapping by tile
/// leaves nothing out.
pub proof fn lemma_stored_keys(entries: Map<u8, Rule>)
    requires
        keyed_by_palette(entries),
    ensures
        forall|key: u8| #[trigger]
            entries.contains_key(key) <==> (key < 9 && rules_by_tile(entries).contains_key(
                tile_of_code(key),
            )),
        forall|key: u8| #[trigger]
            entries.contains_key(key) ==> entries[key] == rules_by_tile(entries)[tile_of_code(
                key,
            )],
{
    assert forall|key: u8| key < 9 implies code_of_tile(tile_of_code(key)) == key by {
        crate::tile::lemma_encode_decode(key);
    }
}

/// Storing under a tile's code is storing for that tile.
pub proof fn lemma_insert_by_tile(entries: Map<u8, Rule>, tile: Tile, rule: Rule)
    ensures
        rules_by_tile(entries.insert(code_of_tile(tile), rule)) == rules_by_tile(entries).insert(
            tile,
            rule,
        ),
{
    let left = rules_by_tile(entries.insert(code_of_tile(tile), rule));
    let right = rules_by_tile(entries).insert(tile, rule);
    assert forall|t: Tile| left.contains_key(t) == right.contains_key(t) by {
        if code_of_tile(t) == code_of_tile(tile) {
            crate::tile::lemma_code_injective(t, tile);
        }
    }
    assert forall|t: Tile| left.contains_key(t) implies left[t] == right[t] by {
        if code_of_tile(t) == code_of_tile(tile) {
            crate::tile::lemma_code_injective(t, tile);
        }
    }
    assert(left =~= right);
}

impl View for PlayerRules {
    type V = Map<Tile, Rule>;

    /// The rule set as a mapping from tiles to rules.
    open spec fn view(&self) -> Map<Tile, Rule> {
        rules_by_tile(rule_entries(self.rules))
    }
}

impl Default for PlayerRules {
    fn default() -> (rules: PlayerRules)
        ensures
            rules@ == Map::<Tile, Rule>::empty(),
            rules.color_pool@ == Seq::<Option<Tile>>::empty(),
            rules.keys_in_palette(),
    {
        let rules = PlayerRules { rules: map_new(), color_pool: Vec::new() };
        assert(rules@ =~= Map::<Tile, Rule>::empty());
        rules
    }
}

impl PlayerRules {
    /// Whether every stored rule stands under the code of a tile of the
    /// palette, so that the rule set as read by tile is all that is stored.
    /// A fresh rule set has this, and every function of the library keeps
    /// it.
    pub open spec fn keys_in_palette(&self) -> bool {
        keyed_by_palette(rule_entries(self.rules))
    }

    /// The rule of `tile`, if it has one.
    pub fn rule(&self, tile: Tile) -> (found: Option<Rule>)
        ensures
            found == rule_of(self@, tile),
    {
        match map_get(&self.rules, tile.code()) {
            Some(rule) => Some(*rule),
            None => None,
        }
    }

    /// Whether `tile` has a rule.
    pub fn has_rule(&self, tile: Tile) -> (found: bool)
        ensures
            found == self@.contains_key(tile),
    {
        map_get(&self.rules, tile.code()).is_some()
    }

    /// Gives `tile` the rule `rule`, replacing the one it had. Returns the
    /// rule it had.
    pub fn set_rule(&mut self, tile: Tile, rule: Rule) -> (previous: Option<Rule>)
        ensures
            final(self)@ == old(self)@.insert(tile, rule),
            final(self).color_pool == old(self).color_pool,
            old(self).keys_in_palette() ==> final(self).keys_in_palette(),
            previous == rule_of(old(self)@, tile),
    {
        proof {
            lemma_insert_by_tile(rule_entries(self.rules), tile, rule);
        }
        map_insert(&mut self.rules, tile.code(), rule)
    }

    /// The tiles that have a rule, in code order.
    pub fn ruled_tiles(&self) -> (tiles: Vec<Tile>)
        ensures
            tiles@ == ruled_tiles(self@),
    {
        let all = Tile::all();
        let mut tiles: Vec<Tile> = Vec::new();
        let mut i: usize = 0;
        while i < 9
            invariant
                i <= 9,
                all@ == palette(),
                tiles@ == ruled_tiles_upto(self@, i as nat),
            decreases 9 - i,
        {
            let tile = all[i];
            assert(tile == tile_of_code(i as u8));
            if self.has_rule(tile) {
                tiles.push(tile);
            }
            i += 1;
        }
        tiles
    }

    /// Toggles one mask position of the rule of `tile` as part of a paint
    /// gesture. Without such a rule nothing changes.
    pub fn paint_mask(&mut self, tile: Tile, index: usize)
        requires
            index < 8,
        ensures
            final(self)@ == (match rule_of(old(self)@, tile) {
                Some(rule) => old(self)@.insert(tile, painted(rule, index as int)),
                None => old(self)@,
            }),
            final(self).color_pool == old(self).color_pool,
            old(self).keys_in_palette() ==> final(self).keys_in_palette(),
    {
        proof {
            if let Some(rule) = rule_of(self@, tile) {
                lemma_insert_by_tile(rule_entries(self.rules), tile, painted(rule, index as int));
            }
        }
        match map_get_mut(&mut self.rules, tile.code()) {
            Some(rule) => {
                rule.paint_mask(index);
            },
            None => {},
        }
    }

    /// Flips the inversion flag of the rule of `tile`. Without such a rule
    /// nothing changes.
    pub fn toggle_invert(&mut self, tile: Tile)
        ensures
            final(self)@ == (match rule_of(old(self)@, tile) {
                Some(rule) => old(self)@.insert(tile, Rule { invert: !rule.invert, ..rule }),
                None => old(self)@,
            }),
            final(self).color_pool == old(self).color_pool,
            old(self).keys_in_palette() ==> final(self).keys_in_palette(),
    {
        proof {
            if let Some(rule) = rule_of(self@, tile) {
                lemma_insert_by_tile(
                    rule_entries(self.rules),
                    tile,
                    Rule { invert: !rule.invert, ..rule },
                );
            }
        }
        match map_get_mut(&mut self.rules, tile.code()) {
            Some(rule) => {
                rule.toggle_invert();
            },
            None => {},
        }
    }

    /// Puts the rule of `tile` back to the default rule. Without such a rule
    /// nothing changes.
    pub fn reset_rule(&mut self, tile: Tile)
        ensures
            final(self)@ == (match rule_of(old(self)@, tile) {
                Some(_) => old(self)@.insert(tile, default_rule()),
                None => old(self)@,
            }),
            final(self).color_pool == old(self).color_pool,
            old(self).keys_in_palette() ==> final(self).keys_in_palette(),
    {
        proof {
            lemma_insert_by_tile(rule_entries(self.rules), tile, default_rule());
        }
        match map_get_mut(&mut self.rules, tile.code()) {
            Some(rule) => {
                *rule = Rule::default();
            },
            None => {},
        }
    }

    /// Writes `choice` into one tile slot of the rule of `tile` (0 and 1:
    /// operands, 2: result). Without such a rule nothing changes.
    pub fn set_slot(&mut self, tile: Tile, slot: usize, choice: Option<Tile>)
        ensures
            final(self)@ == (match rule_of(old(self)@, tile) {
                Some(rule) => old(self)@.insert(tile, with_slot(rule, slot as int, choice)),
                None => old(self)@,
            }),
            final(self).color_pool == old(self).color_pool,
            old(self).keys_in_palette() ==> final(self).keys_in_palette(),
    {
        proof {
            if let Some(rule) = rule_of(self@, tile) {
                lemma_insert_by_tile(rule_entries(self.rules), tile, with_slot(rule, slot as int, choice));
            }
        }
        match map_get_mut(&mut self.rules, tile.code()) {
            Some(rule) => {
                rule.set_slot(slot, choice);
            },
            None => {},
        }
    }

    /// Ends a paint gesture on every rule: no mask position counts as touched
    /// any more, and nothing else changes.
    pub fn clear_changed(&mut self)
        ensures
            final(self)@ == old(self)@.map_values(|rule: Rule| unmarked(rule)),
            final(self).color_pool == old(self).color_pool,
            old(self).keys_in_palette() ==> final(self).keys_in_palette(),
    {
        let all = Tile::all();
        let mut i: usize = 0;
        while i < 9
            invariant
                i <= 9,
                all@ == palette(),
                self.color_pool == old(self).color_pool,
                old(self).keys_in_palette() ==> self.keys_in_palette(),
                self@.dom() == old(self)@.dom(),
                forall|t: Tile|
                    old(self)@.contains_key(t) ==> #[trigger] self@[t] == (if code_of_tile(t) < i {
                        unmarked(old(self)@[t])
                    } else {
                        old(self)@[t]
                    }),
            decreases 9 - i,
        {
            let tile = all[i];
            assert(tile == tile_of_code(i as u8));
            let ghost before = self@;
            proof {
                if let Some(rule) = rule_of(before, tile) {
                    lemma_insert_by_tile(rule_entries(self.rules), tile, unmarked(rule));
                }
            }
            match map_get_mut(&mut self.rules, tile.code()) {
                Some(rule) => {
                    rule.clear_changed();
                },
                None => {},
            }
            assert(self@ == (match rule_of(before, tile) {
                Some(rule) => before.insert(tile, unmarked(rule)),
                None => before,
            }));
            assert(self@.dom() =~= old(self)@.dom());
            assert forall|t: Tile| old(self)@.contains_key(t) implies #[trigger] self@[t] == (
            if code_of_tile(t) < i + 1 {
                unmarked(old(self)@[t])
            } else {
                old(self)@[t]
            }) by {
                if code_of_tile(t) == i {
                    crate::tile::lemma_code_injective(t, tile);
                }
            }
            i += 1;
        }
        assert(self@ =~= old(self)@.map_values(|rule: Rule| unmarked(rule)));
    }
}

} // verus!
