//! Colour pickers: buttons that cycle through the colour pool.

use vstd::prelude::*;
use crate::tile::Tile;

verus! {

/// A picker of the rule editor: it shows one tile slot of the rule of `tile`
/// and steps through the colour pool when pressed.
#[derive(Debug, Default)]
pub struct ColorPickerButton {
    /// The tile whose rule the picker edits.
    pub tile: Tile,
    /// The slot it edits: 0 and 1 are the operands, 2 is the result.
    pub index: usize,
    /// The choice it shows.
    pub color: Option<Tile>,
}

/// A picker of the board editor: it repaints one cell.
#[derive(Debug, Default)]
pub struct EditorTileColor {
    /// The cell.
    pub index: usize,
    /// The choice it shows.
    pub color: Option<Tile>,
}

/// The first position at or after `start` where `pool` holds `current`, or
/// the length of `pool` where there is none.
pub open spec fn first_position(pool: Seq<Option<Tile>>, current: Option<Tile>, start: int) -> int
    decreases pool.len() - start,
{
    if start >= pool.len() {
        pool.len() as int
    } else if pool[start] == current {
        start
    } else {
        first_position(pool, current, start + 1)
    }
}

/// The choice that follows `current` in the pool: the entry after its first
/// occurrence. From the last entry, and from a choice the pool does not
/// hold, the cycle starts over at the first entry.
pub open spec fn next_choice(pool: Seq<Option<Tile>>, current: Option<Tile>) -> Option<Tile> {
    let found = first_position(pool, current, 0);
    if found + 1 < pool.len() {
        pool[found + 1]
    } else {
        pool[0]
    }
}

/// The first occurrence is an occurrence, and nothing before it is one.
pub proof fn lemma_first_position(pool: Seq<Option<Tile>>, current: Option<Tile>, start: int)
    requires
        0 <= start <= pool.len(),
    ensures
        start <= first_position(pool, current, start) <= pool.len(),
        first_position(pool, current, start) < pool.len() ==> pool[first_position(
            pool,
            current,
            start,
        )] == current,
        forall|i: int| start <= i < first_position(pool, current, start) ==> pool[i] != current,
    decreases pool.len() - start,
{
    if start < pool.len() && pool[start] != current {
        lemma_first_position(pool, current, start + 1);
    }
}

/// The choice that follows `current` in `color_pool`.
pub fn next_color(color_pool: &[Option<Tile>], current: Option<Tile>) -> (next: Option<Tile>)
    requires
        color_pool.len() > 0,
    ensures
        next == next_choice(color_pool@, current),
{
    let mut index: usize = 0;
    while index < color_pool.len()
        invariant
            index <= color_pool.len(),
            first_position(color_pool@, current, 0) == first_position(
                color_pool@,
                current,
                index as int,
            ),
        decreases color_pool.len() - index,
    {
        if color_pool[index] == current {
            if index + 1 < color_pool.len() {
                return color_pool[index + 1];
            }
            return color_pool[0];
        }
        index += 1;
    }
    color_pool[0]
}

impl ColorPickerButton {
    /// Steps the picker to the next choice of the pool and returns it.
    pub fn change_color(&mut self, color_pool: &[Option<Tile>]) -> (next: Option<Tile>)
        requires
            color_pool.len() > 0,
        ensures
            next == next_choice(color_pool@, old(self).color),
            final(self).color == next,
            final(self).tile == old(self).tile,
            final(self).index == old(self).index,
    {
        let next = next_color(color_pool, self.color);
        self.color = next;
        next
    }
}

impl EditorTileColor {
    /// Steps the picker to the next choice of the pool and returns it.
    pub fn change_color(&mut self, color_pool: &[Option<Tile>]) -> (next: Option<Tile>)
        requires
            color_pool.len() > 0,
        ensures
            next == next_choice(color_pool@, old(self).color),
            final(self).color == next,
            final(self).index == old(self).index,
    {
        let next = next_color(color_pool, self.color);
        self.color = next;
        next
    }
}

} // verus!
