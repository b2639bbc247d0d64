//! The sequence of levels and how far the player has come.

use vstd::prelude::*;

verus! {

/// The levels, in the order they are played.
#[derive(Copy, Clone, Eq, PartialEq, PartialOrd, Ord, Hash, Debug, Structural)]
pub enum Level {
    Beginner1,
    Beginner2,
    Intermediate1,
    Intermediate2,
    Intermediate3,
    Expert1,
}

/// Number of levels.
pub const LEVEL_COUNT: usize = 6;

/// The furthest level the player has reached.
#[derive(Debug)]
pub struct ReachedLevel(pub Level);

/// The position of a level in the playing order; level data is stored in
/// this order.
pub open spec fn level_index(level: Level) -> nat {
    match level {
        Level::Beginner1 => 0,
        Level::Beginner2 => 1,
        Level::Intermediate1 => 2,
        Level::Intermediate2 => 3,
        Level::Intermediate3 => 4,
        Level::Expert1 => 5,
    }
}

/// The level that follows; after the last one the sequence starts over.
pub open spec fn level_after(level: Level) -> Level {
    match level {
        Level::Beginner1 => Level::Beginner2,
        Level::Beginner2 => Level::Intermediate1,
        Level::Intermediate1 => Level::Intermediate2,
        Level::Intermediate2 => Level::Intermediate3,
        Level::Intermediate3 => Level::Expert1,
        Level::Expert1 => Level::Beginner1,
    }
}

/// The later of two levels.
pub open spec fn later_level(a: Level, b: Level) -> Level {
    if level_index(a) >= level_index(b) {
        a
    } else {
        b
    }
}

/// Something that can be switched to its successor.
pub trait Switch: Sized {
    /// The successor.
    spec fn successor(&self) -> Self;

    /// Switches to the successor.
    fn next(&self) -> (following: Self)
        ensures
            following == self.successor(),
    ;
}

impl Switch for Level {
    open spec fn successor(&self) -> Level {
        level_after(*self)
    }

    fn next(&self) -> (following: Level) {
        match self {
            Level::Beginner1 => Level::Beginner2,
            Level::Beginner2 => Level::Intermediate1,
            Level::Intermediate1 => Level::Intermediate2,
            Level::Intermediate2 => Level::Intermediate3,
            Level::Intermediate3 => Level::Expert1,
            Level::Expert1 => Level::Beginner1,
        }
    }
}

impl Default for Level {
    fn default() -> (level: Level)
        ensures
            level == Level::Beginner1,
    {
        Level::Beginner1
    }
}

impl Default for ReachedLevel {
    fn default() -> (reached: ReachedLevel)
        ensures
            reached.0 == Level::Beginner1,
    {
        ReachedLevel(Level::Beginner1)
    }
}

impl Level {
    /// The position of the level in the playing order.
    pub fn index(self) -> (position: usize)
        ensures
            position == level_index(self),
            position < 6,
    {
        match self {
            Level::Beginner1 => 0,
            Level::Beginner2 => 1,
            Level::Intermediate1 => 2,
            Level::Intermediate2 => 3,
            Level::Intermediate3 => 4,
            Level::Expert1 => 5,
        }
    }
}

impl ReachedLevel {
    /// Moves on from `current` to the level that follows it, remembers it
    /// if it is further than any reached before, and returns it.
    pub fn go_next(&mut self, current: Level) -> (following: Level)
        ensures
            following == level_after(current),
            final(self).0 == later_level(level_after(current), old(self).0),
    {
        let following = current.next();
        if following.index() >= self.0.index() {
            self.0 = following;
        }
        following
    }
}

} // verus!
