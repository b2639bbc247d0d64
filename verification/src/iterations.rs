//! The simulation history: the generations computed so far, the goal they
//! are meant to reach, and the cap on automatic stepping.

use vstd::prelude::*;
use crate::grid::{next_tile, Grid, Utility};
use crate::rule::Rule;
use crate::rules::PlayerRules;
use crate::side::{is_perfect_square, is_square};
use crate::tile::{code_of_tile, Face, Tile};

verus! {

/// The generations of one puzzle session, oldest first, with the goal and
/// the generation cap of auto-run.
pub struct GridIterations {
    /// The history. Index 0 is the puzzle as loaded; every step appends one
    /// generation.
    pub grid: Vec<Grid>,
    /// The board to reach.
    pub goal: Grid,
    /// Auto-run stops stepping once the history holds this many generations.
    pub max: usize,
}

/// The generation cap a fresh session starts with.
pub const DEFAULT_MAX: usize = 50;

/// One cell whose code differs between the last two generations.
#[derive(Clone, Copy, Debug, PartialEq, Eq, Structural)]
pub struct CellChange {
    /// The cell.
    pub index: usize,
    /// Its code in the generation before the last.
    pub previous: u8,
    /// Its code in the last generation.
    pub current: u8,
}

/// The code of cell `index` in the next generation: the code of the tile the
/// resolver yields, or the present code where it yields none.
pub open spec fn next_cell(cells: Seq<u8>, index: int, rules: Map<Tile, Rule>) -> u8 {
    match next_tile(cells, index, rules) {
        Some(tile) => code_of_tile(tile),
        None => cells[index],
    }
}

/// The next generation: every cell resolved against the present one.
pub open spec fn next_generation(cells: Seq<u8>, rules: Map<Tile, Rule>) -> Seq<u8> {
    Seq::new(cells.len(), |index: int| next_cell(cells, index, rules))
}

/// The history after one step: the next generation of its last entry is
/// appended.
pub open spec fn stepped(history: Seq<Seq<u8>>, rules: Map<Tile, Rule>) -> Seq<Seq<u8>> {
    history.push(next_generation(history.last(), rules))
}

/// The history after `times` steps under the same rules.
pub open spec fn stepped_times(history: Seq<Seq<u8>>, rules: Map<Tile, Rule>, times: nat) -> Seq<
    Seq<u8>,
>
    decreases times,
{
    if times == 0 {
        history
    } else {
        stepped(stepped_times(history, rules, (times - 1) as nat), rules)
    }
}

/// The history after a reset: only the puzzle as loaded is left.
pub open spec fn rewound(history: Seq<Seq<u8>>) -> Seq<Seq<u8>> {
    if history.len() <= 1 {
        history
    } else {
        history.take(1)
    }
}

/// The generation the last one is compared with: the one before it, or the
/// last one itself where there is no other.
pub open spec fn previous_generation(history: Seq<Seq<u8>>) -> Seq<u8> {
    if history.len() >= 2 {
        history[history.len() - 2]
    } else {
        history[0]
    }
}

/// Whether the last generation is the goal. An empty history counts as an
/// empty board.
pub open spec fn reaches(history: Seq<Seq<u8>>, goal: Seq<u8>) -> bool {
    if history.len() == 0 {
        goal == Seq::<u8>::empty()
    } else {
        history.last() == goal
    }
}

/// The cells among the first `count` whose code differs between `previous`
/// and `current`, in ascending order, each with both codes.
pub open spec fn changes_upto(previous: Seq<u8>, current: Seq<u8>, count: nat) -> Seq<CellChange>
    decreases count,
{
    if count == 0 {
        Seq::empty()
    } else {
        let before = changes_upto(previous, current, (count - 1) as nat);
        if previous[count - 1] != current[count - 1] {
            before.push(
                CellChange {
                    index: (count - 1) as usize,
                    previous: previous[count - 1],
                    current: current[count - 1],
                },
            )
        } else {
            before
        }
    }
}

/// A step keeps the board size: the next generation has as many cells as
/// the present one.
pub proof fn lemma_next_generation_len(cells: Seq<u8>, rules: Map<Tile, Rule>)
    ensures
        next_generation(cells, rules).len() == cells.len(),
{
}

/// Stepping only appends: after `times` steps the history is longer by
/// `times`, and what was there before is still its beginning.
pub proof fn lemma_steps_append(history: Seq<Seq<u8>>, rules: Map<Tile, Rule>, times: nat)
    ensures
        stepped_times(history, rules, times).len() == history.len() + times,
        stepped_times(history, rules, times).take(history.len() as int) == history,
    decreases times,
{
    if times > 0 {
        let before = stepped_times(history, rules, (times - 1) as nat);
        lemma_steps_append(history, rules, (times - 1) as nat);
        assert(stepped(before, rules).take(history.len() as int) =~= before.take(
            history.len() as int,
        ));
    } else {
        assert(history.take(history.len() as int) =~= history);
    }
}

/// After `times` steps from a fresh load the history holds `times + 1`
/// generations, the first of them the puzzle as loaded.
pub proof fn lemma_steps_from_load(initial: Seq<u8>, rules: Map<Tile, Rule>, times: nat)
    ensures
        stepped_times(seq![initial], rules, times).len() == times + 1,
        stepped_times(seq![initial], rules, times)[0] == initial,
{
    lemma_steps_append(seq![initial], rules, times);
    let after = stepped_times(seq![initial], rules, times);
    assert(after.take(1)[0] == after[0]);
}

/// Resetting twice is resetting once.
pub proof fn lemma_reset_idempotent(history: Seq<Seq<u8>>)
    ensures
        rewound(rewound(history)) == rewound(history),
        history.len() >= 1 ==> rewound(history) == seq![history[0]],
{
    if history.len() >= 1 {
        assert(rewound(history) =~= seq![history[0]]);
    }
}

/// Replaying after a reset depends on nothing but the puzzle as loaded, the
/// rules and the number of steps: two sessions that share these arrive at
/// the same history, whatever either had computed before its reset.
pub proof fn lemma_replay_deterministic(
    first: Seq<Seq<u8>>,
    second: Seq<Seq<u8>>,
    rules: Map<Tile, Rule>,
    times: nat,
)
    requires
        first.len() >= 1,
        second.len() >= 1,
        first[0] == second[0],
    ensures
        stepped_times(rewound(first), rules, times) == stepped_times(
            rewound(second),
            rules,
            times,
        ),
        stepped_times(rewound(first), rules, times) == stepped_times(
            seq![first[0]],
            rules,
            times,
        ),
{
    lemma_reset_idempotent(first);
    lemma_reset_idempotent(second);
}

/// Whether two boards hold the same codes.
pub fn same_cells(a: &Grid, b: &Grid) -> (same: bool)
    ensures
        same == (a@ == b@),
{
    if a.len() != b.len() {
        return false;
    }
    let mut i: usize = 0;
    while i < a.len()
        invariant
            i <= a.len(),
            a.len() == b.len(),
            forall|j: int| 0 <= j < i ==> a@[j] == b@[j],
        decreases a.len() - i,
    {
        if a[i] != b[i] {
            return false;
        }
        i += 1;
    }
    assert(a@ =~= b@);
    true
}

impl Default for GridIterations {
    fn default() -> (iterations: GridIterations)
        ensures
            iterations.history() == Seq::<Seq<u8>>::empty(),
            iterations.goal@ == Seq::<u8>::empty(),
            iterations.max == 50,
    {
        let iterations = GridIterations { grid: Vec::new(), goal: Vec::new(), max: 50 };
        assert(iterations.history() =~= Seq::<Seq<u8>>::empty());
        iterations
    }
}

impl GridIterations {
    /// The history as a sequence of boards.
    pub open spec fn history(&self) -> Seq<Seq<u8>> {
        self.grid@.map_values(|generation: Grid| generation@)
    }

    /// Whether a puzzle is loaded and every generation has as many cells as
    /// the goal.
    pub open spec fn well_formed(&self) -> bool {
        &&& self.history().len() >= 1
        &&& forall|k: int|
            0 <= k < self.history().len() ==> (#[trigger] self.history()[k]).len()
                == self.goal@.len()
    }

    /// Whether `initial` and `goal` make a puzzle: two square boards of the
    /// same size.
    pub fn is_puzzle(initial: &Grid, goal: &Grid) -> (valid: bool)
        ensures
            valid == (initial@.len() == goal@.len() && is_square(initial@.len())),
    {
        initial.len() == goal.len() && is_perfect_square(initial.len())
    }

    /// Starts a session: the history becomes `initial` alone and `goal` is
    /// the board to reach.
    pub fn load(&mut self, initial: Grid, goal: Grid)
        requires
            initial@.len() == goal@.len(),
            is_square(initial@.len()),
        ensures
            final(self).history() == seq![initial@],
            final(self).goal@ == goal@,
            final(self).max == old(self).max,
            final(self).well_formed(),
    {
        self.grid.clear();
        self.grid.push(initial);
        self.goal = goal;
        assert(self.history() =~= seq![initial@]);
    }

    /// Advances the simulation by one generation: every cell of the last
    /// generation is resolved against that generation, and the result is
    /// appended. Returns whether the new generation is the goal.
    pub fn step(&mut self, rules: &PlayerRules) -> (solved: bool)
        requires
            old(self).grid.len() > 0,
        ensures
            final(self).history() == stepped(old(self).history(), rules@),
            final(self).history().len() == old(self).history().len() + 1,
            final(self).goal == old(self).goal,
            final(self).max == old(self).max,
            solved == (final(self).history().last() == final(self).goal@),
            old(self).well_formed() ==> final(self).well_formed(),
    {
        let last = self.grid.len() - 1;
        let current = &self.grid[last];
        let mut next: Grid = Vec::new();
        let mut index: usize = 0;
        while index < current.len()
            invariant
                index <= current.len(),
                next@ == Seq::new(index as nat, |i: int| next_cell(current@, i, rules@)),
            decreases current.len() - index,
        {
            let code = match current.check_neighbours(index, rules) {
                Some(tile) => tile.code(),
                None => current[index],
            };
            next.push(code);
            assert(next@ =~= Seq::new((index + 1) as nat, |i: int| next_cell(current@, i, rules@)));
            index += 1;
        }
        assert(current@ == old(self).history().last());
        assert(next@ == next_generation(current@, rules@));
        let solved = same_cells(&next, &self.goal);
        self.grid.push(next);
        assert(self.history() =~= stepped(old(self).history(), rules@));
        solved
    }

    /// Goes back to the puzzle as loaded: every generation but the first is
    /// dropped.
    pub fn reset(&mut self)
        ensures
            final(self).history() == rewound(old(self).history()),
            final(self).goal == old(self).goal,
            final(self).max == old(self).max,
            old(self).well_formed() ==> final(self).well_formed(),
    {
        self.grid.truncate(1);
        assert(self.history() =~= rewound(old(self).history()));
    }

    /// The last generation.
    pub fn current(&self) -> (board: &Grid)
        requires
            self.grid.len() > 0,
        ensures
            board@ == self.history().last(),
    {
        &self.grid[self.grid.len() - 1]
    }

    /// The generation the last one is compared with when drawing: the one
    /// before it, or the last one itself right after a load or a reset.
    pub fn previous(&self) -> (board: &Grid)
        requires
            self.grid.len() > 0,
        ensures
            board@ == previous_generation(self.history()),
    {
        let count = self.grid.len();
        if count >= 2 {
            &self.grid[count - 2]
        } else {
            &self.grid[0]
        }
    }

    /// Whether cell `index` differs between the last two generations. Right
    /// after a load or a reset nothing has changed.
    pub fn changed(&self, index: usize) -> (differs: bool)
        requires
            self.grid.len() > 0,
            index < self.history().last().len(),
            index < previous_generation(self.history()).len(),
        ensures
            differs == (self.history().last()[index as int] != previous_generation(
                self.history(),
            )[index as int]),
            self.history().len() == 1 ==> !differs,
    {
        self.current()[index] != self.previous()[index]
    }

    /// The cells that differ between the last two generations, in ascending
    /// order, each with its code before and after.
    pub fn changed_cells(&self) -> (changes: Vec<CellChange>)
        requires
            self.grid.len() > 0,
            self.history().last().len() == previous_generation(self.history()).len(),
        ensures
            changes@ == changes_upto(
                previous_generation(self.history()),
                self.history().last(),
                self.history().last().len(),
            ),
    {
        let current = self.current();
        let previous = self.previous();
        let mut changes: Vec<CellChange> = Vec::new();
        let mut index: usize = 0;
        while index < current.len()
            invariant
                index <= current.len(),
                current.len() == previous.len(),
                changes@ == changes_upto(previous@, current@, index as nat),
            decreases current.len() - index,
        {
            if previous[index] != current[index] {
                changes.push(
                    CellChange { index, previous: previous[index], current: current[index] },
                );
            }
            index += 1;
        }
        changes
    }

    /// Whether cell `index` of the last generation already holds the code
    /// the goal has there.
    pub fn is_correct(&self, index: usize) -> (correct: bool)
        requires
            self.grid.len() > 0,
            index < self.history().last().len(),
            index < self.goal@.len(),
        ensures
            correct == (self.history().last()[index as int] == self.goal@[index as int]),
    {
        self.current()[index] == self.goal[index]
    }

    /// The face to draw on cell `index`: happy where the cell already holds
    /// the code of the goal, sad where it does not.
    pub fn face(&self, index: usize) -> (face: Face)
        requires
            self.grid.len() > 0,
            index < self.history().last().len(),
            index < self.goal@.len(),
        ensures
            face == (if self.history().last()[index as int] == self.goal@[index as int] {
                Face::Happy
            } else {
                Face::Sad
            }),
    {
        if self.is_correct(index) {
            Face::Happy
        } else {
            Face::Sad
        }
    }

    /// Overwrites cell `index` of the last generation with `tile`.
    pub fn paint(&mut self, index: usize, tile: Tile)
        requires
            old(self).grid.len() > 0,
            index < old(self).history().last().len(),
        ensures
            final(self).history() == old(self).history().update(
                old(self).history().len() - 1,
                old(self).history().last().update(index as int, code_of_tile(tile)),
            ),
            final(self).goal == old(self).goal,
            final(self).max == old(self).max,
    {
        let code = tile.code();
        match self.grid.pop() {
            Some(mut board) => {
                board[index] = code;
                self.grid.push(board);
            },
            None => {},
        }
        assert(self.history() =~= old(self).history().update(
            old(self).history().len() - 1,
            old(self).history().last().update(index as int, code_of_tile(tile)),
        ));
    }

    /// Whether the last generation is the goal.
    pub fn is_solved(&self) -> (solved: bool)
        ensures
            solved == reaches(self.history(), self.goal@),
    {
        if self.grid.len() == 0 {
            assert(self.goal@.len() == 0 ==> self.goal@ =~= Seq::<u8>::empty());
            self.goal.len() == 0
        } else {
            same_cells(self.current(), &self.goal)
        }
    }

    /// Whether the history has reached the generation cap of auto-run.
    pub fn at_cap(&self) -> (capped: bool)
        ensures
            capped == (self.history().len() >= self.max),
    {
        self.grid.len() >= self.max
    }
}

} // verus!
