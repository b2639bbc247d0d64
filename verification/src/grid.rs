//! The board and the neighbour resolver: what a cell sees around it, and what
//! it becomes under the player's rules.

use vstd::prelude::*;
use crate::rule::{rule_outcome, Rule};
use crate::rules::{rule_of, PlayerRules};
use crate::side::{isqrt, lemma_side_bounds, lemma_side_of, side_of};
use crate::tile::{tile_of_code, Tile};

verus! {

/// One generation of the board: the tile codes of its cells, row by row.
pub type Grid = Vec<u8>;

/// The distance in the flat cell sequence from a cell to its neighbour at
/// `position`, on a board of the given side. Positions run in compass order:
/// 0 NW, 1 N, 2 NE, 3 W, 4 E, 5 SW, 6 S, 7 SE.
pub open spec fn neighbour_offset(side: int, position: int) -> int {
    if position == 0 {
        -(side + 1)
    } else if position == 1 {
        -side
    } else if position == 2 {
        -(side - 1)
    } else if position == 3 {
        -1
    } else if position == 4 {
        1
    } else if position == 5 {
        side - 1
    } else if position == 6 {
        side
    } else {
        side + 1
    }
}

/// The positions that lie to the west: NW, W and SW.
pub open spec fn looks_west(position: int) -> bool {
    position == 0 || position == 3 || position == 5
}

/// The positions that lie to the east: NE, E and SE.
pub open spec fn looks_east(position: int) -> bool {
    position == 2 || position == 4 || position == 7
}

/// Whether the neighbour of cell `index` at `position` is cut off: it falls
/// outside the cell sequence, or it lies west of a cell in the first column
/// or east of a cell in the last column, where the flat sequence would wrap
/// into another row.
pub open spec fn is_clipped(count: nat, index: int, position: int) -> bool {
    let side = side_of(count) as int;
    let at = index + neighbour_offset(side, position);
    ||| at < 0
    ||| at >= count
    ||| (index % side == 0 && looks_west(position))
    ||| ((index + 1) % side == 0 && looks_east(position))
}

/// The tile that cell `index` sees at `position`: `Empty` where the
/// neighbour is cut off, the decoded neighbour cell otherwise.
pub open spec fn neighbour_tile(cells: Seq<u8>, index: int, position: int) -> Tile {
    if is_clipped(cells.len(), index, position) {
        Tile::Empty
    } else {
        tile_of_code(cells[index + neighbour_offset(side_of(cells.len()) as int, position)])
    }
}

/// The tiles seen at the enabled positions among the first `count`, in
/// compass order. Disabled positions contribute nothing.
pub open spec fn neighbour_tiles_upto(cells: Seq<u8>, index: int, mask: Seq<bool>, count: nat) -> Seq<
    Tile,
>
    decreases count,
{
    if count == 0 {
        Seq::empty()
    } else {
        let before = neighbour_tiles_upto(cells, index, mask, (count - 1) as nat);
        if mask[count - 1] {
            before.push(neighbour_tile(cells, index, count - 1))
        } else {
            before
        }
    }
}

/// The tiles that cell `index` sees through `mask`, in compass order.
pub open spec fn neighbour_tiles(cells: Seq<u8>, index: int, mask: Seq<bool>) -> Seq<Tile> {
    neighbour_tiles_upto(cells, index, mask, 8)
}

/// The tile that cell `index` turns into under `rules`, or `None` where it
/// keeps its value: there is no rule for its tile, the rule does not fire, or
/// the rule has no result.
pub open spec fn next_tile(cells: Seq<u8>, index: int, rules: Map<Tile, Rule>) -> Option<Tile> {
    match rule_of(rules, tile_of_code(cells[index])) {
        Some(rule) => rule_outcome(rule, neighbour_tiles(cells, index, rule.mask@)),
        None => None,
    }
}

/// The row step of a compass position: -1 for the northern three, +1 for
/// the southern three, 0 for W and E.
pub open spec fn row_step(position: int) -> int {
    if position <= 2 {
        -1
    } else if position <= 4 {
        0
    } else {
        1
    }
}

/// The column step of a compass position: -1 for the western three, +1 for
/// the eastern three, 0 for N and S.
pub open spec fn column_step(position: int) -> int {
    if looks_west(position) {
        -1
    } else if looks_east(position) {
        1
    } else {
        0
    }
}

/// On a square board a cell sees exactly its eight neighbours in the plane.
/// The neighbour of the cell in row `row` and column `column` at `position`
/// is the cell one row step and one column step away where that cell is on
/// the board, and `Empty` where it is not. No lookup ever leaves the board
/// or wraps from one row into another.
pub proof fn lemma_neighbour_on_square_board(
    cells: Seq<u8>,
    side: int,
    row: int,
    column: int,
    position: int,
)
    requires
        side >= 1,
        cells.len() == side * side,
        0 <= row < side,
        0 <= column < side,
        0 <= position < 8,
    ensures
        ({
            let r = row + row_step(position);
            let c = column + column_step(position);
            neighbour_tile(cells, row * side + column, position) == (if 0 <= r < side && 0 <= c
                < side {
                tile_of_code(cells[r * side + c])
            } else {
                Tile::Empty
            })
        }),
        0 <= row * side + column < cells.len(),
{
    let index = row * side + column;
    let r = row + row_step(position);
    let c = column + column_step(position);
    crate::side::lemma_square_side(side as nat);
    assert(side_of(cells.len()) == side);
    let at = index + neighbour_offset(side, position);
    let step = row_step(position);
    assert(step * side == (if step == -1 {
        -side
    } else if step == 0 {
        0
    } else {
        side
    })) by (nonlinear_arith)
        requires
            -1 <= step <= 1,
    ;
    assert(neighbour_offset(side, position) == row_step(position) * side + column_step(position));
    assert(at == r * side + c) by (nonlinear_arith)
        requires
            at == row * side + column + neighbour_offset(side, position),
            r == row + row_step(position),
            c == column + column_step(position),
            neighbour_offset(side, position) == row_step(position) * side + column_step(position),
    ;
    assert(0 <= index < side * side) by (nonlinear_arith)
        requires
            index == row * side + column,
            0 <= row < side,
            0 <= column < side,
    ;
    vstd::arithmetic::div_mod::lemma_fundamental_div_mod_converse(index, side, row, column);
    assert(index % side == column);
    if column + 1 < side {
        vstd::arithmetic::div_mod::lemma_fundamental_div_mod_converse(
            index + 1,
            side,
            row,
            column + 1,
        );
        assert((index + 1) % side == column + 1);
    } else {
        assert(index + 1 == (row + 1) * side) by (nonlinear_arith)
            requires
                index == row * side + column,
                column + 1 == side,
        ;
        vstd::arithmetic::div_mod::lemma_fundamental_div_mod_converse(
            index + 1,
            side,
            row + 1,
            0,
        );
        assert((index + 1) % side == 0);
    }
    if 0 <= c < side {
        if 0 <= r < side {
            assert(0 <= r * side + c < side * side) by (nonlinear_arith)
                requires
                    0 <= r < side,
                    0 <= c < side,
            ;
        } else if r < 0 {
            assert(r * side + c < 0) by (nonlinear_arith)
                requires
                    r <= -1,
                    0 <= c < side,
            ;
        } else {
            assert(r * side + c >= side * side) by (nonlinear_arith)
                requires
                    r >= side,
                    0 <= c,
                    side >= 1,
            ;
        }
    }
}

/// The tile that cell `index` sees at `position`.
pub fn neighbour_at(grid: &Grid, index: usize, position: usize) -> (tile: Tile)
    requires
        index < grid.len(),
        position < 8,
    ensures
        tile == neighbour_tile(grid@, index as int, position as int),
{
    let count = grid.len();
    let side = isqrt(count);
    proof {
        lemma_side_bounds(count as nat);
        lemma_side_of(count as nat);
        if side >= 2 {
            assert(2 * side <= side * side) by (nonlinear_arith)
                requires
                    side >= 2,
            ;
        }
    }
    let west_edge = index % side == 0;
    let east_edge = (index + 1) % side == 0;
    let wraps = (west_edge && (position == 0 || position == 3 || position == 5)) || (east_edge && (
    position == 2 || position == 4 || position == 7));
    let backwards = position < 4;
    let distance: usize = if position == 0 || position == 7 {
        side + 1
    } else if position == 1 || position == 6 {
        side
    } else if position == 2 || position == 5 {
        side - 1
    } else {
        1
    };
    if backwards {
        if index < distance || wraps {
            Tile::Empty
        } else {
            Tile::from_u8(grid[index - distance])
        }
    } else {
        if distance >= count - index || wraps {
            Tile::Empty
        } else {
            Tile::from_u8(grid[index + distance])
        }
    }
}

/// The tiles that cell `index` sees through `mask`, in compass order.
pub fn neighbours(grid: &Grid, index: usize, mask: &[bool; 8]) -> (tiles: Vec<Tile>)
    requires
        index < grid.len(),
    ensures
        tiles@ == neighbour_tiles(grid@, index as int, mask@),
{
    let mut tiles: Vec<Tile> = Vec::new();
    let mut position: usize = 0;
    while position < 8
        invariant
            position <= 8,
            index < grid.len(),
            tiles@ == neighbour_tiles_upto(grid@, index as int, mask@, position as nat),
        decreases 8 - position,
    {
        if mask[position] {
            tiles.push(neighbour_at(grid, index, position));
        }
        position += 1;
    }
    tiles
}

/// What a board can tell about one of its cells.
pub trait Utility {
    /// The tile codes of the board's cells.
    spec fn cells(&self) -> Seq<u8>;

    /// The tile that cell `index` turns into in the next generation under
    /// `input`, or `None` where the cell keeps its value.
    fn check_neighbours(&self, index: usize, input: &PlayerRules) -> (next: Option<Tile>)
        requires
            index < self.cells().len(),
        ensures
            next == next_tile(self.cells(), index as int, input@),
    ;
}

impl Utility for Grid {
    open spec fn cells(&self) -> Seq<u8> {
        self@
    }

    fn check_neighbours(&self, index: usize, input: &PlayerRules) -> (next: Option<Tile>) {
        match input.rule(Tile::from_u8(self[index])) {
            Some(rule) => {
                let seen = neighbours(self, index, &rule.mask);
                rule.outcome(&seen)
            },
            None => None,
        }
    }
}

} // verus!
