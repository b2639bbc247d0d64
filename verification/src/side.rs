//! The side length of a square board: the integer square root of its cell
//! count.

use vstd::prelude::*;

verus! {

/// Whether `side` is the integer square root of `count`: the one number whose
/// square does not exceed `count` while the next square does.
pub open spec fn is_side(count: nat, side: nat) -> bool {
    side * side <= count < (side + 1) * (side + 1)
}

/// The integer square root of `count`.
pub open spec fn side_of(count: nat) -> nat
    decreases count,
{
    if count == 0 {
        0
    } else {
        let below = side_of((count - 1) as nat);
        if (below + 1) * (below + 1) <= count {
            below + 1
        } else {
            below
        }
    }
}

/// Whether `count` cells fill a square board.
pub open spec fn is_square(count: nat) -> bool {
    side_of(count) * side_of(count) == count
}

/// `side_of` is the integer square root.
pub proof fn lemma_side_of(count: nat)
    ensures
        is_side(count, side_of(count)),
    decreases count,
{
    if count > 0 {
        lemma_side_of((count - 1) as nat);
        let below = side_of((count - 1) as nat);
        assert(is_side((count - 1) as nat, below));
        if (below + 1) * (below + 1) <= count {
            assert((below + 1 + 1) * (below + 1 + 1) == (below + 1) * (below + 1) + 2 * below + 3)
                by (nonlinear_arith);
            assert(side_of(count) == below + 1);
        } else {
            assert(side_of(count) == below);
        }
    } else {
        assert(side_of(count) == 0);
        assert(is_side(0, 0)) by (nonlinear_arith);
    }
}

/// There is only one integer square root.
pub proof fn lemma_side_unique(count: nat, a: nat, b: nat)
    requires
        is_side(count, a),
        is_side(count, b),
    ensures
        a == b,
{
    if a < b {
        assert((a + 1) * (a + 1) <= b * b) by (nonlinear_arith)
            requires
                a + 1 <= b,
        ;
    } else if b < a {
        assert((b + 1) * (b + 1) <= a * a) by (nonlinear_arith)
            requires
                b + 1 <= a,
        ;
    }
}

/// A board of `side * side` cells has side `side`, and is square.
pub proof fn lemma_square_side(side: nat)
    ensures
        side_of(side * side) == side,
        is_square(side * side),
{
    lemma_side_of(side * side);
    assert(is_side(side * side, side)) by (nonlinear_arith);
    lemma_side_unique(side * side, side, side_of(side * side));
}

/// A board with at least one cell has a side of at least one, and no side
/// is longer than the cell count.
pub proof fn lemma_side_bounds(count: nat)
    ensures
        count >= 1 ==> side_of(count) >= 1,
        side_of(count) <= count,
{
    lemma_side_of(count);
    let side = side_of(count);
    assert(side <= side * side) by (nonlinear_arith);
    if count >= 1 && side == 0 {
        assert((side + 1) * (side + 1) == 1) by (nonlinear_arith)
            requires
                side == 0,
        ;
    }
}

/// The integer square root of `count`.
pub fn isqrt(count: usize) -> (side: usize)
    ensures
        side == side_of(count as nat),
        is_side(count as nat, side as nat),
{
    let target: u64 = count as u64;
    let mut low: u64 = 0;
    let mut high: u64 = 0x1_0000_0000;
    assert(0x1_0000_0000u64 * 0x1_0000_0000u64 > u64::MAX) by (nonlinear_arith);
    while high - low > 1
        invariant
            low < high <= 0x1_0000_0000,
            low * low <= target,
            target < high * high,
            target == count,
        decreases high - low,
    {
        let middle: u64 = low + (high - low) / 2;
        assert(middle * middle <= 0xFFFF_FFFF * 0xFFFF_FFFF) by (nonlinear_arith)
            requires
                middle <= 0xFFFF_FFFF,
        ;
        if middle * middle <= target {
            low = middle;
        } else {
            high = middle;
        }
    }
    proof {
        assert(high == low + 1);
        assert(low <= low * low) by (nonlinear_arith);
        lemma_side_of(count as nat);
        lemma_side_unique(count as nat, low as nat, side_of(count as nat));
    }
    low as usize
}

/// Whether `count` cells fill a square board.
pub fn is_perfect_square(count: usize) -> (square: bool)
    ensures
        square == is_square(count as nat),
{
    let side = isqrt(count);
    proof {
        lemma_side_bounds(count as nat);
        assert(side * side <= count);
    }
    side * side == count
}

} // verus!
