//! The colour pool: which tile codes are in play, and how the rule set
//! follows them.

use vstd::prelude::*;
use crate::grid::Grid;
use crate::iterations::GridIterations;
use crate::rule::{default_rule, Rule};
use crate::rule_map::{
    contains_code, entries_kept, entries_with_default, map_or_default, map_retain, rule_entries,
};
use crate::rules::{lemma_insert_by_tile, rules_by_tile, PlayerRules};
use crate::tile::{code_of_tile, lemma_decode_encode, tile_of_code, Tile};

verus! {

/// Whether `code` occurs on the present board or in the goal.
pub open spec fn in_play(current: Seq<u8>, goal: Seq<u8>, code: u8) -> bool {
    current.contains(code) || goal.contains(code)
}

/// The codes below `bound` that are in play, in ascending order.
pub open spec fn pool_codes_below(current: Seq<u8>, goal: Seq<u8>, bound: nat) -> Seq<u8>
    decreases bound,
{
    if bound == 0 {
        Seq::empty()
    } else {
        let before = pool_codes_below(current, goal, (bound - 1) as nat);
        if in_play(current, goal, (bound - 1) as u8) {
            before.push((bound - 1) as u8)
        } else {
            before
        }
    }
}

/// Every code in play, once, in ascending order.
pub open spec fn pool_codes(current: Seq<u8>, goal: Seq<u8>) -> Seq<u8> {
    pool_codes_below(current, goal, 256)
}

/// Whether some code of the pool decodes to `tile`.
pub open spec fn tile_in_pool(codes: Seq<u8>, tile: Tile) -> bool {
    exists|code: u8| codes.contains(code) && tile_of_code(code) == tile
}

/// The rule set brought in line with a pool: a tile has a rule exactly when
/// a code of the pool decodes to it. It keeps the rule it had if its own
/// code is in the pool, and has the default rule otherwise.
pub open spec fn pooled_rules(rules: Map<Tile, Rule>, codes: Seq<u8>) -> Map<Tile, Rule> {
    Map::new(
        |tile: Tile| tile_in_pool(codes, tile),
        |tile: Tile|
            if rules.contains_key(tile) && codes.contains(code_of_tile(tile)) {
                rules[tile]
            } else {
                default_rule()
            },
    )
}

/// The choices the rule editor offers for a pool: the decoded tile of every
/// code, in pool order, and last "no tile".
pub open spec fn pool_choices(codes: Seq<u8>) -> Seq<Option<Tile>> {
    codes.map_values(|code: u8| Some(tile_of_code(code))).push(None)
}

/// The codes below a bound are exactly the codes in play below that bound,
/// in strictly ascending order.
pub proof fn lemma_pool_codes_below(current: Seq<u8>, goal: Seq<u8>, bound: nat)
    requires
        bound <= 256,
    ensures
        forall|code: u8| #[trigger]
            pool_codes_below(current, goal, bound).contains(code) <==> (code < bound && in_play(
                current,
                goal,
                code,
            )),
        forall|i: int, j: int|
            0 <= i < j < pool_codes_below(current, goal, bound).len() ==> pool_codes_below(
                current,
                goal,
                bound,
            )[i] < pool_codes_below(current, goal, bound)[j],
    decreases bound,
{
    if bound > 0 {
        lemma_pool_codes_below(current, goal, (bound - 1) as nat);
        let before = pool_codes_below(current, goal, (bound - 1) as nat);
        let top = (bound - 1) as u8;
        let all = pool_codes_below(current, goal, bound);
        if in_play(current, goal, top) {
            assert(all == before.push(top));
            assert forall|code: u8| #[trigger] all.contains(code) <==> (code < bound && in_play(
                current,
                goal,
                code,
            )) by {
                if all.contains(code) {
                    let i = choose|i: int| 0 <= i < all.len() && all[i] == code;
                    if i < before.len() {
                        assert(before[i] == code);
                        assert(before.contains(code));
                    }
                }
                if code < bound && in_play(current, goal, code) {
                    if code == top {
                        assert(all[before.len() as int] == code);
                    } else {
                        assert(before.contains(code));
                        let i = choose|i: int| 0 <= i < before.len() && before[i] == code;
                        assert(all[i] == code);
                    }
                }
            }
            assert forall|i: int, j: int| 0 <= i < j < all.len() implies all[i] < all[j] by {
                if j == before.len() {
                    assert(before[i] == all[i]);
                    assert(before.contains(all[i]));
                } else {
                    assert(before[i] == all[i] && before[j] == all[j]);
                }
            }
        } else {
            assert(all == before);
        }
    }
}

/// The pool holds every code in play, none that is not, and each once, in
/// ascending order.
pub proof fn lemma_pool_codes(current: Seq<u8>, goal: Seq<u8>)
    ensures
        forall|code: u8| #[trigger]
            pool_codes(current, goal).contains(code) <==> in_play(current, goal, code),
        forall|i: int, j: int|
            0 <= i < j < pool_codes(current, goal).len() ==> pool_codes(current, goal)[i]
                < pool_codes(current, goal)[j],
{
    lemma_pool_codes_below(current, goal, 256);
}

/// Closure of the rule set under the colour pool: once the rule set has been
/// brought in line, the tile of every code on the board or in the goal has a
/// rule, and every tile that has a rule is the tile of such a code. A tile
/// kept its rule if its own code is in play and starts from the default rule
/// otherwise.
pub proof fn lemma_pool_closure(rules: Map<Tile, Rule>, current: Seq<u8>, goal: Seq<u8>)
    ensures
        forall|code: u8| #[trigger]
            in_play(current, goal, code) ==> pooled_rules(
                rules,
                pool_codes(current, goal),
            ).contains_key(tile_of_code(code)),
        forall|tile: Tile| #[trigger]
            pooled_rules(rules, pool_codes(current, goal)).contains_key(tile) ==> exists|code: u8|
                in_play(current, goal, code) && tile_of_code(code) == tile,
        forall|tile: Tile| #[trigger]
            pooled_rules(rules, pool_codes(current, goal)).contains_key(tile) ==> pooled_rules(
                rules,
                pool_codes(current, goal),
            )[tile] == (if rules.contains_key(tile) && in_play(current, goal, code_of_tile(tile)) {
                rules[tile]
            } else {
                default_rule()
            }),
{
    lemma_pool_codes(current, goal);
    let codes = pool_codes(current, goal);
    let after = pooled_rules(rules, codes);
    assert forall|code: u8| #[trigger] in_play(current, goal, code) implies after.contains_key(
        tile_of_code(code),
    ) by {
        assert(codes.contains(code));
    }
    assert forall|tile: Tile| #[trigger] after.contains_key(tile) implies exists|code: u8|
        in_play(current, goal, code) && tile_of_code(code) == tile by {
        let code = choose|code: u8| codes.contains(code) && tile_of_code(code) == tile;
        assert(in_play(current, goal, code));
    }
    assert forall|tile: Tile| #[trigger] after.contains_key(tile) implies after[tile] == (
    if rules.contains_key(tile) && in_play(current, goal, code_of_tile(tile)) {
        rules[tile]
    } else {
        default_rule()
    }) by {
        assert(codes.contains(code_of_tile(tile)) == in_play(
            current,
            goal,
            code_of_tile(tile),
        ));
    }
}

/// Bringing the rule set in line with the same pool twice changes nothing
/// the second time.
pub proof fn lemma_pooled_twice(rules: Map<Tile, Rule>, codes: Seq<u8>)
    ensures
        pooled_rules(pooled_rules(rules, codes), codes) == pooled_rules(rules, codes),
{
    let once = pooled_rules(rules, codes);
    let twice = pooled_rules(once, codes);
    assert forall|tile: Tile| once.contains_key(tile) implies twice[tile] == once[tile] by {
        assert(twice.contains_key(tile));
    }
    assert(twice =~= once);
}

/// Every code in play, once, in ascending order.
pub fn color_codes(current: &Grid, goal: &Grid) -> (codes: Vec<u8>)
    ensures
        codes@ == pool_codes(current@, goal@),
{
    let mut codes: Vec<u8> = Vec::new();
    let mut bound: u16 = 0;
    while bound < 256
        invariant
            bound <= 256,
            codes@ == pool_codes_below(current@, goal@, bound as nat),
        decreases 256 - bound,
    {
        let code = bound as u8;
        if contains_code(current, code) || contains_code(goal, code) {
            codes.push(code);
        }
        bound += 1;
    }
    codes
}

/// Brings the rule set in line with the board and the goal. The colour pool
/// becomes the codes that occur on the last generation or in the goal. Rules
/// of tiles whose code is not in the pool are dropped, every tile of the pool
/// without a rule gets the default rule, and the editor's choices are rebuilt
/// from the pool.
pub fn calculate_color_pool(grid_iter: &GridIterations, rules: &mut PlayerRules)
    requires
        grid_iter.grid.len() > 0,
    ensures
        final(rules)@ == pooled_rules(
            old(rules)@,
            pool_codes(grid_iter.history().last(), grid_iter.goal@),
        ),
        final(rules).color_pool@ == pool_choices(
            pool_codes(grid_iter.history().last(), grid_iter.goal@),
        ),
        old(rules).keys_in_palette() ==> final(rules).keys_in_palette(),
{
    let codes = color_codes(grid_iter.current(), &grid_iter.goal);
    let ghost before = rules@;
    map_retain(&mut rules.rules, &codes);
    let ghost kept = rules@;
    assert(kept =~= Map::new(
        |tile: Tile| before.contains_key(tile) && codes@.contains(code_of_tile(tile)),
        |tile: Tile| before[tile],
    ));
    rules.color_pool.clear();
    let mut i: usize = 0;
    while i < codes.len()
        invariant
            i <= codes.len(),
            rules.color_pool@ == codes@.take(i as int).map_values(
                |code: u8| Some(tile_of_code(code)),
            ),
            old(rules).keys_in_palette() ==> rules.keys_in_palette(),
            rules@.dom() == Set::new(
                |tile: Tile| kept.contains_key(tile) || tile_in_pool(codes@.take(i as int), tile),
            ),
            forall|tile: Tile| #[trigger]
                rules@.contains_key(tile) ==> rules@[tile] == (if kept.contains_key(tile) {
                    kept[tile]
                } else {
                    default_rule()
                }),
        decreases codes.len() - i,
    {
        let tile = Tile::from_u8(codes[i]);
        let ghost earlier = rules@;
        proof {
            lemma_insert_by_tile(rule_entries(rules.rules), tile, default_rule());
        }
        map_or_default(&mut rules.rules, tile.code());
        rules.color_pool.push(Some(tile));
        proof {
            let taken = codes@.take(i as int);
            let more = codes@.take(i + 1);
            assert(more == taken.push(codes@[i as int]));
            assert(rules.color_pool@ =~= more.map_values(|code: u8| Some(tile_of_code(code))));
            assert(rules@ == (if earlier.contains_key(tile) {
                earlier
            } else {
                earlier.insert(tile, default_rule())
            }));
            assert forall|t: Tile| tile_in_pool(more, t) <==> (tile_in_pool(taken, t) || t
                == tile) by {
                if tile_in_pool(more, t) {
                    let code = choose|code: u8| more.contains(code) && tile_of_code(code) == t;
                    let at = choose|at: int| 0 <= at < more.len() && more[at] == code;
                    if at < i {
                        assert(taken[at] == code);
                        assert(taken.contains(code));
                    }
                }
                if tile_in_pool(taken, t) {
                    let code = choose|code: u8| taken.contains(code) && tile_of_code(code) == t;
                    let at = choose|at: int| 0 <= at < taken.len() && taken[at] == code;
                    assert(more[at] == code);
                    assert(more.contains(code));
                }
                if t == tile {
                    assert(more[i as int] == codes@[i as int]);
                    assert(more.contains(codes@[i as int]));
                }
            }
            assert(rules@.dom() =~= Set::new(
                |t: Tile| kept.contains_key(t) || tile_in_pool(more, t),
            ));
        }
        i += 1;
    }
    rules.color_pool.push(None);
    proof {
        assert(codes@.take(codes@.len() as int) == codes@);
        let target = pooled_rules(before, codes@);
        assert forall|t: Tile| rules@.contains_key(t) <==> target.contains_key(t) by {
            assert(rules@.contains_key(t) == rules@.dom().contains(t));
            if kept.contains_key(t) {
                lemma_decode_encode(t);
                assert(codes@.contains(code_of_tile(t)));
            }
        }
        assert forall|t: Tile| rules@.contains_key(t) implies rules@[t] == target[t] by {
            assert(target.contains_key(t));
            if kept.contains_key(t) {
                assert(kept[t] == before[t]);
            }
        }
        assert(rules@ =~= target);
    }
}

} // verus!
