//! The grid of order pairs that a two-dimensional search walks.
//!
//! Candidates are the pairs `(ar, ma)` with `0 <= ar <= max_ar` and
//! `0 <= ma <= max_ma`, enumerated row by row: all moving-average orders of
//! autoregressive order 0 first, then those of order 1, and so on. A pair and
//! its position in that enumeration determine each other, and the same
//! convention serves to build the grid and to read a position back.

use crate::select::{better, first_best, is_first_best, none_scored};
use vstd::arithmetic::div_mod::{
    lemma_div_pos_is_pos, lemma_fundamental_div_mod, lemma_fundamental_div_mod_converse,
    lemma_mod_pos_bound,
};
use vstd::prelude::*;

verus! {

/// Number of candidate pairs.
pub open spec fn grid_len(max_ar: int, max_ma: int) -> int {
    (max_ar + 1) * (max_ma + 1)
}

/// Position of the pair `(ar, ma)` in the enumeration.
pub open spec fn pair_index(ar: int, ma: int, max_ma: int) -> int {
    ar * (max_ma + 1) + ma
}

/// The pair that stands at `index` in the enumeration.
pub open spec fn pair_at(index: int, max_ma: int) -> (int, int) {
    (index / (max_ma + 1), index % (max_ma + 1))
}

/// Reading back the position of a pair gives the pair.
pub proof fn lemma_pair_at_index(ar: int, ma: int, max_ma: int)
    requires
        0 <= ma <= max_ma,
    ensures
        pair_at(pair_index(ar, ma, max_ma), max_ma) == (ar, ma),
{
    lemma_fundamental_div_mod_converse(pair_index(ar, ma, max_ma), max_ma + 1, ar, ma);
}

/// The pair at a position has that position, and its moving-average order
/// stays within the grid.
pub proof fn lemma_index_of_pair_at(index: int, max_ma: int)
    requires
        0 <= index,
        0 <= max_ma,
    ensures
        pair_index(pair_at(index, max_ma).0, pair_at(index, max_ma).1, max_ma) == index,
        0 <= pair_at(index, max_ma).0 <= index,
        0 <= pair_at(index, max_ma).1 <= max_ma,
{
    let w = max_ma + 1;
    let q = index / w;
    lemma_fundamental_div_mod(index, w);
    lemma_div_pos_is_pos(index, w);
    lemma_mod_pos_bound(index, w);
    assert(w * q == q * w) by (nonlinear_arith);
    assert(q <= q * w) by (nonlinear_arith)
        requires
            0 <= q,
            1 <= w,
    ;
}

/// Every position below the number of candidates names a pair of the grid.
pub proof fn lemma_pair_in_grid(index: int, max_ar: int, max_ma: int)
    requires
        0 <= max_ar,
        0 <= max_ma,
        0 <= index < grid_len(max_ar, max_ma),
    ensures
        0 <= pair_at(index, max_ma).0 <= max_ar,
        0 <= pair_at(index, max_ma).1 <= max_ma,
{
    lemma_index_of_pair_at(index, max_ma);
    let w = max_ma + 1;
    let q = index / w;
    if q > max_ar {
        assert(q * w >= (max_ar + 1) * w) by (nonlinear_arith)
            requires
                q >= max_ar + 1,
                w >= 1,
        ;
    }
}

/// Every pair of the grid has a position below the number of candidates.
pub proof fn lemma_index_in_grid(ar: int, ma: int, max_ar: int, max_ma: int)
    requires
        0 <= ar <= max_ar,
        0 <= ma <= max_ma,
    ensures
        0 <= pair_index(ar, ma, max_ma) < grid_len(max_ar, max_ma),
{
    let w = max_ma + 1;
    assert(ar * w + w <= (max_ar + 1) * w) by (nonlinear_arith)
        requires
            ar <= max_ar,
            w >= 1,
    ;
    assert(0 <= ar * w) by (nonlinear_arith)
        requires
            0 <= ar,
            1 <= w,
    ;
}

/// The enumeration tries lower orders first: a pair stands before another
/// exactly when its autoregressive order is lower, or equal with a lower
/// moving-average order.
pub proof fn lemma_enumeration_order(a1: int, m1: int, a2: int, m2: int, max_ma: int)
    requires
        0 <= m1 <= max_ma,
        0 <= m2 <= max_ma,
    ensures
        pair_index(a1, m1, max_ma) < pair_index(a2, m2, max_ma)
            <==> a1 < a2 || (a1 == a2 && m1 < m2),
{
    let w = max_ma + 1;
    if a1 < a2 {
        assert(a1 * w + w <= a2 * w) by (nonlinear_arith)
            requires
                a1 + 1 <= a2,
                w >= 1,
        ;
    } else if a2 < a1 {
        assert(a2 * w + w <= a1 * w) by (nonlinear_arith)
            requires
                a2 + 1 <= a1,
                w >= 1,
        ;
    }
}

/// Reads a position of the enumeration back into the pair that stands there.
pub fn decode_pair(index: usize, max_ma: usize) -> (pair: (usize, usize))
    requires
        max_ma < usize::MAX,
    ensures
        (pair.0 as int, pair.1 as int) == pair_at(index as int, max_ma as int),
        pair_index(pair.0 as int, pair.1 as int, max_ma as int) == index,
        pair.1 <= max_ma,
{
    proof {
        lemma_index_of_pair_at(index as int, max_ma as int);
    }
    let width = max_ma + 1;
    (index / width, index % width)
}

/// Enumerates the candidate pairs of a search up to `max_ar` and `max_ma`,
/// in the order in which they are tried.
pub fn candidate_pairs(max_ar: usize, max_ma: usize) -> (grid: Vec<(usize, usize)>)
    requires
        grid_len(max_ar as int, max_ma as int) <= usize::MAX,
    ensures
        grid.len() == grid_len(max_ar as int, max_ma as int),
        forall|i: int|
            0 <= i < grid.len() ==> (#[trigger] grid[i].0 as int, grid[i].1 as int)
                == pair_at(i, max_ma as int),
        forall|i: int|
            0 <= i < grid.len() ==> (#[trigger] grid[i]).0 <= max_ar && grid[i].1 <= max_ma,
        forall|ar: int, ma: int|
            0 <= ar <= max_ar && 0 <= ma <= max_ma ==> {
                &&& 0 <= #[trigger] pair_index(ar, ma, max_ma as int) < grid.len()
                &&& grid[pair_index(ar, ma, max_ma as int)] == (ar as usize, ma as usize)
            },
{
    let mut grid: Vec<(usize, usize)> = Vec::new();
    let mut ar: usize = 0;
    proof {
        let rows = max_ar + 1;
        let width = max_ma + 1;
        assert(rows * width >= rows && rows * width >= width) by (nonlinear_arith)
            requires
                rows >= 1,
                width >= 1,
        ;
    }
    while ar <= max_ar
        invariant
            ar <= max_ar + 1,
            max_ar < usize::MAX,
            max_ma < usize::MAX,
            grid_len(max_ar as int, max_ma as int) <= usize::MAX,
            grid.len() == ar * (max_ma + 1),
            forall|i: int|
                0 <= i < grid.len() ==> (#[trigger] grid[i].0 as int, grid[i].1 as int)
                    == pair_at(i, max_ma as int),
        decreases max_ar + 1 - ar,
    {
        let mut ma: usize = 0;
        while ma <= max_ma
            invariant
                ar <= max_ar,
                ma <= max_ma + 1,
                max_ar < usize::MAX,
                max_ma < usize::MAX,
                grid.len() == ar * (max_ma + 1) + ma,
                forall|i: int|
                    0 <= i < grid.len() ==> (#[trigger] grid[i].0 as int, grid[i].1 as int)
                        == pair_at(i, max_ma as int),
            decreases max_ma + 1 - ma,
        {
            proof {
                lemma_pair_at_index(ar as int, ma as int, max_ma as int);
            }
            grid.push((ar, ma));
            ma += 1;
        }
        proof {
            assert(ar * (max_ma + 1) + (max_ma + 1) == (ar + 1) * (max_ma + 1))
                by (nonlinear_arith);
        }
        ar += 1;
    }
    proof {
        assert forall|i: int| 0 <= i < grid.len() implies (#[trigger] grid[i]).0 <= max_ar
            && grid[i].1 <= max_ma by {
            lemma_pair_in_grid(i, max_ar as int, max_ma as int);
            assert((grid[i].0 as int, grid[i].1 as int) == pair_at(i, max_ma as int));
        }
        assert forall|a: int, m: int| 0 <= a <= max_ar && 0 <= m <= max_ma implies {
            &&& 0 <= #[trigger] pair_index(a, m, max_ma as int) < grid.len()
            &&& grid[pair_index(a, m, max_ma as int)] == (a as usize, m as usize)
        } by {
            let i = pair_index(a, m, max_ma as int);
            lemma_index_in_grid(a, m, max_ar as int, max_ma as int);
            lemma_pair_at_index(a, m, max_ma as int);
            assert((grid[i].0 as int, grid[i].1 as int) == pair_at(i, max_ma as int));
        }
    }
    grid
}

/// The pair that an exhaustive search over the grid selects, given the score
/// of each candidate in the order of the enumeration.
///
/// It is the pair with the lowest score, the one tried first where several
/// are equal, and `(0, 0)` when no candidate has a score. Among pairs of
/// equal score the one with the lower autoregressive order is tried first,
/// and among those the one with the lower moving-average order.
pub fn select_pair(scores: &Vec<Option<i64>>, max_ma: usize) -> (pair: (usize, usize))
    requires
        max_ma < usize::MAX,
    ensures
        none_scored(scores@) ==> pair == (0usize, 0usize),
        !none_scored(scores@) ==> is_first_best(
            scores@,
            pair_index(pair.0 as int, pair.1 as int, max_ma as int),
        ),
        pair.1 <= max_ma,
        !none_scored(scores@) ==> forall|ar: int, ma: int|
            0 <= ar && 0 <= ma <= max_ma && (ar < pair.0 || (ar == pair.0 && ma < pair.1))
                ==> better(
                    scores@[pair_index(pair.0 as int, pair.1 as int, max_ma as int)]->0,
                    scores@[#[trigger] pair_index(ar, ma, max_ma as int)],
                ),
{
    match first_best(scores) {
        Some(i) => {
            let pair = decode_pair(i, max_ma);
            proof {
                assert(scores@[i as int] is Some);
                assert forall|ar: int, ma: int|
                    0 <= ar && 0 <= ma <= max_ma
                        && (ar < pair.0 || (ar == pair.0 && ma < pair.1)) implies better(
                    scores@[i as int]->0,
                    scores@[#[trigger] pair_index(ar, ma, max_ma as int)],
                ) by {
                    lemma_enumeration_order(ar, ma, pair.0 as int, pair.1 as int, max_ma as int);
                    assert(0 <= ar * (max_ma + 1)) by (nonlinear_arith)
                        requires
                            0 <= ar,
                            0 <= max_ma,
                    ;
                }
            }
            pair
        },
        None => (0, 0),
    }
}

} // verus!
