//! Choosing among candidate models by an information criterion.
//!
//! An exhaustive search fits every candidate in a fixed order and records one
//! score per candidate: the value of the criterion, reduced to an integer key
//! that orders as the criterion does, or nothing where the fit failed. The
//! candidate with the lowest score wins, and among equal scores the one that
//! was tried first. A candidate without a score never wins.

use vstd::prelude::*;

verus! {

/// Whether the score `winner` is at most the score of `other`, if it has one.
pub open spec fn no_worse(winner: i64, other: Option<i64>) -> bool {
    other matches Some(v) ==> winner <= v
}

/// Whether the score `winner` is below the score of `other`, if it has one.
pub open spec fn better(winner: i64, other: Option<i64>) -> bool {
    other matches Some(v) ==> winner < v
}

/// Whether no candidate has a score.
pub open spec fn none_scored(scores: Seq<Option<i64>>) -> bool {
    forall|j: int| 0 <= j < scores.len() ==> scores[j] is None
}

/// Whether candidate `i` is the winner: it has a score, no candidate has a
/// lower one, and every scored candidate before it has a higher one.
pub open spec fn is_first_best(scores: Seq<Option<i64>>, i: int) -> bool {
    &&& 0 <= i < scores.len()
    &&& scores[i] matches Some(w)
    &&& forall|j: int| 0 <= j < scores.len() ==> no_worse(w, #[trigger] scores[j])
    &&& forall|j: int| 0 <= j < i ==> better(w, #[trigger] scores[j])
}

/// The winner as a plain scan finds it: walk the candidates from the first
/// to the last and keep the one at hand unless the next has a strictly lower
/// score.
pub open spec fn scan_best(scores: Seq<Option<i64>>) -> Option<int>
    decreases scores.len(),
{
    if scores.len() == 0 {
        None
    } else {
        let last = scores.len() - 1;
        match (scan_best(scores.drop_last()), scores[last]) {
            (Some(b), Some(v)) => if better(v, scores[b]) {
                Some(last)
            } else {
                Some(b)
            },
            (Some(b), None) => Some(b),
            (None, Some(_)) => Some(last),
            (None, None) => None,
        }
    }
}

/// The order that a search over the orders 1, 2, 3, .. settles on: one more
/// than the position of the winner, and 0 where no order has a score.
pub open spec fn selected_order(scores: Seq<Option<i64>>) -> int {
    match scan_best(scores) {
        Some(i) => i + 1,
        None => 0,
    }
}

/// The scan finds the winner where there is one, and nothing exactly where
/// no candidate has a score.
pub proof fn lemma_scan_best(scores: Seq<Option<i64>>)
    ensures
        scan_best(scores) matches Some(b) ==> is_first_best(scores, b),
        scan_best(scores) is None ==> none_scored(scores),
    decreases scores.len(),
{
    if scores.len() > 0 {
        let head = scores.drop_last();
        lemma_scan_best(head);
        assert forall|j: int| 0 <= j < head.len() implies head[j] == scores[j] by {}
        match scan_best(head) {
            Some(b) => {
                assert(is_first_best(head, b));
                assert(scores[b] == head[b]);
            },
            None => {
                assert(none_scored(head));
            },
        }
    }
}

/// There is at most one winner.
pub proof fn lemma_first_best_unique(scores: Seq<Option<i64>>, i: int, j: int)
    requires
        is_first_best(scores, i),
        is_first_best(scores, j),
    ensures
        i == j,
{
    if i < j {
        assert(better(scores[j]->0, scores[i]));
        assert(no_worse(scores[i]->0, scores[j]));
    } else if j < i {
        assert(better(scores[i]->0, scores[j]));
        assert(no_worse(scores[j]->0, scores[i]));
    }
}

/// Whatever way a search arrives at the winner, it names the candidate that
/// the plain scan names: the first one with the lowest score.
pub proof fn lemma_first_best_is_scan(scores: Seq<Option<i64>>, i: int)
    requires
        is_first_best(scores, i),
    ensures
        scan_best(scores) == Some(i),
{
    lemma_scan_best(scores);
    match scan_best(scores) {
        Some(b) => {
            lemma_first_best_unique(scores, i, b);
        },
        None => {
            assert(scores[i] is None);
        },
    }
}

/// Finds the winner among the candidates: the position of the lowest score,
/// the first such position where several are equal, and `None` exactly when
/// no candidate has a score.
pub fn first_best(scores: &Vec<Option<i64>>) -> (best: Option<usize>)
    ensures
        best matches Some(i) ==> is_first_best(scores@, i as int),
        best is None ==> none_scored(scores@),
        best matches Some(i) ==> scan_best(scores@) == Some(i as int),
        best is None ==> scan_best(scores@) is None,
{
    let mut best: Option<(usize, i64)> = None;
    let mut k: usize = 0;
    while k < scores.len()
        invariant
            k <= scores.len(),
            best matches Some(p) ==> is_first_best(scores@.take(k as int), p.0 as int)
                && scores[p.0 as int] == Some(p.1),
            best is None ==> none_scored(scores@.take(k as int)),
        decreases scores.len() - k,
    {
        let ghost before = scores@.take(k as int);
        let ghost after = scores@.take(k + 1);
        proof {
            assert forall|j: int| 0 <= j < k implies before[j] == after[j] by {}
        }
        match scores[k] {
            Some(v) => {
                match best {
                    Some(p) => {
                        if v < p.1 {
                            best = Some((k, v));
                        }
                    },
                    None => {
                        best = Some((k, v));
                    },
                }
            },
            None => {},
        }
        k += 1;
    }
    proof {
        assert(scores@.take(k as int) == scores@);
        lemma_scan_best(scores@);
    }
    match best {
        Some(p) => {
            proof {
                lemma_first_best_is_scan(scores@, p.0 as int);
            }
            Some(p.0)
        },
        None => None,
    }
}

/// The order that an exhaustive search over the orders 1, 2, 3, .. selects,
/// given the score of each order in turn (`scores[0]` belongs to order 1).
///
/// It is the order with the lowest score, the lowest such order where
/// several are equal, and 0 when no order has a score.
pub fn select_order(scores: &Vec<Option<i64>>) -> (order: usize)
    ensures
        none_scored(scores@) <==> order == 0,
        order != 0 ==> is_first_best(scores@, order - 1),
        order == selected_order(scores@),
{
    match first_best(scores) {
        Some(i) => {
            assert(is_first_best(scores@, i as int));
            assert(i < scores.len());
            i + 1
        },
        None => 0,
    }
}

} // verus!
