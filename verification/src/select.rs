//! Choosing among scored candidates: the side to move takes the first
//! candidate that no other beats.

use vstd::prelude::*;
use crate::position::Side;

verus! {

/// Whether the score `a` is strictly better than `b` for `side`: White wants
/// high scores, Black low ones.
pub open spec fn better(side: Side, a: int, b: int) -> bool {
    match side {
        Side::White => a > b,
        Side::Black => a < b,
    }
}

/// Whether `k` is the candidate that `side` takes: no candidate beats it,
/// and it beats every candidate before it.
pub open spec fn is_first_best(side: Side, scores: Seq<int>, k: int) -> bool {
    &&& 0 <= k < scores.len()
    &&& forall|j: int| 0 <= j < scores.len() ==> !better(side, #[trigger] scores[j], scores[k])
    &&& forall|j: int| 0 <= j < k ==> better(side, scores[k], #[trigger] scores[j])
}

/// The index of the candidate that `side` takes among `scores`.
pub open spec fn best_index(side: Side, scores: Seq<int>) -> int {
    choose|k: int| is_first_best(side, scores, k)
}

/// Executable scores as mathematical integers.
pub open spec fn as_ints(scores: Seq<i32>) -> Seq<int> {
    Seq::new(scores.len(), |i: int| scores[i] as int)
}

/// At most one candidate is the first best.
pub proof fn lemma_first_best_unique(side: Side, scores: Seq<int>, a: int, b: int)
    requires
        is_first_best(side, scores, a),
        is_first_best(side, scores, b),
    ensures
        a == b,
{
    if a < b {
        assert(!better(side, scores[b], scores[a]));
    } else if b < a {
        assert(!better(side, scores[a], scores[b]));
    }
}

/// Among one candidate or more, some candidate is the first best.
proof fn lemma_first_best_exists(side: Side, scores: Seq<int>) -> (k: int)
    requires
        scores.len() > 0,
    ensures
        is_first_best(side, scores, k),
    decreases scores.len(),
{
    if scores.len() == 1 {
        0
    } else {
        let front = scores.drop_last();
        let prev = lemma_first_best_exists(side, front);
        assert forall|j: int| 0 <= j < front.len() implies scores[j] == front[j] by {}
        if better(side, scores.last(), scores[prev]) {
            scores.len() - 1
        } else {
            prev
        }
    }
}

/// Among one candidate or more, `best_index` is the first best, and the only
/// one.
pub proof fn lemma_best_index(side: Side, scores: Seq<int>)
    requires
        scores.len() > 0,
    ensures
        is_first_best(side, scores, best_index(side, scores)),
        forall|k: int| is_first_best(side, scores, k) ==> k == best_index(side, scores),
{
    let found = lemma_first_best_exists(side, scores);
    assert forall|k: int| is_first_best(side, scores, k) implies k == best_index(side, scores) by {
        lemma_first_best_unique(side, scores, k, best_index(side, scores));
    }
}

/// Of two candidates with equal scores, the later one is never taken.
pub proof fn lemma_tie_keeps_earlier(side: Side, scores: Seq<int>, i: int, j: int)
    requires
        0 <= i < j < scores.len(),
        scores[i] == scores[j],
    ensures
        best_index(side, scores) != j,
{
    lemma_best_index(side, scores);
}

/// Whether `a` is strictly better than `b` for `side`.
pub fn is_better(side: Side, a: i32, b: i32) -> (r: bool)
    ensures
        r == better(side, a as int, b as int),
{
    match side {
        Side::White => a > b,
        Side::Black => a < b,
    }
}

/// The index of the candidate that `side` takes among `scores`: the running
/// best starts at the first candidate and passes to a later one only where
/// that one is strictly better.
pub fn pick_best(side: Side, scores: &Vec<i32>) -> (k: usize)
    requires
        scores.len() > 0,
    ensures
        k == best_index(side, as_ints(scores@)),
        is_first_best(side, as_ints(scores@), k as int),
{
    let ghost ints = as_ints(scores@);
    let mut best: usize = 0;
    let mut i: usize = 1;
    while i < scores.len()
        invariant
            1 <= i <= scores.len(),
            ints == as_ints(scores@),
            is_first_best(side, ints.take(i as int), best as int),
        decreases scores.len() - i,
    {
        proof {
            assert forall|j: int| 0 <= j < i implies ints.take(i + 1)[j] == ints.take(i as int)[j] by {}
        }
        if is_better(side, scores[i], scores[best]) {
            best = i;
        }
        i += 1;
    }
    proof {
        assert(ints.take(i as int) =~= ints);
        lemma_best_index(side, ints);
    }
    best
}

} // verus!
