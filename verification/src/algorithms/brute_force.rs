//! Exhaustive search: of all the points of a grid, swept in a fixed order,
//! the one with the lowest error is kept, and of several equally good ones
//! the first.

use crate::ieee;
use vstd::prelude::*;

verus! {

/// The best solution once `candidate` has been seen after `best`: the
/// candidate replaces the best so far only with a strictly lower error.
pub open spec fn better<S>(best: Option<(S, u32)>, candidate: (S, u32)) -> Option<(S, u32)> {
    match best {
        Some(kept) => if ieee::less(candidate.1, kept.1) {
            Some(candidate)
        } else {
            best
        },
        None => Some(candidate),
    }
}

/// The index of the candidate that a sweep over `candidates` ends up with
/// (0 for an empty sweep).
pub open spec fn best_index<S>(candidates: Seq<(S, u32)>) -> int
    decreases candidates.len(),
{
    if candidates.len() <= 1 {
        0
    } else {
        let earlier = best_index(candidates.drop_last());
        if ieee::less(candidates.last().1, candidates[earlier].1) {
            candidates.len() - 1
        } else {
            earlier
        }
    }
}

/// The result of a sweep over `candidates`: nothing for an empty sweep, else
/// what remains after every candidate was seen in turn.
pub open spec fn best_of<S>(candidates: Seq<(S, u32)>) -> Option<(S, u32)>
    decreases candidates.len(),
{
    if candidates.len() == 0 {
        None
    } else {
        better(best_of(candidates.drop_last()), candidates.last())
    }
}

/// Sees one more candidate of a sweep and returns the best so far.
pub fn keep_best<S>(best: Option<(S, u32)>, candidate: (S, u32)) -> (kept: Option<(S, u32)>)
    ensures
        kept == better(best, candidate),
        kept is Some,
{
    match best {
        Some(held) => {
            if ieee::lt(candidate.1, held.1) {
                Some(candidate)
            } else {
                Some(held)
            }
        },
        None => Some(candidate),
    }
}

/// A sweep finds nothing only if it is empty; otherwise it ends with the
/// candidate at `best_index`.
pub proof fn lemma_best_of_index<S>(candidates: Seq<(S, u32)>)
    ensures
        candidates.len() == 0 ==> best_of(candidates) is None,
        candidates.len() > 0 ==> 0 <= best_index(candidates) < candidates.len() && best_of(
            candidates,
        ) == Some(candidates[best_index(candidates)]),
    decreases candidates.len(),
{
    if candidates.len() > 1 {
        let earlier = candidates.drop_last();
        lemma_best_of_index(earlier);
        assert(earlier[best_index(earlier)] == candidates[best_index(earlier)]);
    } else if candidates.len() == 1 {
        assert(best_of(candidates.drop_last()) is None);
    }
}

/// Where no error is a NaN, the candidate that a sweep ends with has the
/// lowest error of all, and every candidate before it has a strictly higher
/// one: of equally good candidates the first is kept.
pub proof fn lemma_best_is_first_minimum<S>(candidates: Seq<(S, u32)>)
    requires
        candidates.len() > 0,
        forall|i: int| 0 <= i < candidates.len() ==> !ieee::nan(#[trigger] candidates[i].1),
    ensures
        0 <= best_index(candidates) < candidates.len(),
        forall|i: int|
            0 <= i < candidates.len() ==> ieee::less_eq(
                candidates[best_index(candidates)].1,
                #[trigger] candidates[i].1,
            ),
        forall|i: int|
            0 <= i < best_index(candidates) ==> ieee::less(
                candidates[best_index(candidates)].1,
                #[trigger] candidates[i].1,
            ),
    decreases candidates.len(),
{
    if candidates.len() > 1 {
        let earlier = candidates.drop_last();
        assert forall|i: int| 0 <= i < earlier.len() implies !ieee::nan(
            #[trigger] earlier[i].1,
        ) by {
            assert(earlier[i] == candidates[i]);
        }
        lemma_best_is_first_minimum(earlier);
        let k = best_index(earlier);
        assert(earlier[k] == candidates[k]);
        assert forall|i: int| 0 <= i < candidates.len() implies ieee::less_eq(
            candidates[best_index(candidates)].1,
            #[trigger] candidates[i].1,
        ) by {
            if i < earlier.len() {
                assert(earlier[i] == candidates[i]);
                assert(ieee::less_eq(earlier[k].1, earlier[i].1));
            }
        }
        assert forall|i: int| 0 <= i < best_index(candidates) implies ieee::less(
            candidates[best_index(candidates)].1,
            #[trigger] candidates[i].1,
        ) by {
            assert(earlier[i] == candidates[i]);
            assert(ieee::less_eq(earlier[k].1, earlier[i].1));
            if i < k {
                assert(ieee::less(earlier[k].1, earlier[i].1));
            }
        }
    }
}

} // verus!
