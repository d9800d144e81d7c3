//! A fixed-capacity list of the best solutions found so far, ordered by
//! error.
//!
//! The list always holds exactly `N` slots. A slot pairs a solution with the
//! bit pattern of its error; slots that no solution has reached yet hold a
//! zero solution with an infinite error. Errors ascend from the first slot to
//! the last, and no slot ever holds a NaN error.

use crate::ieee;
use crate::params::Variables;
use vstd::prelude::*;

verus! {

/// Errors ascend along the slots. In particular none of them is a NaN.
pub open spec fn ascending<S>(slots: Seq<(S, u32)>) -> bool {
    forall|i: int, j: int|
        0 <= i <= j < slots.len() ==> ieee::less_eq(#[trigger] slots[i].1, #[trigger] slots[j].1)
}

/// The number of leading slots whose error is not above `error`: the place
/// where a solution with that error goes, behind every slot that is as good.
pub open spec fn landing<S>(slots: Seq<(S, u32)>, error: u32) -> nat
    decreases slots.len(),
{
    if slots.len() == 0 || ieee::less(error, slots[0].1) {
        0
    } else {
        1 + landing(slots.drop_first(), error)
    }
}

/// The slots after `solution` was offered. A solution whose error is not
/// strictly below the last slot's changes nothing. Otherwise the last slot is
/// dropped and the solution is put where its error belongs.
pub open spec fn offered<S>(slots: Seq<(S, u32)>, solution: (S, u32)) -> Seq<(S, u32)> {
    if slots.len() > 0 && ieee::less(solution.1, slots.last().1) {
        slots.drop_last().insert(landing(slots.drop_last(), solution.1) as int, solution)
    } else {
        slots
    }
}

/// `count` slots that each hold `solution` with an infinite error.
pub open spec fn vacant<S>(count: nat, solution: S) -> Seq<(S, u32)> {
    Seq::new(count, |i: int| (solution, ieee::INFINITY))
}

/// In an ascending list, `at` is the landing place of `error` as soon as no
/// slot before it is above `error` and the slot at it, if any, is.
pub proof fn lemma_landing<S>(slots: Seq<(S, u32)>, error: u32, at: int)
    requires
        0 <= at <= slots.len(),
        forall|j: int| 0 <= j < at ==> !ieee::less(error, #[trigger] slots[j].1),
        at < slots.len() ==> ieee::less(error, slots[at].1),
    ensures
        landing(slots, error) == at,
    decreases at,
{
    if at > 0 {
        let rest = slots.drop_first();
        assert(!ieee::less(error, slots[0].1));
        assert forall|j: int| 0 <= j < at - 1 implies !ieee::less(error, #[trigger] rest[j].1) by {
            assert(rest[j] == slots[j + 1]);
        }
        if at - 1 < rest.len() {
            assert(rest[at - 1] == slots[at]);
        }
        lemma_landing(rest, error, at - 1);
    }
}

/// Offering a solution keeps the number of slots, and keeps the errors
/// ascending.
pub proof fn lemma_offered_ascending<S>(slots: Seq<(S, u32)>, solution: (S, u32))
    requires
        ascending(slots),
    ensures
        offered(slots, solution).len() == slots.len(),
        ascending(offered(slots, solution)),
{
    if slots.len() > 0 && ieee::less(solution.1, slots.last().1) {
        let kept = slots.drop_last();
        let at = landing(kept, solution.1) as int;
        lemma_landing_splits(kept, solution.1);
        let after = kept.insert(at, solution);
        assert forall|i: int, j: int| 0 <= i <= j < after.len() implies ieee::less_eq(
            #[trigger] after[i].1,
            #[trigger] after[j].1,
        ) by {
            let a = if i < at { i } else { i - 1 };
            let b = if j < at { j } else { j - 1 };
            if i != at && j != at {
                assert(after[i] == kept[a] && after[j] == kept[b]);
                assert(ieee::less_eq(slots[a].1, slots[b].1));
            } else if i == at && j != at {
                assert(after[j] == kept[b]);
                assert(ieee::less(solution.1, kept[b].1));
            } else if i != at && j == at {
                assert(after[i] == kept[a]);
                assert(!ieee::less(solution.1, kept[a].1));
                assert(ieee::less_eq(slots[a].1, slots[a].1));
            }
        }
    }
}

/// The landing place splits the slots: none before it is above `error`, and
/// in an ascending list every slot from it on is.
pub proof fn lemma_landing_splits<S>(slots: Seq<(S, u32)>, error: u32)
    requires
        ascending(slots),
        !ieee::nan(error),
    ensures
        landing(slots, error) <= slots.len(),
        forall|j: int| 0 <= j < landing(slots, error) ==> !ieee::less(error, #[trigger] slots[j].1),
        forall|j: int|
            landing(slots, error) <= j < slots.len() ==> ieee::less(error, #[trigger] slots[j].1),
    decreases slots.len(),
{
    if slots.len() == 0 {
    } else if ieee::less(error, slots[0].1) {
        assert forall|j: int| 0 <= j < slots.len() implies ieee::less(
            error,
            #[trigger] slots[j].1,
        ) by {
            assert(ieee::less_eq(slots[0].1, slots[j].1));
        }
    } else {
        let rest = slots.drop_first();
        assert forall|i: int, j: int| 0 <= i <= j < rest.len() implies ieee::less_eq(
            #[trigger] rest[i].1,
            #[trigger] rest[j].1,
        ) by {
            assert(ieee::less_eq(slots[i + 1].1, slots[j + 1].1));
        }
        lemma_landing_splits(rest, error);
        assert forall|j: int| 0 <= j < landing(slots, error) implies !ieee::less(
            error,
            #[trigger] slots[j].1,
        ) by {
            if j > 0 {
                assert(slots[j] == rest[j - 1]);
            }
        }
        assert forall|j: int| landing(slots, error) <= j < slots.len() implies ieee::less(
            error,
            #[trigger] slots[j].1,
        ) by {
            assert(slots[j] == rest[j - 1]);
        }
    }
}

/// A list that nothing has reached is ascending.
pub proof fn lemma_vacant_ascending<S>(count: nat, solution: S)
    ensures
        vacant(count, solution).len() == count,
        ascending(vacant(count, solution)),
{
}

/// The `N` best solutions seen, best first.
pub struct BestOrderedList<S, const N: usize> {
    data: [(S, u32); N],
}

impl<S, const N: usize> View for BestOrderedList<S, N> {
    type V = Seq<(S, u32)>;

    closed spec fn view(&self) -> Seq<(S, u32)> {
        self.data@
    }
}

impl<S, const N: usize> BestOrderedList<S, N> {
    #[verifier::type_invariant]
    spec fn well_ordered(self) -> bool {
        ascending(self.data@)
    }
}

impl<S: Copy, const N: usize> BestOrderedList<S, N> {
    /// A list of which every slot holds `solution` with an infinite error.
    fn filled(solution: S) -> (list: Self)
        ensures
            list@ == vacant(N as nat, solution),
    {
        let data: [(S, u32); N] = [(solution, ieee::INFINITY);N];
        assert(data@ =~= vacant(N as nat, solution));
        BestOrderedList { data }
    }

    /// The number of slots, which is always `N`. The errors of every list
    /// ascend.
    pub fn len(&self) -> (n: usize)
        ensures
            n == N,
            n == self@.len(),
            ascending(self@),
    {
        proof {
            use_type_invariant(self);
        }
        N
    }

    /// Offers a solution to the list. It is taken only if its error is
    /// strictly below that of the last slot, the worst one kept; it then takes
    /// its place behind every kept solution that is as good, and the worst
    /// one leaves.
    pub fn add_solution(&mut self, solution: (S, u32))
        requires
            N >= 1,
        ensures
            final(self)@ == offered(old(self)@, solution),
            final(self)@.len() == N,
            ascending(final(self)@),
    {
        proof {
            use_type_invariant(&*self);
            lemma_offered_ascending(self@, solution);
        }
        if ieee::lt(solution.1, self.data[N - 1].1) {
            let ghost before = self.data@;
            let ghost kept = before.drop_last();
            let mut data = self.data;
            let mut i: usize = N - 1;
            while i > 0 && ieee::lt(solution.1, data[i - 1].1)
                invariant
                    i <= N - 1,
                    before.len() == N,
                    kept == before.drop_last(),
                    ascending(before),
                    forall|j: int| 0 <= j < i ==> data@[j] == before[j],
                    forall|j: int| i < j <= N - 1 ==> data@[j] == before[j - 1],
                    forall|j: int| i <= j < N - 1 ==> ieee::less(solution.1, #[trigger] kept[j].1),
                decreases i,
            {
                data[i] = data[i - 1];
                i -= 1;
            }
            data[i] = solution;
            proof {
                assert forall|j: int| 0 <= j < i implies !ieee::less(
                    solution.1,
                    #[trigger] kept[j].1,
                ) by {
                    assert(ieee::less_eq(before[j].1, before[i - 1].1));
                }
                lemma_landing(kept, solution.1, i as int);
                assert(data@ =~= kept.insert(i as int, solution));
            }
            self.data = data;
        }
    }

    /// The slots that hold a solution: those with a finite error. They lie
    /// together, from `bounds.0` up to but without `bounds.1`, and they are
    /// what the list's averages are taken over. Before them lie the slots
    /// with a negative infinite error, behind them those with a positive
    /// infinite one.
    pub fn finite_bounds(&self) -> (bounds: (usize, usize))
        ensures
            bounds.0 <= bounds.1 <= N,
            forall|i: int| 0 <= i < bounds.0 ==> (#[trigger] self@[i]).1 == ieee::NEG_INFINITY,
            forall|i: int| bounds.0 <= i < bounds.1 ==> ieee::finite((#[trigger] self@[i]).1),
            forall|i: int| bounds.1 <= i < N ==> (#[trigger] self@[i]).1 == ieee::INFINITY,
    {
        proof {
            use_type_invariant(self);
        }
        let mut low: usize = 0;
        while low < N && !ieee::is_finite(self.data[low].1) && ieee::lt(
            self.data[low].1,
            ieee::ZERO,
        )
            invariant
                low <= N,
                ascending(self.data@),
                forall|i: int| 0 <= i < low ==> (#[trigger] self.data@[i]).1 == ieee::NEG_INFINITY,
            decreases N - low,
        {
            low += 1;
        }
        let mut high: usize = low;
        while high < N && ieee::is_finite(self.data[high].1)
            invariant
                low <= high <= N,
                ascending(self.data@),
                forall|i: int| 0 <= i < low ==> (#[trigger] self.data@[i]).1 == ieee::NEG_INFINITY,
                low < N ==> ieee::finite(self.data@[low as int].1) || !ieee::less(
                    self.data@[low as int].1,
                    ieee::ZERO,
                ),
                forall|i: int| low <= i < high ==> ieee::finite((#[trigger] self.data@[i]).1),
            decreases N - high,
        {
            high += 1;
        }
        proof {
            assert forall|i: int| high <= i < N implies (#[trigger] self.data@[i]).1
                == ieee::INFINITY by {
                assert(ieee::less_eq(self.data@[high as int].1, self.data@[i].1));
                assert(ieee::less_eq(self.data@[low as int].1, self.data@[high as int].1));
            }
        }
        (low, high)
    }

    /// The slot at `index`: a solution and its error.
    pub fn get(&self, index: usize) -> (slot: (S, u32))
        requires
            index < N,
        ensures
            slot == self@[index as int],
    {
        self.data[index]
    }
}

impl<const N: usize> BestOrderedList<u32, N> {
    /// A list of which no slot holds a solution yet: every slot pairs a zero
    /// concentration with an infinite error.
    pub fn new() -> (list: Self)
        ensures
            list@ == vacant(N as nat, ieee::ZERO),
            ascending(list@),
    {
        proof {
            lemma_vacant_ascending(N as nat, ieee::ZERO);
        }
        Self::filled(ieee::ZERO)
    }

    /// Empties the list: every slot again pairs a zero concentration with an
    /// infinite error.
    pub fn clear(&mut self)
        ensures
            final(self)@ == vacant(N as nat, ieee::ZERO),
            ascending(final(self)@),
    {
        *self = Self::new();
    }
}

impl<const N: usize> Default for BestOrderedList<u32, N> {
    fn default() -> (list: Self)
        ensures
            list@ == vacant(N as nat, ieee::ZERO),
    {
        Self::new()
    }
}

/// The solution of a slot that nothing has reached: all three variables
/// zero.
pub open spec fn origin() -> Variables {
    Variables { concentration: ieee::ZERO, resistance: ieee::ZERO, saturation: ieee::ZERO }
}

impl<const N: usize> BestOrderedList<Variables, N> {
    /// A list of which no slot holds a solution yet: every slot pairs
    /// variables that are all zero with an infinite error.
    pub fn new() -> (list: Self)
        ensures
            list@ == vacant(N as nat, origin()),
            ascending(list@),
    {
        proof {
            lemma_vacant_ascending(N as nat, origin());
        }
        Self::filled(
            Variables { concentration: ieee::ZERO, resistance: ieee::ZERO, saturation: ieee::ZERO },
        )
    }

    /// Empties the list: every slot again pairs variables that are all zero
    /// with an infinite error.
    pub fn clear(&mut self)
        ensures
            final(self)@ == vacant(N as nat, origin()),
            ascending(final(self)@),
    {
        *self = Self::new();
    }
}

impl<const N: usize> Default for BestOrderedList<Variables, N> {
    fn default() -> (list: Self)
        ensures
            list@ == vacant(N as nat, origin()),
    {
        Self::new()
    }
}

} // verus!
