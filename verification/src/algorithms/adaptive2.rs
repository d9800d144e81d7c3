//! Adaptive search with a shrinking window: rounds go on until the error at
//! the mean of the best solutions is within tolerance, or the rounds run out.

use crate::ieee;
use vstd::prelude::*;

verus! {

/// Whether another round follows after `iteration` rounds: only while rounds
/// are left and the error is strictly above the tolerance.
pub open spec fn refines(iteration: nat, max_iterations: nat, error: u32, tolerance: u32) -> bool {
    iteration < max_iterations && ieee::less(tolerance, error)
}

/// Decides whether another round follows. `error` is the bit pattern of the
/// error at the mean of the last round, infinite before the first.
pub fn keep_refining(iteration: usize, max_iterations: usize, error: u32, tolerance: u32) -> (go: bool)
    ensures
        go == refines(iteration as nat, max_iterations as nat, error, tolerance),
{
    iteration < max_iterations && ieee::gt(error, tolerance)
}

/// Where neither the error nor the tolerance is a NaN, the search ends
/// exactly when the rounds have run out or the error is at or below the
/// tolerance.
pub proof fn lemma_refining_ends(iteration: nat, max_iterations: nat, error: u32, tolerance: u32)
    requires
        !ieee::nan(error),
        !ieee::nan(tolerance),
    ensures
        !refines(iteration, max_iterations, error, tolerance) <==> (iteration >= max_iterations
            || ieee::less_eq(error, tolerance)),
{
}

/// With a tolerance that is a number, the first round always runs if any
/// round is allowed: before it the error is infinite.
pub proof fn lemma_first_round(max_iterations: nat, tolerance: u32)
    requires
        max_iterations > 0,
        ieee::finite(tolerance),
    ensures
        refines(0, max_iterations, ieee::INFINITY, tolerance),
{
}

} // verus!
