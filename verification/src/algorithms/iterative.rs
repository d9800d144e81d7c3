//! The loop condition shared by gradient descent and Newton's method.
//!
//! Both improve one concentration step by step, and stop when the steps run
//! out, when the error is within tolerance, or when the gradient has become
//! too small to go on.

use crate::ieee;
use vstd::prelude::*;

verus! {

/// Whether another step follows after `iterations` steps: only while steps
/// are left, the error is strictly above its tolerance, and the absolute
/// value of the gradient is strictly above its own.
pub open spec fn steps_on(
    iterations: nat,
    max_iterations: nat,
    error: u32,
    tolerance: u32,
    gradient: u32,
    gradient_tolerance: u32,
) -> bool {
    iterations < max_iterations && ieee::less(tolerance, error) && ieee::less(
        gradient_tolerance,
        ieee::magnitude(gradient),
    )
}

/// Decides whether another step follows, from the number of steps taken and
/// the bit patterns of the current error and gradient and of their
/// tolerances.
pub fn keep_stepping(
    iterations: usize,
    max_iterations: usize,
    error: u32,
    tolerance: u32,
    gradient: u32,
    gradient_tolerance: u32,
) -> (go: bool)
    ensures
        go == steps_on(
            iterations as nat,
            max_iterations as nat,
            error,
            tolerance,
            gradient,
            gradient_tolerance,
        ),
{
    iterations < max_iterations && ieee::gt(error, tolerance) && ieee::gt(
        ieee::abs(gradient),
        gradient_tolerance,
    )
}

/// Where none of the four values is a NaN, the iteration ends exactly when
/// the steps have run out, or the error is at or below its tolerance, or the
/// absolute value of the gradient is at or below its own.
pub proof fn lemma_stepping_ends(
    iterations: nat,
    max_iterations: nat,
    error: u32,
    tolerance: u32,
    gradient: u32,
    gradient_tolerance: u32,
)
    requires
        !ieee::nan(error),
        !ieee::nan(tolerance),
        !ieee::nan(gradient),
        !ieee::nan(gradient_tolerance),
    ensures
        !steps_on(iterations, max_iterations, error, tolerance, gradient, gradient_tolerance) <==> (
        iterations >= max_iterations || ieee::less_eq(error, tolerance) || ieee::less_eq(
            ieee::magnitude(gradient),
            gradient_tolerance,
        )),
{
}

/// A NaN error or gradient ends the iteration at once: nothing is above a
/// tolerance that cannot be compared with it.
pub proof fn lemma_nan_ends(
    iterations: nat,
    max_iterations: nat,
    error: u32,
    tolerance: u32,
    gradient: u32,
    gradient_tolerance: u32,
)
    requires
        ieee::nan(error) || ieee::nan(gradient),
    ensures
        !steps_on(iterations, max_iterations, error, tolerance, gradient, gradient_tolerance),
{
}

} // verus!
