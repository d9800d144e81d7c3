//! Adaptive search: each round sweeps the interval from a tenth of a support
//! value to ten times it, and then moves the support towards where the best
//! solutions were found.

use crate::ieee;
use vstd::prelude::*;

verus! {

/// How the support changes after a round.
#[derive(Debug, Clone, Copy, PartialEq, Eq, Structural)]
pub enum Zoom {
    /// The support is doubled.
    Double,
    /// The support is halved.
    Halve,
}

/// The change that follows a round whose best solutions have their mean
/// concentration at `center`, measured from 0 at the start of the interval
/// swept to 1 at its end: doubling only strictly above the midpoint.
pub open spec fn zoom_for(center: u32) -> Zoom {
    if ieee::less(ieee::ONE_HALF, center) {
        Zoom::Double
    } else {
        Zoom::Halve
    }
}

/// Decides how the support changes after a round, from the bit pattern of
/// the normalised position of the best solutions' mean concentration.
pub fn zoom(center: u32) -> (direction: Zoom)
    ensures
        direction == zoom_for(center),
{
    if ieee::gt(center, ieee::ONE_HALF) {
        Zoom::Double
    } else {
        Zoom::Halve
    }
}

} // verus!
