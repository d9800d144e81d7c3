//! The error metrics a search can be parameterised with.
//!
//! Each metric is a zero-sized marker. A metric reduces the three
//! (measured, predicted) pairs of a model evaluation to a single error from
//! the relative error of each pair, `|a - b| / (|a| + |b|)`. The reduction
//! itself is real arithmetic and is carried out by the embedding code; the
//! markers select it at compile time.

use vstd::prelude::*;

verus! {

/// The error is the largest of the three relative errors.
#[derive(Debug)]
pub struct MaxRelative;

/// The error is the arithmetic mean of the three relative errors.
#[derive(Debug)]
pub struct MeanRelative;

/// The error is the sum of the three relative errors.
#[derive(Debug)]
pub struct SumRelative;

} // verus!
