//! The decisions of the search algorithms.
//!
//! Each algorithm evaluates the model at candidate points and decides, from
//! the errors it gets back, what to keep and whether to go on. The
//! evaluations are real arithmetic and happen outside this crate; the
//! decisions are made here, on the bit patterns of the values involved.

pub mod adaptive;
pub mod adaptive2;
pub mod brute_force;
pub mod iterative;
