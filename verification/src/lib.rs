//! Verified core of a solver framework that fits the parameters of an
//! electrochemical sensor model to measured currents.
//!
//! Single-precision values cross this crate's boundary as their IEEE 754
//! binary32 bit patterns. Everything here is integer logic: the ordering of
//! those patterns, the bounded list of best candidates, the rules by which
//! the searches keep a candidate and decide to stop, and the conversion of
//! cycle counts to elapsed time.

pub mod ieee;
pub mod losses;
pub mod profiler;
pub mod params;
pub mod best_ordered_list;
pub mod algorithms;
