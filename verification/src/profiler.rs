//! Cycle counting with a 24-bit countdown timer, and conversion of cycle
//! counts to elapsed time.
//!
//! The timer counts down from its reload value and starts over when it
//! reaches zero; each such rollover is counted elsewhere. Reading the timer
//! is left to the caller. This module says which of two successive readings
//! to trust and what cycle count a reading stands for.
//!
//! For the conversions the clock frequency is a compile-time parameter, in
//! hertz. Results are whole units, rounded down, and saturate at the largest
//! `u32`.

use vstd::prelude::*;

verus! {

/// The value the timer starts over from, also the largest it can hold.
pub const SYSTICK_RELOAD: u32 = 0x00FF_FFFF;

/// The number of cycles between two rollovers.
pub const SYSTICK_RESOLUTION: u64 = 0x0100_0000;

/// The cycles that have passed when the timer, after `rollovers` rollovers,
/// reads `current`.
pub open spec fn counted(rollovers: nat, current: nat) -> int {
    rollovers * 0x0100_0000 + (0x00FF_FFFF - current)
}

/// Tells whether the timer started over between two successive readings, or
/// may have: since it counts down, the second reading is then not below the
/// first. The rollover count read between the two is then in doubt and has to
/// be read again, to go with the second reading.
pub fn rolled_over(first: u32, second: u32) -> (rolled: bool)
    ensures
        rolled == (first <= second),
{
    !(first > second)
}

/// Counts the cycles that have passed when the timer, after `rollover_count`
/// rollovers, reads `current`.
pub fn total_cycles(rollover_count: u32, current: u32) -> (cycles: u64)
    requires
        current <= SYSTICK_RELOAD,
    ensures
        cycles == counted(rollover_count as nat, current as nat),
{
    assert(rollover_count * 0x0100_0000 <= 0xffff_ffff * 0x0100_0000) by (nonlinear_arith)
        requires
            rollover_count <= 0xffff_ffff,
    ;
    (rollover_count as u64) * SYSTICK_RESOLUTION + ((SYSTICK_RELOAD - current) as u64)
}

/// Within one period of the timer the count grows as the timer runs down,
/// and a reading after a later rollover is above every reading before it.
pub proof fn lemma_counted_grows(rollovers: nat, earlier: nat, later: nat, other: nat)
    requires
        later <= earlier <= 0x00FF_FFFF,
        other <= 0x00FF_FFFF,
    ensures
        counted(rollovers, earlier) <= counted(rollovers, later),
        counted(rollovers, earlier) < counted(rollovers + 1, other),
{
    assert((rollovers + 1) * 0x0100_0000 == rollovers * 0x0100_0000 + 0x0100_0000)
        by (nonlinear_arith);
}

/// Whole time units that `cycles` ticks of a `freq` Hz clock last, where one
/// second holds `per_second` units; unbounded.
///
/// A clock of zero hertz never ticks: no cycles take no time, and any cycle
/// takes longer than can be counted.
pub open spec fn elapsed(freq: nat, per_second: nat, cycles: nat) -> nat {
    if freq == 0 {
        if cycles == 0 {
            0
        } else {
            0x1_0000_0000
        }
    } else {
        (cycles * per_second) / freq
    }
}

/// `elapsed`, cut off at the largest `u32`.
pub open spec fn elapsed_saturating(freq: nat, per_second: nat, cycles: nat) -> nat {
    if elapsed(freq, per_second, cycles) > 0xffff_ffff {
        0xffff_ffff
    } else {
        elapsed(freq, per_second, cycles)
    }
}

/// Computes `elapsed_saturating` for a unit of which a second holds
/// `per_second`, at most a million.
fn convert(freq: u32, per_second: u32, cycles: u64) -> (r: u32)
    requires
        per_second <= 1_000_000,
    ensures
        r == elapsed_saturating(freq as nat, per_second as nat, cycles as nat),
{
    if freq == 0 {
        if cycles == 0 {
            0
        } else {
            u32::MAX
        }
    } else {
        assert(cycles * per_second <= 0xffff_ffff_ffff_ffff * 1_000_000) by (nonlinear_arith)
            requires
                cycles <= 0xffff_ffff_ffff_ffff,
                per_second <= 1_000_000,
        ;
        let scaled: u128 = (cycles as u128) * (per_second as u128);
        let units: u128 = scaled / (freq as u128);
        if units > 0xffff_ffff {
            u32::MAX
        } else {
            units as u32
        }
    }
}

/// Converts a number of CPU cycles to milliseconds.
///
/// `FREQ` is the frequency of the CPU in Hz.
pub fn cycles_to_ms<const FREQ: u32>(cycles: u64) -> (ms: u32)
    ensures
        ms == elapsed_saturating(FREQ as nat, 1_000, cycles as nat),
{
    convert(FREQ, 1_000, cycles)
}

/// Converts a number of CPU cycles to microseconds.
///
/// `FREQ` is the frequency of the CPU in Hz.
pub fn cycles_to_us<const FREQ: u32>(cycles: u64) -> (us: u32)
    ensures
        us == elapsed_saturating(FREQ as nat, 1_000_000, cycles as nat),
{
    convert(FREQ, 1_000_000, cycles)
}

/// Elapsed time never decreases as cycles accumulate.
pub proof fn lemma_elapsed_monotonic(freq: nat, per_second: nat, earlier: nat, later: nat)
    requires
        earlier <= later,
    ensures
        elapsed_saturating(freq, per_second, earlier) <= elapsed_saturating(
            freq,
            per_second,
            later,
        ),
{
    if freq != 0 {
        assert(earlier * per_second <= later * per_second) by (nonlinear_arith)
            requires
                earlier <= later,
        ;
        vstd::arithmetic::div_mod::lemma_div_is_ordered(
            (earlier * per_second) as int,
            (later * per_second) as int,
            freq as int,
        );
    }
}

} // verus!
