//! IEEE 754 binary32 values carried as their bit patterns.
//!
//! A pattern is a `u32`: one sign bit, eight exponent bits, twenty-three
//! fraction bits. The functions here classify and compare patterns exactly as
//! the standard orders the values they encode, without ever leaving integer
//! arithmetic.

use vstd::prelude::*;

verus! {

/// Bit pattern of positive zero.
pub const ZERO: u32 = 0;

/// Bit pattern of one half.
pub const ONE_HALF: u32 = 0x3f00_0000;

/// Bit pattern of positive infinity.
pub const INFINITY: u32 = 0x7f80_0000;

/// Bit pattern of negative infinity.
pub const NEG_INFINITY: u32 = 0xff80_0000;

/// Weight of the sign bit.
pub const SIGN_BIT: u32 = 0x8000_0000;

/// The pattern with its sign bit cleared: the encoding of the absolute value.
pub open spec fn magnitude(bits: u32) -> u32 {
    if bits >= 0x8000_0000u32 {
        (bits - 0x8000_0000u32) as u32
    } else {
        bits
    }
}

/// Whether the sign bit is set.
pub open spec fn sign(bits: u32) -> bool {
    bits >= 0x8000_0000u32
}

/// Whether the pattern encodes a NaN: all exponent bits set and a nonzero
/// fraction.
pub open spec fn nan(bits: u32) -> bool {
    magnitude(bits) > 0x7f80_0000u32
}

/// Whether the pattern encodes a finite number (neither an infinity nor a
/// NaN).
pub open spec fn finite(bits: u32) -> bool {
    magnitude(bits) < 0x7f80_0000u32
}

/// Position of a pattern on the number line of non-NaN values: the magnitude,
/// negated when the sign bit is set. Both zeros sit at 0, and a larger encoded
/// value has a larger rank.
pub open spec fn rank(bits: u32) -> int {
    if sign(bits) {
        -(magnitude(bits) as int)
    } else {
        magnitude(bits) as int
    }
}

/// The strict order of the encoded values. Nothing compares with a NaN.
pub open spec fn less(a: u32, b: u32) -> bool {
    !nan(a) && !nan(b) && rank(a) < rank(b)
}

/// The non-strict order of the encoded values. Nothing compares with a NaN.
pub open spec fn less_eq(a: u32, b: u32) -> bool {
    !nan(a) && !nan(b) && rank(a) <= rank(b)
}

/// Clears the sign bit.
pub fn abs(bits: u32) -> (r: u32)
    ensures
        r == magnitude(bits),
        !sign(r),
        nan(r) == nan(bits),
        finite(r) == finite(bits),
{
    if bits >= SIGN_BIT {
        bits - SIGN_BIT
    } else {
        bits
    }
}

/// Tells whether the pattern encodes a NaN.
pub fn is_nan(bits: u32) -> (r: bool)
    ensures
        r == nan(bits),
{
    abs(bits) > INFINITY
}

/// Tells whether the pattern encodes a finite number.
pub fn is_finite(bits: u32) -> (r: bool)
    ensures
        r == finite(bits),
{
    abs(bits) < INFINITY
}

/// Places a non-NaN pattern on the number line.
fn position(bits: u32) -> (r: i64)
    ensures
        r == rank(bits),
{
    let m: i64 = abs(bits) as i64;
    if bits >= SIGN_BIT {
        -m
    } else {
        m
    }
}

/// Tells whether the value encoded by `a` is strictly below that of `b`.
pub fn lt(a: u32, b: u32) -> (r: bool)
    ensures
        r == less(a, b),
{
    !is_nan(a) && !is_nan(b) && position(a) < position(b)
}

/// Tells whether the value encoded by `a` is strictly above that of `b`.
pub fn gt(a: u32, b: u32) -> (r: bool)
    ensures
        r == less(b, a),
{
    lt(b, a)
}

/// The order is strict: nothing is below itself, and what is below something
/// that is below a third is below the third.
pub proof fn lemma_less_strict(a: u32, b: u32, c: u32)
    ensures
        !less(a, a),
        less(a, b) ==> !less(b, a),
        less(a, b) && less(b, c) ==> less(a, c),
{
}

/// Of two values that are not NaN, one is below the other unless they are
/// equal as numbers; the two zeros are equal as numbers.
pub proof fn lemma_less_total(a: u32, b: u32)
    requires
        !nan(a),
        !nan(b),
    ensures
        less(a, b) || less(b, a) || rank(a) == rank(b),
        less_eq(a, b) <==> !less(b, a),
        rank(a) == rank(b) <==> (a == b || (magnitude(a) == 0 && magnitude(b) == 0)),
{
}

/// Every finite value lies strictly between the two infinities, and what is
/// neither finite nor a NaN is one of the two.
pub proof fn lemma_finite_bounded(bits: u32)
    ensures
        finite(bits) ==> less(bits, INFINITY) && less(NEG_INFINITY, bits),
        !finite(bits) && !nan(bits) ==> bits == INFINITY || bits == NEG_INFINITY,
{
}

} // verus!
