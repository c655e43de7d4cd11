//! Order and selection on IEEE-754 binary32 values held as bit patterns.
//!
//! A sample travels through the engine as the 32 bits of a binary32 value.
//! Comparing two such values needs no rounding, so it is done here on the
//! bits: the sign bit is the top bit, the remaining 31 bits order the
//! magnitudes, and a magnitude above that of infinity is a NaN.

use vstd::prelude::*;

verus! {

/// Bit pattern of positive zero.
pub const ZERO: u32 = 0;

/// Bit pattern of 1.
pub const ONE: u32 = 0x3F80_0000;

/// Bit pattern of -1.
pub const NEG_ONE: u32 = 0xBF80_0000;

/// Bit pattern of positive infinity, the largest magnitude that is a number.
pub const INFINITY: u32 = 0x7F80_0000;

/// The sign bit.
pub const SIGN: u32 = 0x8000_0000;

/// The low 31 bits of a pattern: the value's magnitude.
pub open spec fn magnitude_of(bits: u32) -> u32 {
    if bits >= SIGN {
        (bits - SIGN) as u32
    } else {
        bits
    }
}

/// Whether the pattern is a NaN.
pub open spec fn nan(bits: u32) -> bool {
    magnitude_of(bits) > INFINITY
}

/// Where a number stands on the line: its magnitude, negated under a set
/// sign bit. Both zeros stand at 0. Meaningful for patterns that are no NaN.
pub open spec fn rank(bits: u32) -> int {
    if bits >= SIGN {
        -(magnitude_of(bits) as int)
    } else {
        bits as int
    }
}

/// `a < b` as binary32 comparison has it: false when either side is a NaN.
pub open spec fn less(a: u32, b: u32) -> bool {
    !nan(a) && !nan(b) && rank(a) < rank(b)
}

/// `a <= b` as binary32 comparison has it: false when either side is a NaN.
pub open spec fn at_most(a: u32, b: u32) -> bool {
    !nan(a) && !nan(b) && rank(a) <= rank(b)
}

/// The magnitude of a pattern.
#[verifier::when_used_as_spec(magnitude_of)]
pub fn magnitude(bits: u32) -> (m: u32)
    ensures
        m == magnitude_of(bits),
        m < SIGN,
{
    if bits >= SIGN {
        bits - SIGN
    } else {
        bits
    }
}

/// Whether the pattern is a NaN.
#[verifier::when_used_as_spec(nan)]
pub fn is_nan(bits: u32) -> (r: bool)
    ensures
        r == nan(bits),
{
    magnitude(bits) > INFINITY
}

/// Tests `a < b`.
#[verifier::when_used_as_spec(less)]
pub fn lt(a: u32, b: u32) -> (r: bool)
    ensures
        r == less(a, b),
{
    if is_nan(a) || is_nan(b) {
        false
    } else if a >= SIGN {
        if b >= SIGN {
            magnitude(a) > magnitude(b)
        } else {
            magnitude(a) > 0 || b > 0
        }
    } else {
        b < SIGN && a < b
    }
}

/// Tests `a <= b`.
#[verifier::when_used_as_spec(at_most)]
pub fn le(a: u32, b: u32) -> (r: bool)
    ensures
        r == at_most(a, b),
{
    if is_nan(a) || is_nan(b) {
        false
    } else {
        !lt(b, a)
    }
}

/// The pattern with its sign bit flipped: the value negated.
pub open spec fn negated(bits: u32) -> u32 {
    if bits >= SIGN {
        (bits - SIGN) as u32
    } else {
        (bits + SIGN) as u32
    }
}

/// Negates a value.
#[verifier::when_used_as_spec(negated)]
pub fn negate(bits: u32) -> (r: u32)
    ensures
        r == negated(bits),
{
    if bits >= SIGN {
        bits - SIGN
    } else {
        bits + SIGN
    }
}

/// The smaller of two values. A NaN gives way to the other side; of two equal
/// values the first is taken.
pub open spec fn lesser(a: u32, b: u32) -> u32 {
    if nan(a) {
        b
    } else if less(b, a) {
        b
    } else {
        a
    }
}

/// The larger of two values. A NaN gives way to the other side; of two equal
/// values the first is taken.
pub open spec fn greater(a: u32, b: u32) -> u32 {
    if nan(a) {
        b
    } else if less(a, b) {
        b
    } else {
        a
    }
}

/// `x` held within `[lo, hi]`. A NaN stays a NaN, and a zero of either sign
/// that already lies within the bounds keeps its sign.
pub open spec fn clamped(x: u32, lo: u32, hi: u32) -> u32 {
    if less(x, lo) {
        lo
    } else if less(hi, x) {
        hi
    } else {
        x
    }
}

/// Returns the smaller of `a` and `b`.
#[verifier::when_used_as_spec(lesser)]
pub fn min(a: u32, b: u32) -> (r: u32)
    ensures
        r == lesser(a, b),
{
    if is_nan(a) {
        b
    } else if lt(b, a) {
        b
    } else {
        a
    }
}

/// Returns the larger of `a` and `b`.
#[verifier::when_used_as_spec(greater)]
pub fn max(a: u32, b: u32) -> (r: u32)
    ensures
        r == greater(a, b),
{
    if is_nan(a) {
        b
    } else if lt(a, b) {
        b
    } else {
        a
    }
}

/// Holds `x` within `[lo, hi]`.
#[verifier::when_used_as_spec(clamped)]
pub fn clamp(x: u32, lo: u32, hi: u32) -> (r: u32)
    requires
        at_most(lo, hi),
    ensures
        r == clamped(x, lo, hi),
        nan(x) ==> r == x,
        !nan(x) ==> at_most(lo, r) && at_most(r, hi),
{
    if lt(x, lo) {
        lo
    } else if lt(hi, x) {
        hi
    } else {
        x
    }
}

} // verus!
