//! The arithmetic that rounds.
//!
//! Order and selection on samples are decided on their bits. Sums, products
//! and the like round their results, and the engine leaves them to the
//! caller: every function that needs them takes an implementation of
//! [`SampleMath`]. What is proved of such a function holds whatever the
//! implementation returns.
//!
//! A contract speaks of the arithmetic through the predicates of this
//! module: [`is_sum`]`(math, a, b, r)` says that `r` is a value that `math`
//! gives for `a + b`, and so on for each operation. A formula is then a
//! chain of them, one for each operation the formula holds.

use vstd::prelude::*;

verus! {

/// Rounding arithmetic on binary32 values held as bit patterns. An
/// implementation computes in binary32 and hands back the bits of the result.
pub trait SampleMath {
    /// `a + b`.
    fn sum(&self, a: u32, b: u32) -> u32;

    /// `a - b`.
    fn difference(&self, a: u32, b: u32) -> u32;

    /// `a * b`.
    fn product(&self, a: u32, b: u32) -> u32;

    /// `a / b`.
    fn quotient(&self, a: u32, b: u32) -> u32;

    /// The remainder of `a / b`, with the sign of `a`.
    fn remainder(&self, a: u32, b: u32) -> u32;

    /// `x` rounded to the nearest integer, halves away from zero.
    fn round(&self, x: u32) -> u32;

    /// The hyperbolic tangent of `x`.
    fn tanh(&self, x: u32) -> u32;

    /// The natural logarithm of `x`.
    fn ln(&self, x: u32) -> u32;

    /// `base` raised to the power `exponent`.
    fn powf(&self, base: u32, exponent: u32) -> u32;

    /// The value nearest to the count `n`.
    fn from_count(&self, n: usize) -> u32;

    /// The whole part of `x` as an index: zero for a NaN or a negative
    /// value, the largest index for a value beyond it.
    fn to_index(&self, x: u32) -> usize;
}

/// Whether `r` is a value that `math` gives for `a + b`.
pub open spec fn is_sum<M: SampleMath>(math: &M, a: u32, b: u32, r: u32) -> bool {
    call_ensures(M::sum, (math, a, b), r)
}

/// Whether `r` is a value that `math` gives for `a - b`.
pub open spec fn is_difference<M: SampleMath>(math: &M, a: u32, b: u32, r: u32) -> bool {
    call_ensures(M::difference, (math, a, b), r)
}

/// Whether `r` is a value that `math` gives for `a * b`.
pub open spec fn is_product<M: SampleMath>(math: &M, a: u32, b: u32, r: u32) -> bool {
    call_ensures(M::product, (math, a, b), r)
}

/// Whether `r` is a value that `math` gives for `a / b`.
pub open spec fn is_quotient<M: SampleMath>(math: &M, a: u32, b: u32, r: u32) -> bool {
    call_ensures(M::quotient, (math, a, b), r)
}

/// Whether `r` is a value that `math` gives for the remainder of `a / b`.
pub open spec fn is_remainder<M: SampleMath>(math: &M, a: u32, b: u32, r: u32) -> bool {
    call_ensures(M::remainder, (math, a, b), r)
}

/// Whether `r` is a value that `math` gives for `x` rounded to the nearest
/// integer.
pub open spec fn is_round<M: SampleMath>(math: &M, x: u32, r: u32) -> bool {
    call_ensures(M::round, (math, x), r)
}

/// Whether `r` is a value that `math` gives for the hyperbolic tangent of
/// `x`.
pub open spec fn is_tanh<M: SampleMath>(math: &M, x: u32, r: u32) -> bool {
    call_ensures(M::tanh, (math, x), r)
}

/// Whether `r` is a value that `math` gives for the natural logarithm of
/// `x`.
pub open spec fn is_ln<M: SampleMath>(math: &M, x: u32, r: u32) -> bool {
    call_ensures(M::ln, (math, x), r)
}

/// Whether `r` is a value that `math` gives for `base` raised to the power
/// `exponent`.
pub open spec fn is_powf<M: SampleMath>(math: &M, base: u32, exponent: u32, r: u32) -> bool {
    call_ensures(M::powf, (math, base, exponent), r)
}

/// Whether `r` is a value that `math` gives for the count `n`.
pub open spec fn is_count<M: SampleMath>(math: &M, n: usize, r: u32) -> bool {
    call_ensures(M::from_count, (math, n), r)
}

/// Whether `n` is an index that `math` gives for the whole part of `x`.
pub open spec fn is_index<M: SampleMath>(math: &M, x: u32, n: usize) -> bool {
    call_ensures(M::to_index, (math, x), n)
}

} // verus!
