//! Floating-point data, held symbolically as IEEE 754 bit patterns.
//!
//! The core never computes with machine floats: a float value is a `u64`
//! bit pattern. What can be decided exactly on bit patterns — classifying,
//! negating, ordering, truthiness — is verified code here. Rounding
//! arithmetic and reading a decimal literal cannot, so the host supplies
//! them through [`FloatOps`]; the core promises nothing about the bits an
//! implementation returns.

use vstd::prelude::*;

verus! {

/// The operations on float bit patterns that only a host can supply: the
/// evaluator and the virtual machine take an implementation and call it
/// wherever a float is produced by arithmetic or read from its literal
/// text. No contract constrains the results.
pub trait FloatOps {
    /// The bit pattern a decimal float literal denotes.
    fn float_from_text(&self, text: &str) -> u64;

    /// The bit pattern of the sum of two floats.
    fn float_add(&self, a: u64, b: u64) -> u64;

    /// The bit pattern of the difference of two floats.
    fn float_sub(&self, a: u64, b: u64) -> u64;

    /// The bit pattern of the product of two floats.
    fn float_mul(&self, a: u64, b: u64) -> u64;

    /// The bit pattern of the quotient of two floats.
    fn float_div(&self, a: u64, b: u64) -> u64;
}

/// The sign bit of a float bit pattern.
pub open spec fn spec_float_sign(b: u64) -> bool {
    b & 0x8000_0000_0000_0000 != 0
}

/// The magnitude (everything but the sign) of a float bit pattern.
pub open spec fn spec_float_magnitude(b: u64) -> u64 {
    b & 0x7FFF_FFFF_FFFF_FFFF
}

/// Whether a bit pattern encodes a NaN: an all-ones exponent with a
/// nonzero mantissa.
pub open spec fn spec_float_is_nan(b: u64) -> bool {
    b & 0x7FF0_0000_0000_0000 == 0x7FF0_0000_0000_0000 && b & 0x000F_FFFF_FFFF_FFFF != 0
}

/// Whether a bit pattern encodes a zero, of either sign.
pub open spec fn spec_float_is_zero(b: u64) -> bool {
    spec_float_magnitude(b) == 0
}

/// The position of a non-NaN float on the number line, as an ordering key:
/// sign-magnitude read as a signed quantity. Both zeros share the key `0`.
pub open spec fn spec_float_key(b: u64) -> int {
    if spec_float_sign(b) {
        -(spec_float_magnitude(b) as int)
    } else {
        spec_float_magnitude(b) as int
    }
}

/// Exact float equality: false on any NaN, and otherwise agreement of the
/// ordering keys, so the two zeros are equal.
pub open spec fn spec_float_eq(a: u64, b: u64) -> bool {
    !spec_float_is_nan(a) && !spec_float_is_nan(b) && spec_float_key(a) == spec_float_key(b)
}

/// Exact float ordering: false on any NaN, and otherwise the order of the
/// keys.
pub open spec fn spec_float_lt(a: u64, b: u64) -> bool {
    !spec_float_is_nan(a) && !spec_float_is_nan(b) && spec_float_key(a) < spec_float_key(b)
}

/// A float is truthy exactly when it is neither zero; NaN is truthy.
pub open spec fn spec_float_truthy(b: u64) -> bool {
    !spec_float_is_zero(b)
}

/// The bit pattern of a float's negation: the sign bit flipped.
pub fn float_negate(b: u64) -> (r: u64)
    ensures
        r == b ^ 0x8000_0000_0000_0000u64,
{
    b ^ 0x8000_0000_0000_0000
}

/// Whether a bit pattern encodes a NaN.
pub fn float_is_nan(b: u64) -> (r: bool)
    ensures
        r == spec_float_is_nan(b),
{
    b & 0x7FF0_0000_0000_0000 == 0x7FF0_0000_0000_0000 && b & 0x000F_FFFF_FFFF_FFFF != 0
}

/// Whether a float is truthy: nonzero of either sign, NaN included.
pub fn float_truthy(b: u64) -> (r: bool)
    ensures
        r == spec_float_truthy(b),
{
    b & 0x7FFF_FFFF_FFFF_FFFF != 0
}

/// Exact float equality on bit patterns.
pub fn float_eq(a: u64, b: u64) -> (r: bool)
    ensures
        r == spec_float_eq(a, b),
{
    if float_is_nan(a) || float_is_nan(b) {
        false
    } else {
        float_key_lt_or_eq(a, b) && float_key_lt_or_eq(b, a)
    }
}

/// Exact float ordering on bit patterns.
pub fn float_lt(a: u64, b: u64) -> (r: bool)
    ensures
        r == spec_float_lt(a, b),
{
    if float_is_nan(a) || float_is_nan(b) {
        false
    } else {
        float_key_lt_or_eq(a, b) && !float_key_eq(a, b)
    }
}

/// Whether the ordering keys agree.
fn float_key_eq(a: u64, b: u64) -> (r: bool)
    ensures
        r == (spec_float_key(a) == spec_float_key(b)),
{
    let sa = a & 0x8000_0000_0000_0000 != 0;
    let sb = b & 0x8000_0000_0000_0000 != 0;
    let ma = a & 0x7FFF_FFFF_FFFF_FFFF;
    let mb = b & 0x7FFF_FFFF_FFFF_FFFF;
    (ma == 0 && mb == 0) || (sa == sb && ma == mb)
}

/// Whether the first ordering key is at or below the second.
fn float_key_lt_or_eq(a: u64, b: u64) -> (r: bool)
    ensures
        r == (spec_float_key(a) <= spec_float_key(b)),
{
    let sa = a & 0x8000_0000_0000_0000 != 0;
    let sb = b & 0x8000_0000_0000_0000 != 0;
    let ma = a & 0x7FFF_FFFF_FFFF_FFFF;
    let mb = b & 0x7FFF_FFFF_FFFF_FFFF;
    if sa && sb {
        mb <= ma
    } else if sa {
        true
    } else if sb {
        ma == 0 && mb == 0
    } else {
        ma <= mb
    }
}

} // verus!
