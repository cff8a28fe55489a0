//! IEEE-754 binary32 values, handled through their bit patterns.
//!
//! A sample is a `u32` holding the encoding of a single-precision number: one sign
//! bit, eight exponent bits, twenty-three fraction bits. The mathematical value of
//! a finite pattern is `scaled_value(bits) / 2^149`, an exact rational, and all
//! comparisons in this crate are stated over that integer numerator.

use vstd::arithmetic::power2::{
    lemma2_to64, lemma_pow2_adds, lemma_pow2_pos, lemma_pow2_strictly_increases, pow2,
};
use vstd::prelude::*;

verus! {

/// Bit pattern of `+1.0`.
pub const POSITIVE_ONE: u32 = 0x3F80_0000;

/// Bit pattern of `-0.0`.
pub const NEGATIVE_ZERO: u32 = 0x8000_0000;

/// Bit pattern of `+infinity`; larger magnitudes are NaNs.
pub const POSITIVE_INFINITY: u32 = 0x7F80_0000;

/// The sign bit: 0 for non-negative encodings, 1 for negative ones.
pub open spec fn sign_field(bits: u32) -> int {
    bits as int / 0x8000_0000
}

/// The biased exponent, in `0..=255`.
pub open spec fn exponent_field(bits: u32) -> int {
    (bits as int / 0x80_0000) % 0x100
}

/// The fraction (trailing significand), in `0..2^23`.
pub open spec fn fraction_field(bits: u32) -> int {
    bits as int % 0x80_0000
}

/// Neither an infinity nor a NaN.
pub open spec fn is_finite(bits: u32) -> bool {
    exponent_field(bits) != 0xFF
}

/// An infinity: all exponent bits set and a zero fraction.
pub open spec fn is_infinite(bits: u32) -> bool {
    exponent_field(bits) == 0xFF && fraction_field(bits) == 0
}

/// A NaN: all exponent bits set and a non-zero fraction.
pub open spec fn is_nan(bits: u32) -> bool {
    exponent_field(bits) == 0xFF && fraction_field(bits) != 0
}

/// The magnitude of the encoded number, multiplied by `2^149`.
///
/// Subnormals (exponent field 0) are `fraction * 2^-149`; normals are
/// `(2^23 + fraction) * 2^(exponent - 150)`. An infinity receives the
/// magnitude `2^128`, which exceeds every finite one.
pub open spec fn scaled_magnitude(bits: u32) -> int {
    let e = exponent_field(bits);
    let f = fraction_field(bits);
    if e == 0 {
        f
    } else {
        (0x80_0000 + f) * pow2((e - 1) as nat)
    }
}

/// The encoded number multiplied by `2^149`. Both zeros give 0.
pub open spec fn scaled_value(bits: u32) -> int {
    if sign_field(bits) == 0 {
        scaled_magnitude(bits)
    } else {
        -scaled_magnitude(bits)
    }
}

/// The number one on the same scale: `1.0 * 2^149`.
pub open spec fn scaled_one() -> int {
    pow2(149) as int
}

/// The comparison `value < 0.0`, false for every NaN.
pub open spec fn below_zero(bits: u32) -> bool {
    !is_nan(bits) && scaled_value(bits) < 0
}

/// The comparison `value > 1.0`, false for every NaN.
pub open spec fn above_one(bits: u32) -> bool {
    !is_nan(bits) && scaled_value(bits) > scaled_one()
}

/// A canonical sample: finite and within the closed interval `[0.0, 1.0]`.
pub open spec fn in_unit_interval(bits: u32) -> bool {
    is_finite(bits) && 0 <= scaled_value(bits) <= scaled_one()
}

/// Where the magnitude of a pattern with the given fields stands relative to one.
proof fn lemma_magnitude_against_one(bits: u32)
    ensures
        scaled_magnitude(bits) >= 0,
        scaled_magnitude(bits) == 0 <==> bits as int % 0x8000_0000 == 0,
        scaled_magnitude(bits) <= scaled_one() <==> bits as int % 0x8000_0000 <= 0x3F80_0000,
{
    let e = exponent_field(bits);
    let f = fraction_field(bits);
    let m = 0x80_0000 + f;
    lemma2_to64();
    if e == 0 {
        lemma_pow2_strictly_increases(23, 149);
    } else {
        let p = pow2((e - 1) as nat);
        lemma_pow2_pos((e - 1) as nat);
        assert(m * p >= m) by (nonlinear_arith)
            requires
                m > 0,
                p >= 1,
        ;
        if e <= 126 {
            lemma_pow2_adds(24, 125);
            if e < 126 {
                lemma_pow2_strictly_increases((e - 1) as nat, 125);
            }
            assert(m * p < 0x100_0000 * pow2(125)) by (nonlinear_arith)
                requires
                    0 < m < 0x100_0000,
                    0 < p <= pow2(125),
            ;
        } else if e == 127 {
            lemma_pow2_adds(23, 126);
            assert(m * p == 0x80_0000 * p + f * p) by (nonlinear_arith)
                requires
                    m == 0x80_0000 + f,
            ;
            assert(f > 0 ==> f * p > 0) by (nonlinear_arith)
                requires
                    p > 0,
            ;
        } else {
            lemma_pow2_adds(23, 127);
            lemma_pow2_strictly_increases(149, 150);
            if e > 128 {
                lemma_pow2_strictly_increases(127, (e - 1) as nat);
            }
            assert(m * p >= 0x80_0000 * pow2(127)) by (nonlinear_arith)
                requires
                    m >= 0x80_0000,
                    p >= pow2(127) > 0,
            ;
        }
    }
}

/// Tells whether the pattern encodes a finite number.
pub fn finite(bits: u32) -> (r: bool)
    ensures
        r == is_finite(bits),
{
    bits % 0x8000_0000 < POSITIVE_INFINITY
}

/// Tells whether the encoded number compares less than zero.
pub fn less_than_zero(bits: u32) -> (r: bool)
    ensures
        r == below_zero(bits),
{
    proof {
        lemma_magnitude_against_one(bits);
    }
    NEGATIVE_ZERO < bits && bits <= 0xFF80_0000
}

/// Tells whether the encoded number compares greater than one.
pub fn greater_than_one(bits: u32) -> (r: bool)
    ensures
        r == above_one(bits),
{
    proof {
        lemma_magnitude_against_one(bits);
    }
    POSITIVE_ONE < bits && bits <= POSITIVE_INFINITY
}

/// Tells whether a sample cannot stand in a canonical image: it is not finite,
/// or it lies outside `[0.0, 1.0]`.
pub fn outside_range_f32(value: &u32) -> (r: bool)
    ensures
        r == !in_unit_interval(*value),
{
    let bits: u32 = *value;
    !finite(bits) || less_than_zero(bits) || greater_than_one(bits)
}

/// A pattern fails to be a canonical sample exactly when it is a NaN, an
/// infinity, a number below zero or a number above one.
pub proof fn lemma_outside_unit_interval_cases(bits: u32)
    ensures
        !in_unit_interval(bits) <==> (is_nan(bits) || is_infinite(bits) || below_zero(bits)
            || above_one(bits)),
{
    lemma_magnitude_against_one(bits);
}

/// A pattern is a canonical sample exactly when it is at most `+1.0` as an
/// unsigned integer, or is the negative zero.
pub proof fn lemma_unit_interval_patterns(bits: u32)
    ensures
        in_unit_interval(bits) <==> (bits <= POSITIVE_ONE || bits == NEGATIVE_ZERO),
{
    lemma_magnitude_against_one(bits);
}

} // verus!
