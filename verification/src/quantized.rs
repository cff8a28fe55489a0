//! Quantized samples: a byte `b` stands for the number `b / 255`.
//!
//! Decoding produces the binary32 number nearest to `b / 255`, computed with
//! integer arithmetic alone. Since 255 is odd, `b / 255` is never halfway
//! between two binary32 numbers, so the nearest one is unique.

use crate::binary32::{
    exponent_field, fraction_field, in_unit_interval, is_finite, lemma_unit_interval_patterns,
    scaled_magnitude, scaled_value, sign_field, POSITIVE_ONE,
};
use vstd::arithmetic::power2::{
    lemma2_to64, lemma_pow2_adds, lemma_pow2_pos, lemma_pow2_strictly_increases, pow2,
};
use vstd::prelude::*;

verus! {

/// How often a byte in `1..128` must be doubled to reach `128..=255`.
pub open spec fn leading_doublings(n: int) -> int
    decreases 256 - n,
{
    if 1 <= n < 128 {
        1 + leading_doublings(2 * n)
    } else {
        0
    }
}

/// The byte doubled until it reaches `128..=255`.
pub open spec fn normalized(n: int) -> int
    decreases 256 - n,
{
    if 1 <= n < 128 {
        normalized(2 * n)
    } else {
        n
    }
}

/// The bit pattern of the quantized sample `b`, that is of `b / 255`.
///
/// For a non-zero byte, `b / 255` equals `normalized(b) / 255` scaled down by
/// `2^leading_doublings(b)`; the former lies in `[1/2, 1]`, which fixes the
/// exponent, and the significand is that quotient in units of `2^-24`, rounded
/// to the nearest integer.
pub open spec fn quantized_unit(b: u8) -> u32 {
    if b == 0 {
        0
    } else {
        let significand = (normalized(b as int) * 0x100_0000 + 127) / 255;
        let exponent = 126 - leading_doublings(b as int);
        (exponent * 0x80_0000 + (significand - 0x80_0000)) as u32
    }
}

/// The distance between the encoded number and the ratio `num / den`,
/// multiplied by `den * 2^149`.
pub open spec fn distance_to_ratio(bits: u32, num: int, den: int) -> int {
    let diff = den * scaled_value(bits) - num * pow2(149);
    if diff >= 0 {
        diff
    } else {
        -diff
    }
}

/// The pattern is the correct rounding of `num / den`: it encodes a finite
/// number, carries no sign, and is strictly nearer to `num / den` than every
/// binary32 number of another value.
pub open spec fn rounds_to(bits: u32, num: int, den: int) -> bool {
    &&& is_finite(bits)
    &&& sign_field(bits) == 0
    &&& forall|other: u32|
        is_finite(other) && scaled_value(other) != scaled_value(bits) ==> distance_to_ratio(
            bits,
            num,
            den,
        ) < #[trigger] distance_to_ratio(other, num, den)
}

/// Decodes a quantized sample: the bit pattern of the binary32 number nearest
/// to `b / 255`.
pub fn unit_from_byte(b: u8) -> (bits: u32)
    ensures
        bits == quantized_unit(b),
        rounds_to(bits, b as int, 255),
{
    proof {
        lemma_quantized_unit_rounds(b);
    }
    if b == 0 {
        return 0;
    }
    let mut n: u32 = b as u32;
    let mut exponent: u32 = 126;
    while n < 128
        invariant
            1 <= n <= 255,
            exponent <= 126,
            n >= 2 * (126 - exponent),
            normalized(b as int) == normalized(n as int),
            126 - leading_doublings(b as int) == exponent - leading_doublings(n as int),
        decreases 256 - n,
    {
        n = n * 2;
        exponent = exponent - 1;
    }
    let significand: u32 = (n * 0x100_0000 + 127) / 255;
    exponent * 0x80_0000 + (significand - 0x80_0000)
}

/// Doubling a byte `leading_doublings` times brings it into `128..=255`, and
/// that takes at most seven doublings.
pub proof fn lemma_normalized_bounds(n: int)
    requires
        1 <= n <= 255,
    ensures
        128 <= normalized(n) <= 255,
        0 <= leading_doublings(n) <= 7,
        normalized(n) == n * pow2(leading_doublings(n) as nat),
    decreases 256 - n,
{
    lemma2_to64();
    if n < 128 {
        lemma_normalized_bounds(2 * n);
        let d = leading_doublings(2 * n);
        lemma_pow2_adds(1, d as nat);
        assert(pow2((1 + d) as nat) == 2 * pow2(d as nat));
        assert((2 * n) * pow2(d as nat) == n * (2 * pow2(d as nat))) by (nonlinear_arith);
        assert(leading_doublings(n) == 1 + d);
        assert(normalized(n) == n * pow2((1 + d) as nat));
        if d >= 7 {
            if d > 7 {
                lemma_pow2_strictly_increases(7, d as nat);
            }
            assert((2 * n) * pow2(d as nat) >= 256) by (nonlinear_arith)
                requires
                    n >= 1,
                    pow2(d as nat) >= 128,
            ;
        }
    } else {
        assert(n * pow2(0) == n) by (nonlinear_arith)
            requires
                pow2(0) == 1,
        ;
    }
}

/// Every quantized sample is a canonical sample, at most `+1.0`.
pub proof fn lemma_quantized_unit_canonical(b: u8)
    ensures
        quantized_unit(b) <= POSITIVE_ONE,
        in_unit_interval(quantized_unit(b)),
        b == 0 ==> quantized_unit(b) == 0,
        b == 255 ==> quantized_unit(b) == POSITIVE_ONE,
{
    if b != 0 {
        lemma_normalized_bounds(b as int);
    }
    lemma_unit_interval_patterns(quantized_unit(b));
}

/// The fields of the pattern with exponent field `e` and fraction `f`.
proof fn lemma_fields(e: int, f: int)
    requires
        0 <= e < 0x100,
        0 <= f < 0x80_0000,
    ensures
        sign_field((e * 0x80_0000 + f) as u32) == 0,
        exponent_field((e * 0x80_0000 + f) as u32) == e,
        fraction_field((e * 0x80_0000 + f) as u32) == f,
{
}

/// Where a finite magnitude stands relative to the binade with exponent field
/// `e`: below its lower end, or on its grid of multiples of `2^(e - 1)`.
proof fn lemma_grid(other: u32, e: int) -> (k: int)
    requires
        is_finite(other),
        1 <= e <= 254,
    ensures
        0 <= scaled_magnitude(other),
        exponent_field(other) < e ==> scaled_magnitude(other) < 0x80_0000 * pow2((e - 1) as nat),
        exponent_field(other) >= e ==> scaled_magnitude(other) == k * pow2((e - 1) as nat),
{
    let eo = exponent_field(other);
    let m = 0x80_0000 + fraction_field(other);
    let unit = pow2((e - 1) as nat);
    lemma2_to64();
    lemma_pow2_pos((e - 1) as nat);
    if eo == 0 {
        assert(0x80_0000 * unit >= 0x80_0000) by (nonlinear_arith)
            requires
                unit >= 1,
        ;
        0
    } else if eo < e {
        let p = pow2((eo - 1) as nat);
        let q = pow2((e - 2) as nat);
        lemma_pow2_pos((eo - 1) as nat);
        if eo - 1 < e - 2 {
            lemma_pow2_strictly_increases((eo - 1) as nat, (e - 2) as nat);
        }
        lemma_pow2_adds(1, (e - 2) as nat);
        assert(unit == 2 * q);
        assert(0 <= m * p < 0x80_0000 * (2 * q)) by (nonlinear_arith)
            requires
                0 < m < 0x100_0000,
                0 < p <= q,
        ;
        0
    } else {
        let p = pow2((eo - e) as nat);
        lemma_pow2_adds((eo - e) as nat, (e - 1) as nat);
        lemma_pow2_pos((eo - 1) as nat);
        assert(pow2((eo - 1) as nat) == p * unit);
        assert(m * (p * unit) == (m * p) * unit) by (nonlinear_arith);
        assert(0 <= m * pow2((eo - 1) as nat)) by (nonlinear_arith)
            requires
                m > 0,
                pow2((eo - 1) as nat) > 0,
        ;
        m * p
    }
}

/// Decoding rounds correctly: the pattern of a quantized sample `b` encodes
/// the binary32 number nearest to `b / 255`, and no other binary32 number is
/// as near.
pub proof fn lemma_quantized_unit_rounds(b: u8)
    ensures
        rounds_to(quantized_unit(b), b as int, 255),
{
    let r = quantized_unit(b);
    lemma_quantized_unit_canonical(b);
    lemma2_to64();
    if b == 0 {
        assert(scaled_value(r) == 0);
        assert(b * pow2(149) == 0) by (nonlinear_arith)
            requires
                b == 0,
        ;
    } else {
        lemma_normalized_bounds(b as int);
        let s = leading_doublings(b as int);
        let n = normalized(b as int);
        let big = n * 0x100_0000;
        let sig = (big + 127) / 255;
        let e = 126 - s;
        let d = 255 * sig - big;
        let unit = pow2((e - 1) as nat);
        lemma_pow2_pos((e - 1) as nat);
        assert(-127 <= d <= 127);
        assert(0x80_0000 < sig <= 0x100_0000);
        // the value of the result is `sig * unit`
        assert(scaled_value(r) == sig * unit) by {
            if sig == 0x100_0000 {
                lemma_fields(e + 1, 0);
                lemma_pow2_adds(1, (e - 1) as nat);
                assert(0x80_0000 * (2 * unit) == 0x100_0000 * unit) by (nonlinear_arith);
            } else {
                lemma_fields(e, sig - 0x80_0000);
            }
        }
        // the ratio, on the same scale, is `big * unit / 255`
        assert(b * pow2(149) == big * unit) by {
            lemma_pow2_adds(s as nat, (149 - s) as nat);
            lemma_pow2_adds(24, (e - 1) as nat);
            assert(b * (pow2(s as nat) * (0x100_0000 * unit)) == ((b * pow2(s as nat))
                * 0x100_0000) * unit) by (nonlinear_arith);
        }
        assert(255 * (sig * unit) - big * unit == d * unit) by (nonlinear_arith)
            requires
                d == 255 * sig - big,
        ;
        assert(-127 * unit <= d * unit <= 127 * unit) by (nonlinear_arith)
            requires
                -127 <= d <= 127,
                unit > 0,
        ;
        assert forall|other: u32|
            is_finite(other) && scaled_value(other) != scaled_value(r) implies distance_to_ratio(
            r,
            b as int,
            255,
        ) < #[trigger] distance_to_ratio(other, b as int, 255) by {
            let k = lemma_grid(other, e);
            let v = scaled_value(other);
            if sign_field(other) != 0 || exponent_field(other) < e {
                // below the binade of the ratio, which starts at `2^23 * unit`
                assert(v < 0x80_0000 * unit) by (nonlinear_arith)
                    requires
                        unit > 0,
                        v <= 0 || v < 0x80_0000 * unit,
                ;
                assert(255 * v - big * unit < -128 * unit) by (nonlinear_arith)
                    requires
                        v < 0x80_0000 * unit,
                        big >= 0x8000_0000,
                        unit > 0,
                ;
            } else {
                // on the grid of the binade, at another point than `sig`
                assert(v == k * unit);
                assert(k != sig);
                assert(255 * (k * unit) - big * unit == (255 * k - big) * unit) by (nonlinear_arith);
                if k > sig {
                    assert((255 * k - big) * unit >= 128 * unit) by (nonlinear_arith)
                        requires
                            255 * k - big >= 128,
                            unit > 0,
                    ;
                } else {
                    assert((255 * k - big) * unit <= -128 * unit) by (nonlinear_arith)
                        requires
                            255 * k - big <= -128,
                            unit > 0,
                    ;
                }
            }
        }
    }
}

/// Two finite patterns without sign that encode the same number are the same
/// pattern.
proof fn lemma_value_determines_pattern(x: u32, y: u32)
    requires
        is_finite(x),
        is_finite(y),
        sign_field(x) == 0,
        sign_field(y) == 0,
        scaled_value(x) == scaled_value(y),
        exponent_field(x) <= exponent_field(y),
    ensures
        x == y,
{
    let ex = exponent_field(x);
    let ey = exponent_field(y);
    let mx = 0x80_0000 + fraction_field(x);
    let my = 0x80_0000 + fraction_field(y);
    lemma2_to64();
    if ey > 0 {
        let py = pow2((ey - 1) as nat);
        lemma_pow2_pos((ey - 1) as nat);
        if ex == 0 {
            assert(my * py >= 0x80_0000) by (nonlinear_arith)
                requires
                    my >= 0x80_0000,
                    py >= 1,
            ;
        } else {
            let px = pow2((ex - 1) as nat);
            lemma_pow2_pos((ex - 1) as nat);
            if ex < ey {
                lemma_pow2_adds(1, (ex - 1) as nat);
                if ex < ey - 1 {
                    lemma_pow2_strictly_increases(ex as nat, (ey - 1) as nat);
                }
                assert(my * py > mx * px) by (nonlinear_arith)
                    requires
                        my >= 0x80_0000,
                        0 < mx < 0x100_0000,
                        py >= 2 * px,
                        px > 0,
                ;
            } else {
                assert(mx == my) by (nonlinear_arith)
                    requires
                        mx * px == my * px,
                        px > 0,
                ;
            }
        }
    }
}

/// At most one pattern is the correct rounding of a ratio.
pub proof fn lemma_rounding_is_unique(x: u32, y: u32, num: int, den: int)
    requires
        rounds_to(x, num, den),
        rounds_to(y, num, den),
    ensures
        x == y,
{
    if scaled_value(x) != scaled_value(y) {
        assert(distance_to_ratio(x, num, den) < distance_to_ratio(y, num, den));
        assert(distance_to_ratio(y, num, den) < distance_to_ratio(x, num, den));
    }
    if exponent_field(x) <= exponent_field(y) {
        lemma_value_determines_pattern(x, y);
    } else {
        lemma_value_determines_pattern(y, x);
    }
}

} // verus!
