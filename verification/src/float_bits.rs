//! Bit-level model of IEEE-754 single-precision values.
//!
//! Samples and filter parameters travel through this crate as `u32` bit
//! patterns of single-precision numbers.  This module gives the exact,
//! fully-specified part of their semantics: classification (NaN, infinity,
//! zero), sign manipulation, and numeric ordering.  A finite pattern with
//! sign `s`, biased exponent `e` and fraction `f` denotes the real number
//! `(-1)^s * m * 2^(e' - 149)` where `m = f` and `e' = 1` for subnormals
//! (`e == 0`), and `m = f + 2^23` and `e' = e` otherwise.  `f32_scaled`
//! returns that value multiplied by `2^149`, which is always an integer, so
//! contracts can speak of numeric comparisons in exact integer arithmetic.

use vstd::prelude::*;
use vstd::arithmetic::power2::*;
use vstd::arithmetic::mul::{
    lemma_mul_strict_inequality,
    lemma_mul_inequality,
    lemma_mul_increases,
    lemma_mul_is_associative,
    lemma_mul_nonnegative,
};

verus! {

/// Sign bit of a single-precision pattern.
pub open spec fn f32_is_neg(a: u32) -> bool {
    a >> 31 == 1
}

/// Biased exponent field (8 bits).
pub open spec fn f32_exp(a: u32) -> u32 {
    (a >> 23) & 0xff
}

/// Fraction field (23 bits).
pub open spec fn f32_frac(a: u32) -> u32 {
    a & 0x7f_ffff
}

/// Magnitude: the pattern with the sign bit cleared.
pub open spec fn f32_mag(a: u32) -> u32 {
    a & 0x7fff_ffff
}

pub open spec fn f32_is_nan(a: u32) -> bool {
    f32_exp(a) == 0xff && f32_frac(a) != 0
}

pub open spec fn f32_is_infinite(a: u32) -> bool {
    f32_exp(a) == 0xff && f32_frac(a) == 0
}

pub open spec fn f32_is_finite(a: u32) -> bool {
    f32_exp(a) != 0xff
}

/// Positive or negative zero.
pub open spec fn f32_is_zero(a: u32) -> bool {
    f32_mag(a) == 0
}

/// The numeric value of a finite pattern, scaled by `2^149` so that it is an
/// integer: `(-1)^s * m * 2^(e'-1)` with `m` and `e'` as in the module
/// description.
pub open spec fn f32_scaled(a: u32) -> int
    recommends
        f32_is_finite(a),
{
    let mag = if f32_exp(a) == 0 {
        f32_frac(a) as int
    } else {
        (f32_frac(a) + 0x80_0000) * pow2((f32_exp(a) - 1) as nat)
    };
    if f32_is_neg(a) {
        -mag
    } else {
        mag
    }
}

/// Numeric `<` on two non-NaN patterns.  For IEEE-754 values of equal sign
/// the order of the magnitudes agrees with the order of the magnitude bits;
/// positive and negative zero are numerically equal.
pub open spec fn f32_num_lt(a: u32, b: u32) -> bool
    recommends
        !f32_is_nan(a),
        !f32_is_nan(b),
{
    if !f32_is_neg(a) && !f32_is_neg(b) {
        f32_mag(a) < f32_mag(b)
    } else if f32_is_neg(a) && f32_is_neg(b) {
        f32_mag(a) > f32_mag(b)
    } else if f32_is_neg(a) {
        !(f32_mag(a) == 0 && f32_mag(b) == 0)
    } else {
        false
    }
}

/// Numeric `==` on two non-NaN patterns: identical bits, or two zeros.
pub open spec fn f32_num_eq(a: u32, b: u32) -> bool
    recommends
        !f32_is_nan(a),
        !f32_is_nan(b),
{
    a == b || (f32_is_zero(a) && f32_is_zero(b))
}

/// The comparison the exec code performs and the scaled value model agree:
/// on non-negative finite patterns, the order of the bits is the order of
/// the denoted numbers.
pub proof fn lemma_bits_order_is_value_order(a: u32, b: u32)
    requires
        a < 0x7f80_0000,
        b < 0x7f80_0000,
    ensures
        a < b <==> f32_scaled(a) < f32_scaled(b),
{
    assert(a == (a >> 23) * 0x80_0000 + (a & 0x7f_ffff) && (a >> 23) < 0xff && (a >> 31) == 0
        && ((a >> 23) & 0xff) == (a >> 23)) by (bit_vector)
        requires
            a < 0x7f80_0000,
    ;
    assert(b == (b >> 23) * 0x80_0000 + (b & 0x7f_ffff) && (b >> 23) < 0xff && (b >> 31) == 0
        && ((b >> 23) & 0xff) == (b >> 23)) by (bit_vector)
        requires
            b < 0x7f80_0000,
    ;
    assert((a & 0x7f_ffff) < 0x80_0000) by (bit_vector);
    assert((b & 0x7f_ffff) < 0x80_0000) by (bit_vector);
    if a < b {
        lemma_scaled_monotonic_nonneg(a, b);
    }
    if b < a {
        lemma_scaled_monotonic_nonneg(b, a);
    }
}

/// Strict monotonicity of `f32_scaled` over non-negative finite patterns.
proof fn lemma_scaled_monotonic_nonneg(a: u32, b: u32)
    requires
        a < b,
        b < 0x7f80_0000,
        f32_exp(a) == a >> 23,
        f32_exp(b) == b >> 23,
        !f32_is_neg(a),
        !f32_is_neg(b),
        a == (a >> 23) * 0x80_0000 + (a & 0x7f_ffff),
        b == (b >> 23) * 0x80_0000 + (b & 0x7f_ffff),
        f32_frac(a) < 0x80_0000,
        f32_frac(b) < 0x80_0000,
    ensures
        f32_scaled(a) < f32_scaled(b),
{
    let ea = f32_exp(a) as int;
    let eb = f32_exp(b) as int;
    let fa = f32_frac(a) as int;
    let fb = f32_frac(b) as int;
    if ea == eb {
        // Same exponent: the fractions decide, linearly.
        assert(fa < fb);
        if ea == 0 {
        } else {
            lemma_pow2_pos((ea - 1) as nat);
            lemma_mul_strict_inequality(fa + 0x80_0000, fb + 0x80_0000, pow2((ea - 1) as nat) as int);
        }
    } else {
        // The exponents decide: the largest magnitude with exponent `ea` is
        // below the smallest magnitude with exponent `eb`.
        assert(ea < eb) by {
            if ea > eb {
                lemma_mul_inequality(eb + 1, ea, 0x80_0000);
            }
        }
        lemma_pow2_pos((eb - 1) as nat);
        if ea == 0 {
            // fa < 2^23 <= 2^23 * 2^(eb-1)
            lemma_mul_increases(pow2((eb - 1) as nat) as int, 0x80_0000);
            assert(f32_scaled(b) >= 0x80_0000 * pow2((eb - 1) as nat)) by {
                lemma_mul_inequality(0x80_0000, fb + 0x80_0000, pow2((eb - 1) as nat) as int);
            }
            assert(f32_scaled(a) == fa);
            assert(fa < 0x80_0000);
            assert(0x80_0000 <= 0x80_0000 * pow2((eb - 1) as nat)) by {
                lemma_mul_increases(pow2((eb - 1) as nat) as int, 0x80_0000);
            }
        } else {
            // (fa + 2^23) * 2^(ea-1) < 2^24 * 2^(ea-1) = 2^23 * 2^ea
            //                        <= 2^23 * 2^(eb-1) <= (fb + 2^23) * 2^(eb-1)
            lemma_pow2_pos((ea - 1) as nat);
            lemma_mul_strict_inequality(fa + 0x80_0000, 0x100_0000, pow2((ea - 1) as nat) as int);
            assert(0x100_0000 * pow2((ea - 1) as nat) == 0x80_0000 * pow2(ea as nat)) by {
                lemma2_to64();
                lemma_pow2_adds(1, (ea - 1) as nat);
                lemma_mul_is_associative(0x80_0000, pow2(1) as int, pow2((ea - 1) as nat) as int);
            }
            assert(pow2(ea as nat) <= pow2((eb - 1) as nat)) by {
                if ea < eb - 1 {
                    lemma_pow2_strictly_increases(ea as nat, (eb - 1) as nat);
                }
            }
            lemma_mul_inequality(pow2(ea as nat) as int, pow2((eb - 1) as nat) as int, 0x80_0000);
            lemma_mul_inequality(0x80_0000, fb + 0x80_0000, pow2((eb - 1) as nat) as int);
        }
    }
}

/// The pattern denoting twice the value of a non-negative pattern whose
/// exponent field is at most 253: a subnormal doubles by shifting its
/// fraction, any other finite value by incrementing its exponent.
pub open spec fn f32_double_bits(a: u32) -> u32 {
    if a < 0x80_0000 {
        a << 1
    } else {
        (a + 0x80_0000) as u32
    }
}

/// Doubling is exact: the scaled value of the doubled pattern is twice the
/// scaled value, and the result is still finite.
pub proof fn lemma_double_exact(a: u32)
    requires
        a < 0x7f00_0000,
    ensures
        f32_scaled(f32_double_bits(a)) == 2 * f32_scaled(a),
        f32_double_bits(a) < 0x7f80_0000,
{
    lemma2_to64();
    if a < 0x80_0000 {
        let d = (a << 1) as u32;
        assert(d == a * 2 && d >> 31 == 0 && a >> 31 == 0 && ((a >> 23) & 0xff) == 0 && (a
            & 0x7f_ffff) == a) by (bit_vector)
            requires
                a < 0x80_0000 && d == (a << 1) as u32,
        ;
        if a < 0x40_0000 {
            assert(((d >> 23) & 0xff) == 0 && (d & 0x7f_ffff) == d) by (bit_vector)
                requires
                    d < 0x80_0000,
            ;
        } else {
            assert(((d >> 23) & 0xff) == 1 && (d & 0x7f_ffff) == (d - 0x80_0000)) by (bit_vector)
                requires
                    0x80_0000 <= d < 0x100_0000,
            ;
            assert(f32_scaled(d) == (d - 0x80_0000 + 0x80_0000) * pow2(0));
        }
    } else {
        let d = (a + 0x80_0000) as u32;
        assert(d >> 31 == 0 && a >> 31 == 0 && ((d >> 23) & 0xff) == ((a >> 23) & 0xff) + 1 && (d
            & 0x7f_ffff) == (a & 0x7f_ffff) && 1 <= ((a >> 23) & 0xff) && ((d >> 23) & 0xff)
            <= 0xfe) by (bit_vector)
            requires
                0x80_0000 <= a < 0x7f00_0000 && d == (a + 0x80_0000) as u32,
        ;
        let e = f32_exp(a) as nat;
        let m = (f32_frac(a) + 0x80_0000) as int;
        assert(pow2(e) == 2 * pow2((e - 1) as nat)) by {
            lemma_pow2_adds(1, (e - 1) as nat);
        }
        assert(m * (2 * pow2((e - 1) as nat)) == 2 * (m * pow2((e - 1) as nat))) by {
            lemma_mul_is_associative(m, 2, pow2((e - 1) as nat) as int);
            lemma_mul_is_associative(2, m, pow2((e - 1) as nat) as int);
        }
    }
}

/// The zero pattern denotes zero.
pub proof fn lemma_scaled_zero()
    ensures
        f32_scaled(0) == 0,
{
    assert(0u32 >> 31 == 0 && ((0u32 >> 23) & 0xff) == 0 && (0u32 & 0x7f_ffff) == 0)
        by (bit_vector);
}

/// A pattern with the sign bit set denotes a non-positive value.
pub proof fn lemma_scaled_nonpos_of_negative(a: u32)
    requires
        a >= 0x8000_0000,
    ensures
        f32_scaled(a) <= 0,
{
    assert(a >> 31 == 1) by (bit_vector)
        requires
            a >= 0x8000_0000,
    ;
    if f32_exp(a) != 0 {
        lemma_pow2_pos((f32_exp(a) - 1) as nat);
        lemma_mul_nonnegative(
            (f32_frac(a) + 0x80_0000) as int,
            pow2((f32_exp(a) - 1) as nat) as int,
        );
    }
}

/// A finite pattern denoting a positive value lies strictly between the
/// zero pattern and the infinity pattern.
pub proof fn lemma_bits_bound_of_positive_finite(a: u32)
    requires
        f32_is_finite(a),
        0 < f32_scaled(a),
    ensures
        0 < a < 0x7f80_0000,
{
    lemma_scaled_zero();
    if a >= 0x8000_0000 {
        lemma_scaled_nonpos_of_negative(a);
    }
    assert(a < 0x8000_0000 && ((a >> 23) & 0xff) != 0xff ==> a < 0x7f80_0000) by (bit_vector);
}

/// Doubling, executable form.
pub fn f32_double(a: u32) -> (r: u32)
    requires
        a < 0x7f00_0000,
    ensures
        r == f32_double_bits(a),
{
    if a < 0x80_0000 {
        a << 1u32
    } else {
        a + 0x80_0000
    }
}

/// Numeric `<` on patterns, `false` when either operand is NaN (the IEEE-754
/// unordered result), exactly as the `<` operator behaves on the values.
pub fn f32_lt(a: u32, b: u32) -> (r: bool)
    ensures
        r == (!f32_is_nan(a) && !f32_is_nan(b) && f32_num_lt(a, b)),
{
    if f32_nan(a) || f32_nan(b) {
        return false;
    }
    let na: bool = a >> 31 == 1;
    let nb: bool = b >> 31 == 1;
    let ma: u32 = a & 0x7fff_ffff;
    let mb: u32 = b & 0x7fff_ffff;
    if !na && !nb {
        ma < mb
    } else if na && nb {
        ma > mb
    } else if na {
        !(ma == 0 && mb == 0)
    } else {
        false
    }
}

/// Numeric `==` on patterns, `false` when either operand is NaN.
pub fn f32_eq(a: u32, b: u32) -> (r: bool)
    ensures
        r == (!f32_is_nan(a) && !f32_is_nan(b) && f32_num_eq(a, b)),
{
    if f32_nan(a) || f32_nan(b) {
        return false;
    }
    a == b || (a & 0x7fff_ffff == 0 && b & 0x7fff_ffff == 0)
}

/// NaN test on a pattern.
pub fn f32_nan(a: u32) -> (r: bool)
    ensures
        r == f32_is_nan(a),
{
    (a >> 23) & 0xff == 0xff && a & 0x7f_ffff != 0
}

/// Negation: IEEE-754 negation flips the sign bit and nothing else.
pub fn f32_neg(a: u32) -> (r: u32)
    ensures
        r == f32_neg_bits(a),
{
    a ^ 0x8000_0000
}

/// The pattern with the sign bit flipped.
pub open spec fn f32_neg_bits(a: u32) -> u32 {
    a ^ 0x8000_0000
}

/// Absolute value: IEEE-754 abs clears the sign bit and nothing else.
pub fn f32_abs(a: u32) -> (r: u32)
    ensures
        r == f32_mag(a),
{
    a & 0x7fff_ffff
}

/// The double-precision pattern with the sign bit flipped.
pub open spec fn f64_neg_bits(a: u64) -> u64 {
    a ^ 0x8000_0000_0000_0000
}

/// Negation of a double-precision pattern: flips the sign bit and nothing
/// else.
pub fn f64_negate(a: u64) -> (r: u64)
    ensures
        r == f64_neg_bits(a),
{
    a ^ 0x8000_0000_0000_0000
}

} // verus!
