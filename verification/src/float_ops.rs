//! Trusted arithmetic on IEEE-754 bit patterns.
//!
//! Every arithmetic operation on single-precision (`u32`) or
//! double-precision (`u64`) bit patterns goes through `rustc_apfloat`, a
//! pure-integer, host-independent IEEE-754 implementation.  Each operation
//! is a function of its operand bits alone, so each wrapper names its result
//! with an uninterpreted spec function: the contracts of this crate then pin
//! every output as a deterministic function of the inputs.

use vstd::prelude::*;
use rustc_apfloat::Float;
use rustc_apfloat::FloatConvert;

verus! {

pub uninterp spec fn single_add(a: u32, b: u32) -> u32;

pub uninterp spec fn single_sub(a: u32, b: u32) -> u32;

pub uninterp spec fn single_mul(a: u32, b: u32) -> u32;

pub uninterp spec fn single_div(a: u32, b: u32) -> u32;

pub uninterp spec fn single_round_half_away(a: u32) -> u32;

pub uninterp spec fn single_floor(a: u32) -> u32;

pub uninterp spec fn single_of_i32(i: i32) -> u32;

pub uninterp spec fn single_of_i128(i: i128) -> u32;

pub uninterp spec fn single_of_usize(n: usize) -> u32;

pub uninterp spec fn usize_of_single(a: u32) -> usize;

pub uninterp spec fn double_add(a: u64, b: u64) -> u64;

pub uninterp spec fn double_sub(a: u64, b: u64) -> u64;

pub uninterp spec fn double_mul(a: u64, b: u64) -> u64;

pub uninterp spec fn double_div(a: u64, b: u64) -> u64;

pub uninterp spec fn double_of_u64(n: u64) -> u64;

pub uninterp spec fn double_of_single(a: u32) -> u64;

pub uninterp spec fn single_of_double(a: u64) -> u32;

/// Relies on `rustc_apfloat::ieee::Single::add_r`: IEEE-754 single-precision
/// addition, round to nearest ties to even.
#[verifier::external_body]
pub fn f32_add(a: u32, b: u32) -> (r: u32)
    ensures
        r == single_add(a, b),
{
    let x = rustc_apfloat::ieee::Single::from_bits(a as u128);
    let y = rustc_apfloat::ieee::Single::from_bits(b as u128);
    x.add_r(y, rustc_apfloat::Round::NearestTiesToEven).value.to_bits() as u32
}

/// Relies on `rustc_apfloat::ieee::Single::sub_r`: IEEE-754 single-precision
/// subtraction, round to nearest ties to even.
#[verifier::external_body]
pub fn f32_sub(a: u32, b: u32) -> (r: u32)
    ensures
        r == single_sub(a, b),
{
    let x = rustc_apfloat::ieee::Single::from_bits(a as u128);
    let y = rustc_apfloat::ieee::Single::from_bits(b as u128);
    x.sub_r(y, rustc_apfloat::Round::NearestTiesToEven).value.to_bits() as u32
}

/// Relies on `rustc_apfloat::ieee::Single::mul_r`: IEEE-754 single-precision
/// multiplication, round to nearest ties to even.
#[verifier::external_body]
pub fn f32_mul(a: u32, b: u32) -> (r: u32)
    ensures
        r == single_mul(a, b),
{
    let x = rustc_apfloat::ieee::Single::from_bits(a as u128);
    let y = rustc_apfloat::ieee::Single::from_bits(b as u128);
    x.mul_r(y, rustc_apfloat::Round::NearestTiesToEven).value.to_bits() as u32
}

/// Relies on `rustc_apfloat::ieee::Single::div_r`: IEEE-754 single-precision
/// division, round to nearest ties to even.
#[verifier::external_body]
pub fn f32_div(a: u32, b: u32) -> (r: u32)
    ensures
        r == single_div(a, b),
{
    let x = rustc_apfloat::ieee::Single::from_bits(a as u128);
    let y = rustc_apfloat::ieee::Single::from_bits(b as u128);
    x.div_r(y, rustc_apfloat::Round::NearestTiesToEven).value.to_bits() as u32
}

/// Relies on `rustc_apfloat::ieee::Single::round_to_integral` with rounding
/// to the nearest integer, ties away from zero.
#[verifier::external_body]
pub fn f32_round_half_away(a: u32) -> (r: u32)
    ensures
        r == single_round_half_away(a),
{
    let x = rustc_apfloat::ieee::Single::from_bits(a as u128);
    x.round_to_integral(rustc_apfloat::Round::NearestTiesToAway).value.to_bits() as u32
}

/// Relies on `rustc_apfloat::ieee::Single::round_to_integral` with rounding
/// toward negative infinity.
#[verifier::external_body]
pub fn f32_floor(a: u32) -> (r: u32)
    ensures
        r == single_floor(a),
{
    let x = rustc_apfloat::ieee::Single::from_bits(a as u128);
    x.round_to_integral(rustc_apfloat::Round::TowardNegative).value.to_bits() as u32
}

/// Relies on `rustc_apfloat::ieee::Single::from_i128_r`: conversion of a
/// signed integer to the nearest single-precision value.  Integers of
/// magnitude up to `2^24` are exactly representable, so for them the
/// widening is lossless: the scaled value of the result is the integer
/// times `2^149`.
#[verifier::external_body]
pub fn f32_of_i32(i: i32) -> (r: u32)
    ensures
        r == single_of_i32(i),
        -0x100_0000 <= i <= 0x100_0000 ==> crate::float_bits::f32_is_finite(r)
            && crate::float_bits::f32_scaled(r) == i * vstd::arithmetic::power2::pow2(149),
{
    rustc_apfloat::ieee::Single::from_i128_r(i as i128, rustc_apfloat::Round::NearestTiesToEven)
        .value
        .to_bits() as u32
}

/// Relies on `rustc_apfloat::ieee::Single::from_i128_r`: conversion of a
/// wide signed integer to the nearest single-precision value.
#[verifier::external_body]
pub fn f32_of_i128(i: i128) -> (r: u32)
    ensures
        r == single_of_i128(i),
{
    rustc_apfloat::ieee::Single::from_i128_r(i, rustc_apfloat::Round::NearestTiesToEven)
        .value
        .to_bits() as u32
}

/// Relies on `rustc_apfloat::ieee::Single::from_u128_r`: conversion of an
/// unsigned integer to the nearest single-precision value.
#[verifier::external_body]
pub fn f32_of_usize(n: usize) -> (r: u32)
    ensures
        r == single_of_usize(n),
{
    rustc_apfloat::ieee::Single::from_u128_r(n as u128, rustc_apfloat::Round::NearestTiesToEven)
        .value
        .to_bits() as u32
}

/// Relies on `rustc_apfloat::ieee::Single::to_u128_r` rounding toward zero:
/// the saturating float-to-unsigned cast (NaN goes to zero, negative values
/// to zero, values above the range to the largest integer).
#[verifier::external_body]
pub fn f32_to_usize(a: u32) -> (r: usize)
    ensures
        r == usize_of_single(a),
{
    let x = rustc_apfloat::ieee::Single::from_bits(a as u128);
    let mut exact = false;
    let wide = x.to_u128_r(64, rustc_apfloat::Round::TowardZero, &mut exact).value;
    if wide > usize::MAX as u128 { usize::MAX } else { wide as usize }
}

/// Relies on `rustc_apfloat::ieee::Double::add_r`: IEEE-754 double-precision
/// addition, round to nearest ties to even.
#[verifier::external_body]
pub fn f64_add(a: u64, b: u64) -> (r: u64)
    ensures
        r == double_add(a, b),
{
    let x = rustc_apfloat::ieee::Double::from_bits(a as u128);
    let y = rustc_apfloat::ieee::Double::from_bits(b as u128);
    x.add_r(y, rustc_apfloat::Round::NearestTiesToEven).value.to_bits() as u64
}

/// Relies on `rustc_apfloat::ieee::Double::sub_r`: IEEE-754 double-precision
/// subtraction, round to nearest ties to even.
#[verifier::external_body]
pub fn f64_sub(a: u64, b: u64) -> (r: u64)
    ensures
        r == double_sub(a, b),
{
    let x = rustc_apfloat::ieee::Double::from_bits(a as u128);
    let y = rustc_apfloat::ieee::Double::from_bits(b as u128);
    x.sub_r(y, rustc_apfloat::Round::NearestTiesToEven).value.to_bits() as u64
}

/// Relies on `rustc_apfloat::ieee::Double::mul_r`: IEEE-754 double-precision
/// multiplication, round to nearest ties to even.
#[verifier::external_body]
pub fn f64_mul(a: u64, b: u64) -> (r: u64)
    ensures
        r == double_mul(a, b),
{
    let x = rustc_apfloat::ieee::Double::from_bits(a as u128);
    let y = rustc_apfloat::ieee::Double::from_bits(b as u128);
    x.mul_r(y, rustc_apfloat::Round::NearestTiesToEven).value.to_bits() as u64
}

/// Relies on `rustc_apfloat::ieee::Double::div_r`: IEEE-754 double-precision
/// division, round to nearest ties to even.
#[verifier::external_body]
pub fn f64_div(a: u64, b: u64) -> (r: u64)
    ensures
        r == double_div(a, b),
{
    let x = rustc_apfloat::ieee::Double::from_bits(a as u128);
    let y = rustc_apfloat::ieee::Double::from_bits(b as u128);
    x.div_r(y, rustc_apfloat::Round::NearestTiesToEven).value.to_bits() as u64
}

/// Relies on `rustc_apfloat::ieee::Double::from_u128_r`: conversion of an
/// unsigned integer to the nearest double-precision value.
#[verifier::external_body]
pub fn f64_of_u64(n: u64) -> (r: u64)
    ensures
        r == double_of_u64(n),
{
    rustc_apfloat::ieee::Double::from_u128_r(n as u128, rustc_apfloat::Round::NearestTiesToEven)
        .value
        .to_bits() as u64
}

/// Relies on `rustc_apfloat::FloatConvert` from `Single` to `Double`: the
/// exact widening of a single-precision value.
#[verifier::external_body]
pub fn f64_of_f32(a: u32) -> (r: u64)
    ensures
        r == double_of_single(a),
{
    let x = rustc_apfloat::ieee::Single::from_bits(a as u128);
    let mut loses_info = false;
    let wide: rustc_apfloat::StatusAnd<rustc_apfloat::ieee::Double> = x.convert(&mut loses_info);
    wide.value.to_bits() as u64
}

/// Relies on `rustc_apfloat::FloatConvert` from `Double` to `Single`: the
/// correctly rounded narrowing of a double-precision value.
#[verifier::external_body]
pub fn f32_of_f64(a: u64) -> (r: u32)
    ensures
        r == single_of_double(a),
{
    let x = rustc_apfloat::ieee::Double::from_bits(a as u128);
    let mut loses_info = false;
    let narrow: rustc_apfloat::StatusAnd<rustc_apfloat::ieee::Single> = x.convert(&mut loses_info);
    narrow.value.to_bits() as u32
}

} // verus!
