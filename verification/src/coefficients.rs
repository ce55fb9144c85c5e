//! Derivation of the five biquad recurrence coefficients from a filter
//! request.
//!
//! The formulas are the classic second-order bilinear-transform family: for
//! a normalized angular cutoff `omega = pi * f0 / (rate / 2)` and quality
//! factor `q` (the fixed Butterworth value `1/sqrt(2)` for low and high
//! pass, `center / bandwidth` for band and notch), the coefficients are
//! assembled from `sin(omega)`, `cos(omega)` and `alpha = sin(omega)/(2q)`,
//! all in single precision, and normalized by `a0 = 1 + alpha`.
//!
//! The sine is evaluated in double precision by a fixed-length Taylor
//! expansion and rounded back to single precision; the cosine comes from
//! the half-angle identity `cos(x) = 1 - 2 sin^2(x/2)`.  Every step is a
//! composition of the named IEEE-754 operations, so a request derives to
//! exactly one coefficient set: the contract pins the whole computation.

use vstd::prelude::*;
use crate::float_bits::{f32_neg_bits, f32_neg, f64_neg_bits, f64_negate, f32_scaled};
use crate::float_ops::{
    single_add,
    single_sub,
    single_mul,
    single_div,
    single_of_double,
    double_add,
    double_sub,
    double_mul,
    double_div,
    double_of_u64,
    double_of_single,
    f32_add,
    f32_sub,
    f32_mul,
    f32_div,
    f32_of_f64,
    f64_add,
    f64_sub,
    f64_mul,
    f64_div,
    f64_of_u64,
    f64_of_f32,
};
use crate::filter_spec::{FilterFamily, FilterSpecification, SpecError, acceptable_cutoff, check_cutoff};

verus! {

/// Single-precision 1.0.
pub const BITS_ONE: u32 = 0x3f80_0000;

/// Single-precision 2.0.
pub const BITS_TWO: u32 = 0x4000_0000;

/// Single-precision -2.0.
pub const BITS_NEG_TWO: u32 = 0xc000_0000;

/// Single-precision zero.
pub const BITS_ZERO: u32 = 0x0000_0000;

/// The single-precision value nearest to pi.
pub const BITS_PI: u32 = 0x4049_0fdb;

/// The single-precision value nearest to 1/sqrt(2), the Butterworth
/// quality factor.
pub const BITS_Q_BUTTERWORTH: u32 = 0x3f35_04f3;

/// Double-precision 1.0.
pub const BITS64_ONE: u64 = 0x3ff0_0000_0000_0000;

/// Double-precision 2.0.
pub const BITS64_TWO: u64 = 0x4000_0000_0000_0000;

/// Number of Taylor iterations for the double-precision sine; the final
/// term has degree 33, far beyond double precision for arguments up to pi.
pub const SIN_ROUNDS: u64 = 16;

/// One Taylor refinement step: multiplies the previous term by
/// `-x^2 / ((2k)(2k+1))` and adds it to the running sum.
pub open spec fn sin_iter(x2: u64, prev: (u64, u64), k: nat) -> (u64, u64) {
    let t = f64_neg_bits(
        double_div(double_mul(prev.0, x2), double_of_u64(((2 * k) * (2 * k + 1)) as u64)),
    );
    (t, double_add(prev.1, t))
}

/// Term and sum of the sine expansion after `k` refinement steps, starting
/// from the first-degree term `x`.
pub open spec fn sin_state(x: u64, k: nat) -> (u64, u64)
    decreases k,
{
    if k == 0 {
        (x, x)
    } else {
        sin_iter(double_mul(x, x), sin_state(x, (k - 1) as nat), k)
    }
}

/// The double-precision sine approximation computed by this crate.
pub open spec fn sin_approx(x: u64) -> u64 {
    sin_state(x, SIN_ROUNDS as nat).1
}

/// The double-precision cosine approximation: `1 - 2 sin^2(x/2)`.
pub open spec fn cos_approx(x: u64) -> u64 {
    let s = sin_approx(double_div(x, BITS64_TWO));
    double_sub(BITS64_ONE, double_mul(BITS64_TWO, double_mul(s, s)))
}

/// Taylor evaluation of the sine in double precision.
pub fn sin64(x: u64) -> (r: u64)
    ensures
        r == sin_approx(x),
{
    let x2: u64 = f64_mul(x, x);
    let mut term: u64 = x;
    let mut sum: u64 = x;
    let mut k: u64 = 1;
    while k <= SIN_ROUNDS
        invariant
            1 <= k <= SIN_ROUNDS + 1,
            x2 == double_mul(x, x),
            term == sin_state(x, (k - 1) as nat).0,
            sum == sin_state(x, (k - 1) as nat).1,
        decreases SIN_ROUNDS + 1 - k,
    {
        proof {
            vstd::arithmetic::mul::lemma_mul_upper_bound(2 * k as int, 32, 2 * k as int + 1, 33);
        }
        let d: u64 = f64_of_u64(2 * k * (2 * k + 1));
        term = f64_negate(f64_div(f64_mul(term, x2), d));
        sum = f64_add(sum, term);
        proof {
            assert(2 * k * (2 * k + 1) == ((2 * (k as nat)) * (2 * (k as nat) + 1)) as u64);
            assert(sin_state(x, k as nat) == sin_iter(x2, sin_state(x, (k - 1) as nat), k as nat));
        }
        k = k + 1;
    }
    sum
}

/// Cosine in double precision through the half-angle identity.
pub fn cos64(x: u64) -> (r: u64)
    ensures
        r == cos_approx(x),
{
    let s: u64 = sin64(f64_div(x, BITS64_TWO));
    f64_sub(BITS64_ONE, f64_mul(BITS64_TWO, f64_mul(s, s)))
}

/// The five coefficients of the normalized biquad recurrence
/// `y[n] = b0 x[n] + b1 x[n-1] + b2 x[n-2] - a1 y[n-1] - a2 y[n-2]`,
/// as single-precision bit patterns.
#[derive(Clone, Copy, Debug, PartialEq, Eq, Structural)]
pub struct Coefficients {
    pub b0: u32,
    pub b1: u32,
    pub b2: u32,
    pub a1: u32,
    pub a2: u32,
}

/// Single-precision sine of a single-precision angle, through the
/// double-precision expansion.
pub open spec fn spec_sin_f32(omega: u32) -> u32 {
    single_of_double(sin_approx(double_of_single(omega)))
}

/// Single-precision cosine of a single-precision angle.
pub open spec fn spec_cos_f32(omega: u32) -> u32 {
    single_of_double(cos_approx(double_of_single(omega)))
}

/// Normalized angular cutoff: `pi * (f0 / (rate / 2))`.
pub open spec fn spec_omega(f0: u32, rate: u32) -> u32 {
    single_mul(BITS_PI, single_div(f0, single_div(rate, BITS_TWO)))
}

/// Center frequency of a band request: the mean of the two cutoffs.
pub open spec fn spec_center(low: u32, high: u32) -> u32 {
    single_div(single_add(low, high), BITS_TWO)
}

/// Quality factor of a band request: center over bandwidth.
pub open spec fn spec_band_q(low: u32, high: u32) -> u32 {
    single_div(spec_center(low, high), single_sub(high, low))
}

/// `alpha = sin(omega) / (2 q)`.
pub open spec fn spec_alpha(omega_s: u32, q: u32) -> u32 {
    single_div(omega_s, single_mul(BITS_TWO, q))
}

/// The frequency the recurrence is tuned to: the single cutoff for low and
/// high pass, the center frequency for band and notch.
pub open spec fn spec_f0(family: FilterFamily, low: u32, high: u32) -> u32 {
    match family {
        FilterFamily::LowPass | FilterFamily::HighPass => low,
        FilterFamily::BandPass | FilterFamily::Notch => spec_center(low, high),
    }
}

/// The quality factor: Butterworth for low and high pass, center over
/// bandwidth for band and notch.
pub open spec fn spec_q(family: FilterFamily, low: u32, high: u32) -> u32 {
    match family {
        FilterFamily::LowPass | FilterFamily::HighPass => BITS_Q_BUTTERWORTH,
        FilterFamily::BandPass | FilterFamily::Notch => spec_band_q(low, high),
    }
}

/// The full coefficient derivation as a composition of the named IEEE-754
/// operations, family by family.
pub open spec fn derived_coefficients(
    family: FilterFamily,
    low: u32,
    high: u32,
    rate: u32,
) -> Coefficients {
    let omega = spec_omega(spec_f0(family, low, high), rate);
    let omega_s = spec_sin_f32(omega);
    let omega_c = spec_cos_f32(omega);
    let alpha = spec_alpha(omega_s, spec_q(family, low, high));
    let a0 = single_add(BITS_ONE, alpha);
    let a1r = single_mul(BITS_NEG_TWO, omega_c);
    let a2r = single_sub(BITS_ONE, alpha);
    let divq = single_div(BITS_ONE, a0);
    let b0r = match family {
        FilterFamily::LowPass => single_div(single_sub(BITS_ONE, omega_c), BITS_TWO),
        FilterFamily::HighPass => single_div(single_add(BITS_ONE, omega_c), BITS_TWO),
        FilterFamily::BandPass => single_div(omega_s, BITS_TWO),
        FilterFamily::Notch => BITS_ONE,
    };
    let b1r = match family {
        FilterFamily::LowPass => single_sub(BITS_ONE, omega_c),
        FilterFamily::HighPass => f32_neg_bits(single_add(BITS_ONE, omega_c)),
        FilterFamily::BandPass => BITS_ZERO,
        FilterFamily::Notch => single_mul(BITS_NEG_TWO, omega_c),
    };
    let b2r = match family {
        FilterFamily::LowPass => single_div(single_sub(BITS_ONE, omega_c), BITS_TWO),
        FilterFamily::HighPass => single_div(single_add(BITS_ONE, omega_c), BITS_TWO),
        FilterFamily::BandPass => f32_neg_bits(single_div(omega_s, BITS_TWO)),
        FilterFamily::Notch => BITS_ONE,
    };
    Coefficients {
        b0: single_mul(b0r, divq),
        b1: single_mul(b1r, divq),
        b2: single_mul(b2r, divq),
        a1: single_mul(a1r, divq),
        a2: single_mul(a2r, divq),
    }
}

/// What `derive` returns for every request: coefficients exactly when the
/// request satisfies the construction invariant, the matching error
/// otherwise.
pub open spec fn derive_outcome(s: FilterSpecification, r: Result<Coefficients, SpecError>) -> bool {
    match s.family {
        FilterFamily::LowPass | FilterFamily::HighPass => {
            if acceptable_cutoff(s.low_cutoff_hz, s.sample_rate_hz) {
                r == Ok::<Coefficients, SpecError>(
                    derived_coefficients(
                        s.family,
                        s.low_cutoff_hz,
                        s.low_cutoff_hz,
                        s.sample_rate_hz,
                    ),
                )
            } else {
                r == Err::<Coefficients, SpecError>(SpecError::InvalidCutoff)
            }
        },
        FilterFamily::BandPass | FilterFamily::Notch => {
            if !(acceptable_cutoff(s.low_cutoff_hz, s.sample_rate_hz) && acceptable_cutoff(
                s.high_cutoff_hz,
                s.sample_rate_hz,
            )) {
                r == Err::<Coefficients, SpecError>(SpecError::InvalidCutoff)
            } else if !(f32_scaled(s.low_cutoff_hz) < f32_scaled(s.high_cutoff_hz)) {
                r == Err::<Coefficients, SpecError>(SpecError::DegenerateFilter)
            } else {
                r == Ok::<Coefficients, SpecError>(
                    derived_coefficients(
                        s.family,
                        s.low_cutoff_hz,
                        s.high_cutoff_hz,
                        s.sample_rate_hz,
                    ),
                )
            }
        },
    }
}

impl Coefficients {
    /// Validates the request and derives its coefficients.  A cutoff
    /// outside `(0, rate/2)` fails with `InvalidCutoff`; a band or notch
    /// request with its cutoffs out of order fails with
    /// `DegenerateFilter`; every valid request derives to exactly one
    /// coefficient set, the same on every call.
    ///
    /// Validation compares exact values, so a cutoff within one rounding
    /// step below the Nyquist frequency is accepted even where its
    /// normalized form rounds to one.
    pub fn derive(s: &FilterSpecification) -> (r: Result<Coefficients, SpecError>)
        ensures
            derive_outcome(*s, r),
    {
        let low = s.low_cutoff_hz;
        let high = s.high_cutoff_hz;
        let rate = s.sample_rate_hz;
        let band = match s.family {
            FilterFamily::BandPass | FilterFamily::Notch => true,
            _ => false,
        };
        if !band {
            if !check_cutoff(low, rate) {
                return Err(SpecError::InvalidCutoff);
            }
        } else {
            if !check_cutoff(low, rate) || !check_cutoff(high, rate) {
                return Err(SpecError::InvalidCutoff);
            }
            proof {
                crate::float_bits::lemma_bits_bound_of_positive_finite(low);
                crate::float_bits::lemma_bits_bound_of_positive_finite(high);
                crate::float_bits::lemma_bits_order_is_value_order(low, high);
            }
            if !(low < high) {
                return Err(SpecError::DegenerateFilter);
            }
        }
        let f0: u32 = if band {
            f32_div(f32_add(low, high), BITS_TWO)
        } else {
            low
        };
        let q: u32 = if band {
            f32_div(f32_div(f32_add(low, high), BITS_TWO), f32_sub(high, low))
        } else {
            BITS_Q_BUTTERWORTH
        };
        let omega: u32 = f32_mul(BITS_PI, f32_div(f0, f32_div(rate, BITS_TWO)));
        let omega_wide: u64 = f64_of_f32(omega);
        let omega_s: u32 = f32_of_f64(sin64(omega_wide));
        let omega_c: u32 = f32_of_f64(cos64(omega_wide));
        let alpha: u32 = f32_div(omega_s, f32_mul(BITS_TWO, q));
        let a0: u32 = f32_add(BITS_ONE, alpha);
        let a1r: u32 = f32_mul(BITS_NEG_TWO, omega_c);
        let a2r: u32 = f32_sub(BITS_ONE, alpha);
        let divq: u32 = f32_div(BITS_ONE, a0);
        let b0r: u32 = match s.family {
            FilterFamily::LowPass => f32_div(f32_sub(BITS_ONE, omega_c), BITS_TWO),
            FilterFamily::HighPass => f32_div(f32_add(BITS_ONE, omega_c), BITS_TWO),
            FilterFamily::BandPass => f32_div(omega_s, BITS_TWO),
            FilterFamily::Notch => BITS_ONE,
        };
        let b1r: u32 = match s.family {
            FilterFamily::LowPass => f32_sub(BITS_ONE, omega_c),
            FilterFamily::HighPass => f32_neg(f32_add(BITS_ONE, omega_c)),
            FilterFamily::BandPass => BITS_ZERO,
            FilterFamily::Notch => f32_mul(BITS_NEG_TWO, omega_c),
        };
        let b2r: u32 = match s.family {
            FilterFamily::LowPass => f32_div(f32_sub(BITS_ONE, omega_c), BITS_TWO),
            FilterFamily::HighPass => f32_div(f32_add(BITS_ONE, omega_c), BITS_TWO),
            FilterFamily::BandPass => f32_neg(f32_div(omega_s, BITS_TWO)),
            FilterFamily::Notch => BITS_ONE,
        };
        Ok(
            Coefficients {
                b0: f32_mul(b0r, divq),
                b1: f32_mul(b1r, divq),
                b2: f32_mul(b2r, divq),
                a1: f32_mul(a1r, divq),
                a2: f32_mul(a2r, divq),
            },
        )
    }
}

} // verus!
