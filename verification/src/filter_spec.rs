//! Filter requests and their validation.
//!
//! A `FilterSpecification` names a filter family, a sample rate and one or
//! two cutoff frequencies, all as single-precision bit patterns.  The
//! invariant, checked at construction, is the one every derivation relies
//! on: each cutoff denotes a finite value strictly between zero and half
//! the sample rate (the Nyquist frequency), and a band or notch request
//! keeps its two cutoffs in strict order.  Violations surface here as
//! errors, never as a failure inside the sample recurrence.

use vstd::prelude::*;
use crate::float_bits::{
    f32_double,
    f32_exp,
    f32_frac,
    f32_is_finite,
    f32_scaled,
    lemma_bits_order_is_value_order,
    lemma_double_exact,
    lemma_scaled_nonpos_of_negative,
    lemma_scaled_zero,
};

verus! {

/// The four filter families of the toolkit.
#[derive(Clone, Copy, Debug, PartialEq, Eq, Structural)]
pub enum FilterFamily {
    LowPass,
    HighPass,
    BandPass,
    Notch,
}

/// Errors surfaced when a filter request or a series is rejected.
#[derive(Clone, Copy, Debug, PartialEq, Eq, Structural)]
pub enum SpecError {
    /// A cutoff is not strictly between zero and the Nyquist frequency.
    InvalidCutoff,
    /// A filter was asked to process a series with no samples.
    EmptyInput,
    /// A band or notch request whose low cutoff does not lie strictly
    /// below its high cutoff.
    DegenerateFilter,
}

/// A cutoff is acceptable for a sample rate when both are finite and, in
/// exact arithmetic, `0 < cutoff` and `2 * cutoff < rate`.
pub open spec fn acceptable_cutoff(cutoff: u32, rate: u32) -> bool {
    &&& f32_is_finite(cutoff)
    &&& f32_is_finite(rate)
    &&& 0 < f32_scaled(cutoff)
    &&& 2 * f32_scaled(cutoff) < f32_scaled(rate)
}

/// Decides `acceptable_cutoff` exactly, by integer comparison of the bit
/// patterns.
pub fn check_cutoff(cutoff: u32, rate: u32) -> (r: bool)
    ensures
        r == acceptable_cutoff(cutoff, rate),
{
    proof {
        lemma_scaled_zero();
    }
    if cutoff >= 0x7f80_0000 || rate >= 0x7f80_0000 {
        // Infinite or NaN operand, or a set sign bit: either finiteness or
        // positivity fails.
        proof {
            if cutoff >= 0x8000_0000 {
                lemma_scaled_nonpos_of_negative(cutoff);
            } else {
                assert(cutoff >= 0x7f80_0000 && cutoff < 0x8000_0000 ==> ((cutoff >> 23) & 0xff)
                    == 0xff) by (bit_vector);
            }
            if rate >= 0x8000_0000 {
                lemma_scaled_nonpos_of_negative(rate);
            } else {
                assert(rate >= 0x7f80_0000 && rate < 0x8000_0000 ==> ((rate >> 23) & 0xff)
                    == 0xff) by (bit_vector);
            }
        }
        return false;
    }
    proof {
        assert(cutoff < 0x7f80_0000 ==> ((cutoff >> 23) & 0xff) != 0xff) by (bit_vector);
        assert(rate < 0x7f80_0000 ==> ((rate >> 23) & 0xff) != 0xff) by (bit_vector);
        lemma_bits_order_is_value_order(0, cutoff);
    }
    if cutoff == 0 {
        return false;
    }
    if cutoff >= 0x7f00_0000 {
        // Doubling would reach infinity: in exact arithmetic twice the
        // cutoff is above every finite single-precision value.
        proof {
            lemma_no_room_above(cutoff, rate);
        }
        return false;
    }
    let doubled: u32 = f32_double(cutoff);
    proof {
        lemma_double_exact(cutoff);
        lemma_bits_order_is_value_order(doubled, rate);
    }
    doubled < rate
}

/// With a cutoff exponent at maximum, twice the cutoff exceeds every finite
/// magnitude.
proof fn lemma_no_room_above(cutoff: u32, rate: u32)
    requires
        0x7f00_0000 <= cutoff < 0x7f80_0000,
        rate < 0x7f80_0000,
    ensures
        !(2 * f32_scaled(cutoff) < f32_scaled(rate)),
{
    assert(((cutoff >> 23) & 0xff) == 0xfe && (cutoff >> 31) == 0) by (bit_vector)
        requires
            0x7f00_0000 <= cutoff < 0x7f80_0000,
    ;
    assert(((rate >> 23) & 0xff) <= 0xfe && (rate >> 31) == 0 && (rate & 0x7f_ffff) < 0x80_0000)
        by (bit_vector)
        requires
            rate < 0x7f80_0000,
    ;
    let p = vstd::arithmetic::power2::pow2(0xfd) as int;
    assert(f32_scaled(cutoff) >= 0x80_0000 * p) by {
        vstd::arithmetic::power2::lemma_pow2_pos(0xfd);
        vstd::arithmetic::mul::lemma_mul_inequality(
            0x80_0000,
            (f32_frac(cutoff) + 0x80_0000) as int,
            p,
        );
    }
    assert(f32_scaled(rate) <= 0xff_ffff * p) by {
        vstd::arithmetic::power2::lemma_pow2_pos(0xfd);
        if f32_exp(rate) == 0 {
            vstd::arithmetic::mul::lemma_mul_increases(p, 0xff_ffff);
        } else {
            let pr = vstd::arithmetic::power2::pow2((f32_exp(rate) - 1) as nat) as int;
            if f32_exp(rate) < 0xfe {
                vstd::arithmetic::power2::lemma_pow2_strictly_increases(
                    (f32_exp(rate) - 1) as nat,
                    0xfd,
                );
            }
            vstd::arithmetic::mul::lemma_mul_inequality(pr, p, (f32_frac(rate) + 0x80_0000) as int);
            vstd::arithmetic::mul::lemma_mul_inequality(
                (f32_frac(rate) + 0x80_0000) as int,
                0xff_ffff,
                p,
            );
        }
    }
    vstd::arithmetic::mul::lemma_mul_inequality(0xff_ffff as int, 2 * 0x80_0000 as int, p);
}

/// One filter request: family, sample rate, and cutoffs, all single-precision
/// bit patterns.  A low pass or high pass request stores its single cutoff
/// in both cutoff fields.
#[derive(Clone, Copy, Debug, PartialEq, Eq, Structural)]
pub struct FilterSpecification {
    pub family: FilterFamily,
    pub sample_rate_hz: u32,
    pub low_cutoff_hz: u32,
    pub high_cutoff_hz: u32,
}

impl FilterSpecification {
    /// The construction invariant: cutoffs strictly between zero and the
    /// Nyquist frequency, and in strict order for band and notch requests.
    pub open spec fn wf(self) -> bool {
        match self.family {
            FilterFamily::LowPass | FilterFamily::HighPass => {
                &&& acceptable_cutoff(self.low_cutoff_hz, self.sample_rate_hz)
                &&& self.high_cutoff_hz == self.low_cutoff_hz
            },
            FilterFamily::BandPass | FilterFamily::Notch => {
                &&& acceptable_cutoff(self.low_cutoff_hz, self.sample_rate_hz)
                &&& acceptable_cutoff(self.high_cutoff_hz, self.sample_rate_hz)
                &&& f32_scaled(self.low_cutoff_hz) < f32_scaled(self.high_cutoff_hz)
            },
        }
    }

    /// A low pass request.  Fails with `InvalidCutoff` exactly when the
    /// cutoff is not strictly between zero and half the sample rate.
    pub fn lowpass(cutoff_hz: u32, sample_rate_hz: u32) -> (r: Result<Self, SpecError>)
        ensures
            acceptable_cutoff(cutoff_hz, sample_rate_hz) ==> r == Ok::<Self, SpecError>(
                (FilterSpecification {
                    family: FilterFamily::LowPass,
                    sample_rate_hz,
                    low_cutoff_hz: cutoff_hz,
                    high_cutoff_hz: cutoff_hz,
                }),
            ),
            !acceptable_cutoff(cutoff_hz, sample_rate_hz) ==> r == Err::<Self, SpecError>(
                SpecError::InvalidCutoff,
            ),
            r is Ok ==> r->Ok_0.wf(),
    {
        if check_cutoff(cutoff_hz, sample_rate_hz) {
            Ok(
                FilterSpecification {
                    family: FilterFamily::LowPass,
                    sample_rate_hz,
                    low_cutoff_hz: cutoff_hz,
                    high_cutoff_hz: cutoff_hz,
                },
            )
        } else {
            Err(SpecError::InvalidCutoff)
        }
    }

    /// A high pass request, validated as `lowpass` is.
    pub fn highpass(cutoff_hz: u32, sample_rate_hz: u32) -> (r: Result<Self, SpecError>)
        ensures
            acceptable_cutoff(cutoff_hz, sample_rate_hz) ==> r == Ok::<Self, SpecError>(
                (FilterSpecification {
                    family: FilterFamily::HighPass,
                    sample_rate_hz,
                    low_cutoff_hz: cutoff_hz,
                    high_cutoff_hz: cutoff_hz,
                }),
            ),
            !acceptable_cutoff(cutoff_hz, sample_rate_hz) ==> r == Err::<Self, SpecError>(
                SpecError::InvalidCutoff,
            ),
            r is Ok ==> r->Ok_0.wf(),
    {
        if check_cutoff(cutoff_hz, sample_rate_hz) {
            Ok(
                FilterSpecification {
                    family: FilterFamily::HighPass,
                    sample_rate_hz,
                    low_cutoff_hz: cutoff_hz,
                    high_cutoff_hz: cutoff_hz,
                },
            )
        } else {
            Err(SpecError::InvalidCutoff)
        }
    }

    /// A band pass request over `(low, high)`.  `InvalidCutoff` if either
    /// cutoff fails the Nyquist bound, else `DegenerateFilter` if the low
    /// cutoff does not lie strictly below the high one.
    pub fn bandpass(low_cutoff_hz: u32, high_cutoff_hz: u32, sample_rate_hz: u32) -> (r: Result<
        Self,
        SpecError,
    >)
        ensures
            band_request_outcome(
                FilterFamily::BandPass,
                low_cutoff_hz,
                high_cutoff_hz,
                sample_rate_hz,
                r,
            ),
            r is Ok ==> r->Ok_0.wf(),
    {
        Self::band_request(FilterFamily::BandPass, low_cutoff_hz, high_cutoff_hz, sample_rate_hz)
    }

    /// A notch request over `(low, high)`, validated as `bandpass` is.
    pub fn notch(low_cutoff_hz: u32, high_cutoff_hz: u32, sample_rate_hz: u32) -> (r: Result<
        Self,
        SpecError,
    >)
        ensures
            band_request_outcome(
                FilterFamily::Notch,
                low_cutoff_hz,
                high_cutoff_hz,
                sample_rate_hz,
                r,
            ),
            r is Ok ==> r->Ok_0.wf(),
    {
        Self::band_request(FilterFamily::Notch, low_cutoff_hz, high_cutoff_hz, sample_rate_hz)
    }

    fn band_request(
        family: FilterFamily,
        low_cutoff_hz: u32,
        high_cutoff_hz: u32,
        sample_rate_hz: u32,
    ) -> (r: Result<Self, SpecError>)
        requires
            family == FilterFamily::BandPass || family == FilterFamily::Notch,
        ensures
            band_request_outcome(family, low_cutoff_hz, high_cutoff_hz, sample_rate_hz, r),
            r is Ok ==> r->Ok_0.wf(),
    {
        let low_ok = check_cutoff(low_cutoff_hz, sample_rate_hz);
        let high_ok = check_cutoff(high_cutoff_hz, sample_rate_hz);
        if !low_ok || !high_ok {
            return Err(SpecError::InvalidCutoff);
        }
        proof {
            crate::float_bits::lemma_bits_bound_of_positive_finite(low_cutoff_hz);
            crate::float_bits::lemma_bits_bound_of_positive_finite(high_cutoff_hz);
            lemma_bits_order_is_value_order(low_cutoff_hz, high_cutoff_hz);
        }
        if low_cutoff_hz < high_cutoff_hz {
            Ok(FilterSpecification { family, sample_rate_hz, low_cutoff_hz, high_cutoff_hz })
        } else {
            Err(SpecError::DegenerateFilter)
        }
    }
}

/// The exact outcome of validating a band or notch request.
pub open spec fn band_request_outcome(
    family: FilterFamily,
    low: u32,
    high: u32,
    rate: u32,
    r: Result<FilterSpecification, SpecError>,
) -> bool {
    if !(acceptable_cutoff(low, rate) && acceptable_cutoff(high, rate)) {
        r == Err::<FilterSpecification, SpecError>(SpecError::InvalidCutoff)
    } else if !(f32_scaled(low) < f32_scaled(high)) {
        r == Err::<FilterSpecification, SpecError>(SpecError::DegenerateFilter)
    } else {
        r == Ok::<FilterSpecification, SpecError>(
            (FilterSpecification {
                family,
                sample_rate_hz: rate,
                low_cutoff_hz: low,
                high_cutoff_hz: high,
            }),
        )
    }
}

} // verus!
