//! The biquad delay line: the one mutable entity of the filter core.
//!
//! A `BiquadState` holds a coefficient set and the four delay registers
//! `x[n-1], x[n-2], y[n-1], y[n-2]`, all single-precision bit patterns,
//! zero at construction (the cold state).  `step` applies one round of the
//! recurrence
//!
//! `y[n] = b0 x[n] + b1 x[n-1] + b2 x[n-2] - a1 y[n-1] - a2 y[n-2]`
//!
//! evaluated left to right in single precision, then shifts the registers.
//! The contract pins output and successor state exactly, so every filter
//! built on `step` is reproducible bit for bit.

use vstd::prelude::*;
use crate::coefficients::Coefficients;
use crate::float_ops::{single_add, single_sub, single_mul, f32_add, f32_sub, f32_mul};

verus! {

/// Delay-line registers plus the coefficient set they run under.
#[derive(Clone, Copy, Debug, PartialEq, Eq, Structural)]
pub struct BiquadState {
    pub coeffs: Coefficients,
    pub x1: u32,
    pub x2: u32,
    pub y1: u32,
    pub y2: u32,
}

/// The output of one recurrence round on state `st` and input `x`.
pub open spec fn spec_step_output(st: BiquadState, x: u32) -> u32 {
    single_sub(
        single_sub(
            single_add(
                single_add(single_mul(st.coeffs.b0, x), single_mul(st.coeffs.b1, st.x1)),
                single_mul(st.coeffs.b2, st.x2),
            ),
            single_mul(st.coeffs.a1, st.y1),
        ),
        single_mul(st.coeffs.a2, st.y2),
    )
}

/// The state after one recurrence round: registers shifted by one sample.
pub open spec fn spec_step_state(st: BiquadState, x: u32) -> BiquadState {
    BiquadState {
        coeffs: st.coeffs,
        x1: x,
        x2: st.x1,
        y1: spec_step_output(st, x),
        y2: st.y1,
    }
}

impl BiquadState {
    /// All four registers hold positive zero.
    pub open spec fn is_cold(self) -> bool {
        self.x1 == 0 && self.x2 == 0 && self.y1 == 0 && self.y2 == 0
    }

    /// A cold state under the given coefficients.
    pub fn new(coeffs: Coefficients) -> (r: Self)
        ensures
            r == (BiquadState { coeffs, x1: 0, x2: 0, y1: 0, y2: 0 }),
            r.is_cold(),
    {
        BiquadState { coeffs, x1: 0, x2: 0, y1: 0, y2: 0 }
    }

    /// Clears the delay registers back to the cold state, keeping the
    /// coefficients.
    pub fn reset(&mut self)
        ensures
            *final(self) == (BiquadState { coeffs: old(self).coeffs, x1: 0, x2: 0, y1: 0, y2: 0 }),
            final(self).is_cold(),
    {
        self.x1 = 0;
        self.x2 = 0;
        self.y1 = 0;
        self.y2 = 0;
    }

    /// One recurrence round: returns `y[n]` and shifts the registers.
    pub fn step(&mut self, x: u32) -> (y: u32)
        ensures
            y == spec_step_output(*old(self), x),
            *final(self) == spec_step_state(*old(self), x),
    {
        let out: u32 = f32_sub(
            f32_sub(
                f32_add(
                    f32_add(f32_mul(self.coeffs.b0, x), f32_mul(self.coeffs.b1, self.x1)),
                    f32_mul(self.coeffs.b2, self.x2),
                ),
                f32_mul(self.coeffs.a1, self.y1),
            ),
            f32_mul(self.coeffs.a2, self.y2),
        );
        self.x2 = self.x1;
        self.x1 = x;
        self.y2 = self.y1;
        self.y1 = out;
        out
    }
}

} // verus!
