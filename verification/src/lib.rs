//! A digital-signal-processing toolkit centred on a verified biquad IIR
//! filter engine with zero-phase (forward-backward) filtering.
//!
//! Samples travel as IEEE-754 single-precision bit patterns (`u32`);
//! their arithmetic runs through a pure-integer IEEE-754 implementation
//! behind named, deterministic operations, so every filter output is
//! pinned by its contract as a function of the inputs alone.

pub mod float_bits;
pub mod float_ops;
pub mod series;
pub mod filter_spec;
pub mod coefficients;
pub mod biquad_state;
pub mod streaming;
pub mod zero_phase;
pub mod math;
pub mod resampling;
pub mod moving_average;
pub mod windowing;
pub mod peaks;
