//! Three-tap moving-average smoothing.
//!
//! Every output sample is the sum of the sample and its two neighbours
//! divided by three.  Boundary policy, stated once for the whole crate:
//! the first and last output pair only the two available samples and
//! still divide by three, biasing the edges toward zero.  (An
//! alternative policy would drop the two edge samples and shorten the
//! output; this crate deliberately keeps the output as long as the
//! input.)

use vstd::prelude::*;
use crate::float_ops::{single_add, single_div, f32_add, f32_div};
use crate::series::RawData;

verus! {

/// Single-precision 3.0.
pub const BITS_THREE: u32 = 0x4040_0000;

/// Output sample `i` of the three-tap average over `s` (needs
/// `s.len() >= 2`).
pub open spec fn three_tap_at(s: Seq<u32>, i: int) -> u32 {
    if i == 0 {
        single_div(single_add(s[0], s[1]), BITS_THREE)
    } else if i == s.len() - 1 {
        single_div(single_add(s[s.len() - 2], s[s.len() - 1]), BITS_THREE)
    } else {
        single_div(single_add(single_add(s[i - 1], s[i]), s[i + 1]), BITS_THREE)
    }
}

/// The full three-tap average, one output per input sample.
pub open spec fn three_tap_average(s: Seq<u32>) -> Seq<u32> {
    Seq::new(s.len(), |i: int| three_tap_at(s, i))
}

/// Runs the three-tap average over a plain vector of samples.
fn three_tap_run(input: &Vec<u32>) -> (r: Vec<u32>)
    requires
        input@.len() >= 2,
    ensures
        r@ == three_tap_average(input@),
{
    let mut out: Vec<u32> = Vec::new();
    out.push(f32_div(f32_add(input[0], input[1]), BITS_THREE));
    let mut i: usize = 1;
    while i < input.len() - 1
        invariant
            1 <= i <= input@.len() - 1,
            input@.len() >= 2,
            out@.len() == i,
            forall|t: int| 0 <= t < i ==> out@[t] == three_tap_at(input@, t),
        decreases input@.len() - 1 - i,
    {
        out.push(f32_div(f32_add(f32_add(input[i - 1], input[i]), input[i + 1]), BITS_THREE));
        i = i + 1;
    }
    out.push(f32_div(f32_add(input[input.len() - 2], input[input.len() - 1]), BITS_THREE));
    proof {
        assert(out@ =~= three_tap_average(input@));
    }
    out
}

/// Three-tap moving average over a plain vector of single-precision
/// samples.
#[allow(non_camel_case_types)]
pub struct moving_average_filter {}

impl moving_average_filter {
    /// A fresh filter; the average carries no state between calls.
    pub fn new() -> (r: Self)
        ensures
            r == (moving_average_filter {  }),
    {
        moving_average_filter {  }
    }

    /// One output per input sample, under the boundary policy above.
    pub fn process(&mut self, input: &Vec<u32>) -> (r: Vec<u32>)
        requires
            input@.len() >= 2,
        ensures
            r@ == three_tap_average(input@),
            *final(self) == *old(self),
    {
        three_tap_run(input)
    }
}

/// Three-tap moving average over a `RawData` series.
pub struct MovingAverageFilter {}

impl MovingAverageFilter {
    /// A fresh filter; the average carries no state between calls.
    pub fn new() -> (r: Self)
        ensures
            r == (MovingAverageFilter {  }),
    {
        MovingAverageFilter {  }
    }

    /// One output per sample of the single-precision view, under the
    /// boundary policy above.
    pub fn process(&mut self, input: &RawData) -> (r: Vec<u32>)
        requires
            input.spec_len() >= 2,
        ensures
            r@ == three_tap_average(input.float_view()),
            *final(self) == *old(self),
    {
        let samples: Vec<u32> = input.return_vector_clone();
        three_tap_run(&samples)
    }
}

} // verus!
