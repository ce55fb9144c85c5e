//! Downsampling of a series by a frequency ratio.
//!
//! The ratio `floor(input_frequency / output_frequency)` is evaluated in
//! single precision and truncated to an index increment.  `resampling_by_average`
//! then averages consecutive chunks of that many samples;
//! `resampling_by_increment` keeps every increment-th sample.  A ratio
//! that truncates to zero (an output frequency above the input frequency)
//! yields an empty result.  Chunk counting is done in exact integer
//! arithmetic over the actual series length.

use vstd::prelude::*;
use vstd::arithmetic::div_mod::{lemma_fundamental_div_mod};
use vstd::arithmetic::mul::{
    lemma_mul_basics,
    lemma_mul_inequality,
    lemma_mul_is_commutative,
    lemma_mul_is_distributive_add_other_way,
};
use crate::float_bits::{f32_abs, f32_is_nan, f32_lt, f32_mag, f32_num_lt};
use crate::float_ops::{
    single_div,
    single_floor,
    single_sub,
    usize_of_single,
    f32_div,
    f32_floor,
    f32_sub,
    f32_to_usize,
    f32_add,
};
use crate::math::{spec_sum_singles, sum_singles_from};
use crate::series::RawData;

verus! {

/// The single-precision chunk increment: `floor(input / output)`.
pub open spec fn spec_increment(input_frequency: u32, output_frequency: u32) -> u32 {
    single_floor(single_div(input_frequency, output_frequency))
}

/// The mean of chunk `k`: its sequential sum divided by the
/// single-precision increment.
pub open spec fn spec_chunk_average(s: Seq<u32>, incf: u32, inc: int, k: int) -> u32 {
    single_div(spec_sum_singles(s.subrange(k * inc, k * inc + inc)), incf)
}

/// Element-wise approximate equality: the magnitude of each difference
/// compares strictly below `epsilon`.
pub open spec fn approx_equal_at(e: u32, a: u32, epsilon: u32) -> bool {
    let d = f32_mag(single_sub(e, a));
    !f32_is_nan(d) && !f32_is_nan(epsilon) && f32_num_lt(d, epsilon)
}

/// Downsampling operations over a `RawData` series.
pub struct DataResampling {}

impl DataResampling {
    /// A fresh resampler; the operations carry no state.
    pub fn new() -> (r: Self)
        ensures
            r == (DataResampling {  }),
    {
        DataResampling {  }
    }

    /// Averages each chunk of `floor(input_frequency / output_frequency)`
    /// samples into one output sample, dropping an incomplete tail chunk.
    /// An increment of zero yields an empty result.
    pub fn resampling_by_average(
        &self,
        input: &RawData,
        output_frequency: u32,
        input_frequency: u32,
    ) -> (r: Vec<u32>)
        ensures
            ({
                let view = input.float_view();
                let incf = spec_increment(input_frequency, output_frequency);
                let inc = usize_of_single(incf) as int;
                if inc == 0 {
                    r@ == Seq::<u32>::empty()
                } else {
                    r@.len() == view.len() as int / inc && forall|k: int|
                        0 <= k < r@.len() ==> r@[k] == spec_chunk_average(view, incf, inc, k)
                }
            }),
    {
        let incf: u32 = f32_floor(f32_div(input_frequency, output_frequency));
        let inc: usize = f32_to_usize(incf);
        let mut out: Vec<u32> = Vec::new();
        if inc == 0 {
            return out;
        }
        let samples: Vec<u32> = input.return_vector_clone();
        let ghost view = samples@;
        let total: usize = samples.len();
        assert(view.len() <= usize::MAX);
        let n: usize = total / inc;
        proof {
            lemma_fundamental_div_mod(view.len() as int, inc as int);
            lemma_mul_is_commutative(inc as int, n as int);
        }
        let mut k: usize = 0;
        let mut base: usize = 0;
        while k < n
            invariant
                k <= n,
                inc >= 1,
                view.len() <= usize::MAX,
                n == view.len() as int / inc as int,
                (n * inc) as int <= view.len(),
                k < n ==> base as int == k * inc as int,
                samples@ == view,
                out@.len() == k,
                forall|t: int|
                    0 <= t < k ==> out@[t] == spec_chunk_average(view, incf, inc as int, t),
            decreases n - k,
        {
            proof {
                lemma_mul_is_distributive_add_other_way(inc as int, k as int, 1);
                lemma_mul_basics(inc as int);
                lemma_mul_inequality(k as int + 1, n as int, inc as int);
            }
            let ghost chunk = view.subrange(base as int, base as int + inc as int);
            let mut acc: u32 = 0;
            let mut j: usize = 0;
            proof {
                assert(chunk.skip(0) =~= chunk);
            }
            while j < inc
                invariant
                    j <= inc,
                    inc >= 1,
                    view.len() <= usize::MAX,
                    base + inc <= view.len(),
                    samples@ == view,
                    chunk == view.subrange(base as int, base as int + inc as int),
                    spec_sum_singles(chunk) == sum_singles_from(acc, chunk.skip(j as int)),
                decreases inc - j,
            {
                proof {
                    assert(chunk.skip(j as int)[0] == chunk[j as int]);
                    assert(chunk.skip(j as int).skip(1) =~= chunk.skip(j as int + 1));
                }
                acc = f32_add(acc, samples[base + j]);
                j = j + 1;
            }
            proof {
                assert(chunk.skip(inc as int) =~= Seq::<u32>::empty());
            }
            out.push(f32_div(acc, incf));
            k = k + 1;
            proof {
                lemma_mul_inequality(k as int, n as int, inc as int);
            }
            if k < n {
                base = base + inc;
            }
        }
        out
    }

    /// Keeps every increment-th sample, starting from the first.  An
    /// increment of zero yields an empty result.
    pub fn resampling_by_increment(
        &self,
        input: &RawData,
        output_frequency: u32,
        input_frequency: u32,
    ) -> (r: Vec<u32>)
        ensures
            ({
                let view = input.float_view();
                let incf = spec_increment(input_frequency, output_frequency);
                let inc = usize_of_single(incf) as int;
                if inc == 0 || view.len() == 0 {
                    r@ == Seq::<u32>::empty()
                } else {
                    r@.len() == (view.len() - 1) as int / inc + 1 && forall|k: int|
                        0 <= k < r@.len() ==> r@[k] == view[k * inc]
                }
            }),
    {
        let incf: u32 = f32_floor(f32_div(input_frequency, output_frequency));
        let inc: usize = f32_to_usize(incf);
        let mut out: Vec<u32> = Vec::new();
        if inc == 0 {
            return out;
        }
        let samples: Vec<u32> = input.return_vector_clone();
        let ghost view = samples@;
        let total: usize = samples.len();
        assert(view.len() <= usize::MAX);
        if total == 0 {
            return out;
        }
        let n: usize = (total - 1) / inc + 1;
        proof {
            lemma_fundamental_div_mod(view.len() as int - 1, inc as int);
            lemma_mul_is_commutative(inc as int, n as int - 1);
        }
        let mut k: usize = 0;
        let mut idx: usize = 0;
        while k < n
            invariant
                k <= n,
                inc >= 1,
                view.len() > 0,
                view.len() <= usize::MAX,
                n == (view.len() - 1) as int / inc as int + 1,
                ((n - 1) * inc) as int <= view.len() - 1,
                k < n ==> idx as int == k * inc as int,
                samples@ == view,
                out@.len() == k,
                forall|t: int| 0 <= t < k ==> out@[t] == view[t * inc as int],
            decreases n - k,
        {
            proof {
                lemma_mul_is_distributive_add_other_way(inc as int, k as int, 1);
                lemma_mul_basics(inc as int);
                lemma_mul_inequality(k as int, n as int - 1, inc as int);
            }
            out.push(samples[idx]);
            k = k + 1;
            if k < n {
                proof {
                    lemma_mul_inequality(k as int, n as int - 1, inc as int);
                }
                idx = idx + inc;
            }
        }
        out
    }

    /// Compares two vectors of samples element-wise, `true` exactly when
    /// the lengths agree and every difference magnitude lies strictly
    /// below `epsilon`.
    pub fn assert_approx_equal_vec(expected: &Vec<u32>, actual: &Vec<u32>, epsilon: u32) -> (r:
        bool)
        ensures
            r == (expected@.len() == actual@.len() && forall|i: int|
                0 <= i < expected@.len() ==> approx_equal_at(expected@[i], actual@[i], epsilon)),
    {
        if expected.len() != actual.len() {
            return false;
        }
        let mut i: usize = 0;
        while i < expected.len()
            invariant
                i <= expected@.len(),
                expected@.len() == actual@.len(),
                forall|j: int| 0 <= j < i ==> approx_equal_at(expected@[j], actual@[j], epsilon),
            decreases expected@.len() - i,
        {
            if !f32_lt(f32_abs(f32_sub(expected[i], actual[i])), epsilon) {
                return false;
            }
            i = i + 1;
        }
        true
    }
}

} // verus!
