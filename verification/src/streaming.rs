//! The streaming filter: one coefficient set, one delay line, batch
//! processing of a series in input order.
//!
//! `filter_outputs` and `filter_final_state` give the mathematical model:
//! the sequence of recurrence outputs and the final delay line, by
//! structural recursion over the input.  `process` is proved to compute
//! exactly that model, so the three central laws hold and are stated as
//! lemmas here: the output has the length of the input, a prefix of the
//! input yields the matching prefix of the output (causality, no
//! look-ahead), and processing a concatenation equals processing the parts
//! in sequence from the carried-over state (the streaming law).

use vstd::prelude::*;
use crate::biquad_state::{BiquadState, spec_step_output, spec_step_state};
use crate::coefficients::Coefficients;
use crate::filter_spec::{FilterSpecification, SpecError};
use crate::series::RawData;

verus! {

/// The outputs of running the recurrence over `s` from state `st`.
pub open spec fn filter_outputs(st: BiquadState, s: Seq<u32>) -> Seq<u32>
    decreases s.len(),
{
    if s.len() == 0 {
        Seq::empty()
    } else {
        seq![spec_step_output(st, s[0])] + filter_outputs(spec_step_state(st, s[0]), s.skip(1))
    }
}

/// The delay line left behind after running the recurrence over `s`.
pub open spec fn filter_final_state(st: BiquadState, s: Seq<u32>) -> BiquadState
    decreases s.len(),
{
    if s.len() == 0 {
        st
    } else {
        filter_final_state(spec_step_state(st, s[0]), s.skip(1))
    }
}

/// Length preservation: the filter emits one output per input sample.
pub proof fn lemma_filter_len(st: BiquadState, s: Seq<u32>)
    ensures
        filter_outputs(st, s).len() == s.len(),
    decreases s.len(),
{
    if s.len() > 0 {
        lemma_filter_len(spec_step_state(st, s[0]), s.skip(1));
    }
}

/// The streaming law: filtering a concatenation equals filtering the first
/// part and continuing over the second from the state the first part left.
pub proof fn lemma_filter_append(st: BiquadState, s1: Seq<u32>, s2: Seq<u32>)
    ensures
        filter_outputs(st, s1 + s2) == filter_outputs(st, s1) + filter_outputs(
            filter_final_state(st, s1),
            s2,
        ),
        filter_final_state(st, s1 + s2) == filter_final_state(filter_final_state(st, s1), s2),
    decreases s1.len(),
{
    if s1.len() == 0 {
        assert(s1 + s2 =~= s2);
        assert(filter_outputs(st, s1) + filter_outputs(filter_final_state(st, s1), s2)
            =~= filter_outputs(st, s2));
    } else {
        let st1 = spec_step_state(st, s1[0]);
        assert((s1 + s2).skip(1) =~= s1.skip(1) + s2);
        lemma_filter_append(st1, s1.skip(1), s2);
        assert(filter_outputs(st, s1 + s2) =~= filter_outputs(st, s1) + filter_outputs(
            filter_final_state(st, s1),
            s2,
        ));
    }
}

/// Causality: the first `k` outputs depend only on the first `k` inputs.
/// Filtering a truncated series yields the truncation of the full output.
pub proof fn lemma_filter_causal(st: BiquadState, s: Seq<u32>, k: int)
    requires
        0 <= k <= s.len(),
    ensures
        filter_outputs(st, s.take(k)) == filter_outputs(st, s).take(k),
{
    assert(s =~= s.take(k) + s.skip(k));
    lemma_filter_append(st, s.take(k), s.skip(k));
    lemma_filter_len(st, s.take(k));
    lemma_filter_len(filter_final_state(st, s.take(k)), s.skip(k));
    assert(filter_outputs(st, s.take(k) + s.skip(k)).take(k) =~= filter_outputs(st, s.take(k)));
}

/// Extending a processed prefix by one sample appends one recurrence
/// output and advances the final state by one step.
pub proof fn lemma_one_more_step(st0: BiquadState, st_i: BiquadState, s: Seq<u32>, i: int)
    requires
        0 <= i < s.len(),
        st_i == filter_final_state(st0, s.take(i)),
    ensures
        filter_outputs(st0, s.take(i + 1)) == filter_outputs(st0, s.take(i)) + seq![
            spec_step_output(st_i, s[i]),
        ],
        filter_final_state(st0, s.take(i + 1)) == spec_step_state(st_i, s[i]),
{
    let x_s = s[i];
    let stepped = spec_step_state(st_i, x_s);
    assert(seq![x_s].skip(1) =~= Seq::<u32>::empty());
    assert(filter_outputs(stepped, Seq::<u32>::empty()) =~= Seq::<u32>::empty());
    assert(filter_outputs(st_i, seq![x_s]) =~= seq![spec_step_output(st_i, x_s)]);
    assert(filter_final_state(stepped, Seq::<u32>::empty()) == stepped);
    assert(filter_final_state(st_i, seq![x_s]) == stepped);
    assert(s.take(i + 1) =~= s.take(i) + seq![x_s]);
    lemma_filter_append(st0, s.take(i), seq![x_s]);
}

/// Determinism: the output and the final state are functions of the
/// starting state and the input alone; two filters started equal and fed
/// equal series agree forever.
pub proof fn lemma_filter_deterministic(
    st_a: BiquadState,
    st_b: BiquadState,
    s_a: Seq<u32>,
    s_b: Seq<u32>,
)
    requires
        st_a == st_b,
        s_a == s_b,
    ensures
        filter_outputs(st_a, s_a) == filter_outputs(st_b, s_b),
        filter_final_state(st_a, s_a) == filter_final_state(st_b, s_b),
{
}

/// One coefficient set and one delay line; batch `process` in input order.
pub struct StreamingFilter {
    pub specification: FilterSpecification,
    pub state: BiquadState,
}

impl StreamingFilter {
    /// Derives the coefficients of `specification` and starts cold.
    /// Validation errors surface here, never during processing.
    pub fn new(specification: &FilterSpecification) -> (r: Result<StreamingFilter, SpecError>)
        ensures
            match r {
                Ok(f) => {
                    &&& crate::coefficients::derive_outcome(
                        *specification,
                        Ok(f.state.coeffs),
                    )
                    &&& f.specification == *specification
                    &&& f.state.is_cold()
                },
                Err(e) => crate::coefficients::derive_outcome(
                    *specification,
                    Err::<Coefficients, SpecError>(e),
                ),
            },
    {
        let coeffs = match Coefficients::derive(specification) {
            Ok(c) => c,
            Err(e) => {
                return Err(e);
            },
        };
        Ok(StreamingFilter { specification: *specification, state: BiquadState::new(coeffs) })
    }

    /// Clears the delay line back to the cold state, keeping the
    /// specification and coefficients: the explicit way to start a fresh
    /// stream without rebuilding the filter.
    pub fn reset(&mut self)
        ensures
            final(self).specification == old(self).specification,
            final(self).state == (BiquadState {
                coeffs: old(self).state.coeffs,
                x1: 0,
                x2: 0,
                y1: 0,
                y2: 0,
            }),
            final(self).state.is_cold(),
    {
        self.state.reset();
    }

    /// Runs the recurrence over the series, one output per sample, in
    /// order, continuing from the current delay line; the delay line
    /// advances so a later call continues the stream.  An empty series is
    /// rejected and leaves the filter untouched.
    pub fn process(&mut self, input: &RawData) -> (r: Result<Vec<u32>, SpecError>)
        ensures
            input.float_view().len() == 0 ==> r == Err::<Vec<u32>, SpecError>(SpecError::EmptyInput)
                && *final(self) == *old(self),
            input.float_view().len() > 0 ==> match r {
                Ok(out) => {
                    &&& out@ == filter_outputs(old(self).state, input.float_view())
                    &&& out@.len() == input.float_view().len()
                    &&& final(self).state == filter_final_state(
                        old(self).state,
                        input.float_view(),
                    )
                    &&& final(self).specification == old(self).specification
                },
                Err(_) => false,
            },
    {
        let samples: Vec<u32> = input.return_vector_clone();
        if samples.len() == 0 {
            return Err(SpecError::EmptyInput);
        }
        let view = Ghost(samples@);
        let mut out: Vec<u32> = Vec::new();
        let mut i: usize = 0;
        while i < samples.len()
            invariant
                i <= samples@.len(),
                samples@ == view@,
                view@ == input.float_view(),
                out@ == filter_outputs(old(self).state, view@.take(i as int)),
                out@.len() == i,
                self.state == filter_final_state(old(self).state, view@.take(i as int)),
                self.specification == old(self).specification,
            decreases samples@.len() - i,
        {
            let x: u32 = samples[i];
            let ghost st_i = self.state;
            let y: u32 = self.state.step(x);
            out.push(y);
            proof {
                lemma_one_more_step(old(self).state, st_i, view@, i as int);
            }
            i = i + 1;
        }
        proof {
            assert(view@.take(view@.len() as int) =~= view@);
        }
        Ok(out)
    }
}

} // verus!
