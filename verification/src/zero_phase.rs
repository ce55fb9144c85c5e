//! Zero-phase (forward-backward) filtering.
//!
//! Two independent delay lines built from one coefficient set: the series
//! is filtered forward, reversed, filtered again, and reversed back, which
//! cancels the filter's phase response to first order at the cost of
//! doubled effective order and startup transients at both ends.  No
//! padding or reflection is applied before either pass, so the first and
//! last few samples carry those transients; an explicit warm-up mode runs
//! the reversed series through the forward line and the plain series
//! through the backward line first, a heuristic that reduces (not
//! eliminates) the effect.

use vstd::prelude::*;
use crate::biquad_state::BiquadState;
use crate::coefficients::Coefficients;
use crate::filter_spec::{FilterSpecification, SpecError};
use crate::series::RawData;
use crate::streaming::{filter_final_state, filter_outputs, lemma_filter_len, lemma_one_more_step};

verus! {

/// The zero-phase output: forward pass from `fwd`, reversal, backward pass
/// from `bwd`, reversal back.
pub open spec fn zero_phase_outputs(fwd: BiquadState, bwd: BiquadState, s: Seq<u32>) -> Seq<u32> {
    filter_outputs(bwd, filter_outputs(fwd, s).reverse()).reverse()
}

/// Reversal preserves length.
pub proof fn lemma_reverse_len<A>(s: Seq<A>)
    ensures
        s.reverse().len() == s.len(),
{
}

/// Length preservation for the zero-phase output.
pub proof fn lemma_zero_phase_len(fwd: BiquadState, bwd: BiquadState, s: Seq<u32>)
    ensures
        zero_phase_outputs(fwd, bwd, s).len() == s.len(),
{
    lemma_filter_len(fwd, s);
    lemma_reverse_len(filter_outputs(fwd, s));
    lemma_filter_len(bwd, filter_outputs(fwd, s).reverse());
    lemma_reverse_len(filter_outputs(bwd, filter_outputs(fwd, s).reverse()));
}

/// Builds a fresh vector holding the samples in reverse order.
pub fn reversed(v: &Vec<u32>) -> (r: Vec<u32>)
    ensures
        r@ == v@.reverse(),
{
    let mut out: Vec<u32> = Vec::new();
    let mut i: usize = 0;
    while i < v.len()
        invariant
            i <= v@.len(),
            out@.len() == i,
            forall|j: int| 0 <= j < i ==> out@[j] == v@[v@.len() - 1 - j],
        decreases v@.len() - i,
    {
        out.push(v[v.len() - 1 - i]);
        i = i + 1;
    }
    proof {
        assert(out@ =~= v@.reverse());
    }
    out
}

/// Two independent delay lines sharing one coefficient set.  Sharing one
/// line between the passes would corrupt the second pass with state left
/// by the first; the contract keeps them separate.
pub struct ZeroPhaseFilter {
    pub specification: FilterSpecification,
    pub forward: BiquadState,
    pub backward: BiquadState,
}

impl ZeroPhaseFilter {
    /// Derives the coefficients once and starts both delay lines cold.
    pub fn new(specification: &FilterSpecification) -> (r: Result<ZeroPhaseFilter, SpecError>)
        ensures
            match r {
                Ok(f) => {
                    &&& crate::coefficients::derive_outcome(*specification, Ok(f.forward.coeffs))
                    &&& f.backward.coeffs == f.forward.coeffs
                    &&& f.specification == *specification
                    &&& f.forward.is_cold()
                    &&& f.backward.is_cold()
                },
                Err(e) => crate::coefficients::derive_outcome(
                    *specification,
                    Err::<Coefficients, SpecError>(e),
                ),
            },
    {
        let coeffs = match Coefficients::derive(specification) {
            Ok(c) => c,
            Err(e) => {
                return Err(e);
            },
        };
        Ok(
            ZeroPhaseFilter {
                specification: *specification,
                forward: BiquadState::new(coeffs),
                backward: BiquadState::new(coeffs),
            },
        )
    }

    /// Clears both delay lines back to the cold state, keeping the
    /// specification and coefficients.
    pub fn reset(&mut self)
        ensures
            final(self).specification == old(self).specification,
            final(self).forward.coeffs == old(self).forward.coeffs,
            final(self).backward.coeffs == old(self).backward.coeffs,
            final(self).forward.is_cold(),
            final(self).backward.is_cold(),
    {
        self.forward.reset();
        self.backward.reset();
    }

    /// Forward-backward filtering, length preserving.  Both delay lines
    /// advance, so a fresh run needs a fresh or reset filter.
    pub fn run(&mut self, input: &RawData) -> (r: Result<Vec<u32>, SpecError>)
        ensures
            input.float_view().len() == 0 ==> r == Err::<Vec<u32>, SpecError>(SpecError::EmptyInput)
                && *final(self) == *old(self),
            input.float_view().len() > 0 ==> match r {
                Ok(out) => {
                    &&& out@ == zero_phase_outputs(
                        old(self).forward,
                        old(self).backward,
                        input.float_view(),
                    )
                    &&& out@.len() == input.float_view().len()
                    &&& final(self).forward == filter_final_state(
                        old(self).forward,
                        input.float_view(),
                    )
                    &&& final(self).backward == filter_final_state(
                        old(self).backward,
                        filter_outputs(old(self).forward, input.float_view()).reverse(),
                    )
                    &&& final(self).specification == old(self).specification
                },
                Err(_) => false,
            },
    {
        let samples: Vec<u32> = input.return_vector_clone();
        if samples.len() == 0 {
            return Err(SpecError::EmptyInput);
        }
        let ghost view = samples@;
        let forward_pass: Vec<u32> = self.pass_forward(&samples);
        let reversed_mid: Vec<u32> = reversed(&forward_pass);
        proof {
            lemma_filter_len(old(self).forward, view);
        }
        let backward_pass: Vec<u32> = self.pass_backward(&reversed_mid);
        let out: Vec<u32> = reversed(&backward_pass);
        proof {
            lemma_zero_phase_len(old(self).forward, old(self).backward, view);
        }
        Ok(out)
    }

    /// Warm-up heuristic: runs the reversed series through the forward
    /// line and the plain series through the backward line, discarding
    /// the outputs, so a following `run` starts from warmed delay lines.
    pub fn warmup(&mut self, input: &RawData)
        ensures
            final(self).forward == filter_final_state(
                old(self).forward,
                input.float_view().reverse(),
            ),
            final(self).backward == filter_final_state(old(self).backward, input.float_view()),
            final(self).specification == old(self).specification,
    {
        let samples: Vec<u32> = input.return_vector_clone();
        let rev: Vec<u32> = reversed(&samples);
        let _ = self.pass_forward(&rev);
        let _ = self.pass_backward(&samples);
    }

    /// One forward pass over plain samples, advancing the forward line.
    fn pass_forward(&mut self, samples: &Vec<u32>) -> (out: Vec<u32>)
        ensures
            out@ == filter_outputs(old(self).forward, samples@),
            final(self).forward == filter_final_state(old(self).forward, samples@),
            final(self).backward == old(self).backward,
            final(self).specification == old(self).specification,
    {
        let mut out: Vec<u32> = Vec::new();
        let mut i: usize = 0;
        while i < samples.len()
            invariant
                i <= samples@.len(),
                out@ == filter_outputs(old(self).forward, samples@.take(i as int)),
                out@.len() == i,
                self.forward == filter_final_state(old(self).forward, samples@.take(i as int)),
                self.backward == old(self).backward,
                self.specification == old(self).specification,
            decreases samples@.len() - i,
        {
            let x: u32 = samples[i];
            let ghost st_i = self.forward;
            let y: u32 = self.forward.step(x);
            out.push(y);
            proof {
                lemma_one_more_step(old(self).forward, st_i, samples@, i as int);
            }
            i = i + 1;
        }
        proof {
            assert(samples@.take(samples@.len() as int) =~= samples@);
        }
        out
    }

    /// One backward pass over already-reversed samples, advancing the
    /// backward line.
    fn pass_backward(&mut self, samples: &Vec<u32>) -> (out: Vec<u32>)
        ensures
            out@ == filter_outputs(old(self).backward, samples@),
            final(self).backward == filter_final_state(old(self).backward, samples@),
            final(self).forward == old(self).forward,
            final(self).specification == old(self).specification,
    {
        let mut out: Vec<u32> = Vec::new();
        let mut i: usize = 0;
        while i < samples.len()
            invariant
                i <= samples@.len(),
                out@ == filter_outputs(old(self).backward, samples@.take(i as int)),
                out@.len() == i,
                self.backward == filter_final_state(old(self).backward, samples@.take(i as int)),
                self.forward == old(self).forward,
                self.specification == old(self).specification,
            decreases samples@.len() - i,
        {
            let x: u32 = samples[i];
            let ghost st_i = self.backward;
            let y: u32 = self.backward.step(x);
            out.push(y);
            proof {
                lemma_one_more_step(old(self).backward, st_i, samples@, i as int);
            }
            i = i + 1;
        }
        proof {
            assert(samples@.take(samples@.len() as int) =~= samples@);
        }
        out
    }
}

} // verus!
