//! Frame segmentation for windowed analysis.
//!
//! `windowing` splits the single-precision view of a series into
//! consecutive frames of a given length; the last frame keeps whatever
//! remains.  The window shapes themselves (Hann, Hamming, and the rest)
//! are the business of an external window-function library operating on
//! floating-point values and are applied by the program embedding this
//! crate.

use vstd::prelude::*;
use vstd::arithmetic::div_mod::lemma_fundamental_div_mod;
use vstd::arithmetic::mul::{
    lemma_mul_inequality,
    lemma_mul_is_commutative,
    lemma_mul_is_distributive_add_other_way,
};
use crate::series::RawData;

verus! {

/// Frame `k` of `s` under frame length `inc`: `inc` samples, or the
/// remainder for the last frame.
pub open spec fn spec_frame(s: Seq<u32>, inc: int, k: int) -> Seq<u32> {
    if (k + 1) * inc <= s.len() {
        s.subrange(k * inc, (k + 1) * inc)
    } else {
        s.subrange(k * inc, s.len() as int)
    }
}

/// Windowing facade over a `RawData` series.
pub struct Windowing {}

impl Windowing {
    /// Splits the view into frames of `increment` samples; the last
    /// frame may be shorter.
    pub fn windowing(frame: &RawData, increment: i32) -> (r: Vec<Vec<u32>>)
        requires
            increment >= 1,
        ensures
            ({
                let view = frame.float_view();
                let inc = increment as int;
                &&& r@.len() == (if view.len() == 0 {
                    0int
                } else {
                    (view.len() - 1) as int / inc + 1
                })
                &&& forall|k: int| 0 <= k < r@.len() ==> r@[k]@ == spec_frame(view, inc, k)
            }),
    {
        let inc: usize = increment as usize;
        let samples: Vec<u32> = frame.return_vector_clone();
        let ghost view = samples@;
        let mut out: Vec<Vec<u32>> = Vec::new();
        if samples.len() == 0 {
            return out;
        }
        let n: usize = (samples.len() - 1) / inc + 1;
        proof {
            lemma_fundamental_div_mod(view.len() as int - 1, inc as int);
            lemma_mul_is_commutative(inc as int, n as int - 1);
        }
        let mut k: usize = 0;
        let mut base: usize = 0;
        while k < n
            invariant
                k <= n,
                inc >= 1,
                view.len() > 0,
                n == (view.len() - 1) as int / inc as int + 1,
                ((n - 1) * inc) as int <= view.len() - 1,
                k < n ==> base as int == k * inc as int,
                samples@ == view,
                out@.len() == k,
                forall|t: int| 0 <= t < k ==> out@[t]@ == spec_frame(view, inc as int, t),
            decreases n - k,
        {
            proof {
                lemma_mul_is_distributive_add_other_way(inc as int, k as int, 1);
                vstd::arithmetic::mul::lemma_mul_basics(inc as int);
                lemma_mul_inequality(k as int, n as int - 1, inc as int);
            }
            let stop: usize = if samples.len() - base < inc {
                samples.len()
            } else {
                base + inc
            };
            let mut piece: Vec<u32> = Vec::new();
            let mut j: usize = base;
            while j < stop
                invariant
                    base <= j <= stop <= view.len(),
                    samples@ == view,
                    piece@ == view.subrange(base as int, j as int),
                decreases stop - j,
            {
                piece.push(samples[j]);
                proof {
                    assert(view.subrange(base as int, j as int + 1) =~= view.subrange(
                        base as int,
                        j as int,
                    ).push(view[j as int]));
                }
                j = j + 1;
            }
            proof {
                assert(piece@ =~= spec_frame(view, inc as int, k as int));
            }
            out.push(piece);
            k = k + 1;
            if k < n {
                proof {
                    lemma_mul_inequality(k as int, n as int - 1, inc as int);
                }
                base = base + inc;
            }
        }
        out
    }
}

} // verus!
