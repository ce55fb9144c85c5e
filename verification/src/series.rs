//! The numeric series fed to every filter: a tagged vector of samples held
//! either as single-precision bit patterns or as 32-bit signed integers.
//! All downstream components operate on one canonical form, the
//! single-precision view, obtained by widening integer samples.

use vstd::prelude::*;
use crate::float_ops::{f32_of_i32, single_of_i32};

verus! {

/// A vector of samples, as single-precision bit patterns (`FloatVec`) or as
/// plain integers (`IntVec`).
pub enum RawData {
    FloatVec(Vec<u32>),
    IntVec(Vec<i32>),
}

impl RawData {
    /// Number of samples held.
    pub open spec fn spec_len(self) -> nat {
        match self {
            RawData::FloatVec(v) => v@.len(),
            RawData::IntVec(v) => v@.len(),
        }
    }

    /// The canonical single-precision view: float samples unchanged,
    /// integer samples converted to the nearest single-precision value.
    pub open spec fn float_view(self) -> Seq<u32> {
        match self {
            RawData::FloatVec(v) => v@,
            RawData::IntVec(v) => v@.map_values(|i: i32| single_of_i32(i)),
        }
    }

    /// Wraps a vector of single-precision bit patterns.
    pub fn new_float_vector(vector: Vec<u32>) -> (r: Self)
        ensures
            r == (RawData::FloatVec(vector)),
    {
        RawData::FloatVec(vector)
    }

    /// Wraps a vector of integers.
    pub fn new_int_vector(vector: Vec<i32>) -> (r: Self)
        ensures
            r == (RawData::IntVec(vector)),
    {
        RawData::IntVec(vector)
    }

    /// Returns a fresh vector holding the single-precision view.
    pub fn return_vector_clone(&self) -> (r: Vec<u32>)
        ensures
            r@ == self.float_view(),
    {
        match self {
            RawData::FloatVec(vector) => {
                let mut out: Vec<u32> = Vec::new();
                let mut i: usize = 0;
                while i < vector.len()
                    invariant
                        i <= vector@.len(),
                        out@ == vector@.take(i as int),
                    decreases vector@.len() - i,
                {
                    out.push(vector[i]);
                    i = i + 1;
                }
                proof {
                    assert(vector@.take(vector@.len() as int) =~= vector@);
                }
                out
            },
            RawData::IntVec(vector) => {
                let mut out: Vec<u32> = Vec::new();
                let mut i: usize = 0;
                while i < vector.len()
                    invariant
                        i <= vector@.len(),
                        out@ == vector@.take(i as int).map_values(|x: i32| single_of_i32(x)),
                    decreases vector@.len() - i,
                {
                    out.push(f32_of_i32(vector[i]));
                    proof {
                        assert(vector@.take(i + 1 as int) =~= vector@.take(i as int).push(
                            vector@[i as int],
                        ));
                        assert(vector@.take(i + 1 as int).map_values(|x: i32| single_of_i32(x))
                            =~= vector@.take(i as int).map_values(|x: i32| single_of_i32(x)).push(
                            single_of_i32(vector@[i as int]),
                        ));
                    }
                    i = i + 1;
                }
                proof {
                    assert(vector@.take(vector@.len() as int) =~= vector@);
                }
                out
            },
        }
    }
}

} // verus!
