//! Statistics over a series: mean, normalizations, z-scores, extrema.
//!
//! Results are single-precision bit patterns; every value returned is
//! rounded to three decimal places, by `round(x * 1000) / 1000` in
//! single precision with ties away from zero.  Integer sums are carried
//! exactly in wide integers before the one conversion to single
//! precision, so they cannot overflow.  The
//! square root is evaluated by a fixed-length double-precision Newton
//! iteration rounded back to single precision.

use vstd::prelude::*;
use crate::coefficients::{BITS64_TWO};
use crate::float_bits::{f32_is_nan, f32_is_zero, f32_num_lt, f32_eq, f32_lt};
use crate::float_ops::{
    single_add,
    single_sub,
    single_mul,
    single_div,
    single_round_half_away,
    single_of_i32,
    single_of_i128,
    single_of_usize,
    single_of_double,
    double_add,
    double_div,
    double_of_single,
    f32_add,
    f32_sub,
    f32_mul,
    f32_div,
    f32_round_half_away,
    f32_of_i32,
    f32_of_i128,
    f32_of_usize,
    f32_of_f64,
    f64_add,
    f64_div,
    f64_of_f32,
};
use crate::series::RawData;

verus! {

/// Single-precision 1000.0, the three-decimal rounding scale.
pub const BITS_THOUSAND: u32 = 0x447a_0000;

/// Newton iterations for the square root; enough to converge from the
/// seed for every finite positive double-precision value.
pub const SQRT_ROUNDS: u64 = 100;

/// Left fold of single-precision addition, starting from `acc`: the sum a
/// sequential `sum()` over the samples computes.
pub open spec fn sum_singles_from(acc: u32, s: Seq<u32>) -> u32
    decreases s.len(),
{
    if s.len() == 0 {
        acc
    } else {
        sum_singles_from(single_add(acc, s[0]), s.skip(1))
    }
}

/// Sum of the samples from positive zero.
pub open spec fn spec_sum_singles(s: Seq<u32>) -> u32 {
    sum_singles_from(0, s)
}

/// Exact integer sum of a sequence of samples.
pub open spec fn sum_ints(s: Seq<i32>) -> int
    decreases s.len(),
{
    if s.len() == 0 {
        0int
    } else {
        sum_ints(s.take(s.len() - 1)) + s[s.len() - 1]
    }
}

/// Three-decimal rounding: `round(x * 1000) / 1000` in single precision.
pub open spec fn spec_round3(x: u32) -> u32 {
    single_div(single_round_half_away(single_mul(x, BITS_THOUSAND)), BITS_THOUSAND)
}

/// One Newton refinement toward `sqrt(w)`: `s' = (s + w/s) / 2`.
pub open spec fn sqrt_iter(w: u64, s: u64) -> u64 {
    double_div(double_add(s, double_div(w, s)), BITS64_TWO)
}

/// The Newton iterate after `k` refinements from the seed `w` itself.
pub open spec fn sqrt_state(w: u64, k: nat) -> u64
    decreases k,
{
    if k == 0 {
        w
    } else {
        sqrt_iter(w, sqrt_state(w, (k - 1) as nat))
    }
}

/// The single-precision square root approximation computed by this crate:
/// zero stays zero, anything else runs the double-precision iteration.
pub open spec fn spec_sqrt(v: u32) -> u32 {
    if f32_is_zero(v) {
        v
    } else {
        single_of_double(sqrt_state(double_of_single(v), SQRT_ROUNDS as nat))
    }
}

/// Newton evaluation of the square root.
pub fn sqrt32(v: u32) -> (r: u32)
    ensures
        r == spec_sqrt(v),
{
    if v & 0x7fff_ffff == 0 {
        return v;
    }
    let w: u64 = f64_of_f32(v);
    let mut s: u64 = w;
    let mut k: u64 = 0;
    while k < SQRT_ROUNDS
        invariant
            k <= SQRT_ROUNDS,
            w == double_of_single(v),
            s == sqrt_state(w, k as nat),
        decreases SQRT_ROUNDS - k,
    {
        s = f64_div(f64_add(s, f64_div(w, s)), BITS64_TWO);
        k = k + 1;
    }
    f32_of_f64(s)
}

/// The mean of the single-precision view, rounded to three decimals:
/// the sequential sum divided by the length.
pub open spec fn spec_average(data: RawData) -> u32 {
    match data {
        RawData::FloatVec(v) => spec_round3(
            single_div(spec_sum_singles(v@), single_of_usize(v@.len() as usize)),
        ),
        RawData::IntVec(v) => spec_round3(
            single_div(single_of_i128(sum_ints(v@) as i128), single_of_usize(v@.len() as usize)),
        ),
    }
}

/// First-kept fold for the minimum: the earliest sample no later sample
/// compares strictly below (NaN comparisons keep the accumulator).
pub open spec fn fold_min(acc: u32, s: Seq<u32>) -> u32
    decreases s.len(),
{
    if s.len() == 0 {
        acc
    } else {
        let next = if !f32_is_nan(acc) && !f32_is_nan(s[0]) && f32_num_lt(s[0], acc) {
            s[0]
        } else {
            acc
        };
        fold_min(next, s.skip(1))
    }
}

/// Last-kept fold for the maximum: the accumulator survives only while it
/// compares strictly above the next sample.
pub open spec fn fold_max(acc: u32, s: Seq<u32>) -> u32
    decreases s.len(),
{
    if s.len() == 0 {
        acc
    } else {
        let next = if !f32_is_nan(acc) && !f32_is_nan(s[0]) && f32_num_lt(s[0], acc) {
            acc
        } else {
            s[0]
        };
        fold_max(next, s.skip(1))
    }
}

/// No sample of the sequence is a NaN pattern.
pub open spec fn nan_free(s: Seq<u32>) -> bool {
    forall|i: int| 0 <= i < s.len() ==> !f32_is_nan(#[trigger] s[i])
}

/// No sample compares strictly below `m`.
pub open spec fn lower_bound_of(m: u32, s: Seq<u32>) -> bool {
    forall|i: int| 0 <= i < s.len() ==> !f32_num_lt(#[trigger] s[i], m)
}

/// `m` compares strictly below no sample.
pub open spec fn upper_bound_of(m: u32, s: Seq<u32>) -> bool {
    forall|i: int| 0 <= i < s.len() ==> !f32_num_lt(m, #[trigger] s[i])
}

/// `m` is one of the samples.
pub open spec fn occurs_in(m: u32, s: Seq<u32>) -> bool {
    exists|i: int| 0 <= i < s.len() && m == s[i]
}

/// Strict-order facts of the numeric comparison on non-NaN patterns:
/// asymmetry and the two transitivity forms.
pub proof fn lemma_num_lt_order(a: u32, b: u32, c: u32)
    requires
        !f32_is_nan(a),
        !f32_is_nan(b),
        !f32_is_nan(c),
    ensures
        !(f32_num_lt(a, b) && f32_num_lt(b, a)),
        f32_num_lt(a, b) && f32_num_lt(b, c) ==> f32_num_lt(a, c),
        !f32_num_lt(a, b) && !f32_num_lt(b, c) ==> !f32_num_lt(a, c),
{
}

/// On a series without NaN samples the minimum fold returns a true
/// minimum: no later sample compares below it, it does not compare below
/// the accumulator it started from, and it is the accumulator or one of
/// the samples.
pub proof fn lemma_fold_min_is_minimum(acc: u32, s: Seq<u32>)
    requires
        !f32_is_nan(acc),
        forall|i: int| 0 <= i < s.len() ==> !f32_is_nan(#[trigger] s[i]),
    ensures
        !f32_is_nan(fold_min(acc, s)),
        !f32_num_lt(acc, fold_min(acc, s)),
        forall|i: int| 0 <= i < s.len() ==> !f32_num_lt(#[trigger] s[i], fold_min(acc, s)),
        fold_min(acc, s) == acc || exists|i: int| 0 <= i < s.len() && fold_min(acc, s) == s[i],
    decreases s.len(),
{
    if s.len() > 0 {
        let next = if !f32_is_nan(acc) && !f32_is_nan(s[0]) && f32_num_lt(s[0], acc) {
            s[0]
        } else {
            acc
        };
        let m = fold_min(acc, s);
        lemma_fold_min_is_minimum(next, s.skip(1));
        assert(forall|i: int| 1 <= i < s.len() ==> s[i] == #[trigger] s.skip(1)[i - 1]);
        lemma_num_lt_order(s[0], acc, m);
        assert forall|i: int| 0 <= i < s.len() implies !f32_num_lt(#[trigger] s[i], m) by {
            if i == 0 {
                lemma_num_lt_order(s[0], acc, m);
            } else {
                assert(s[i] == s.skip(1)[i - 1]);
            }
        }
        if m != acc && m != s[0] {
            let w = choose|i: int|
                0 <= i < s.skip(1).len() && fold_min(next, s.skip(1)) == s.skip(1)[i];
            assert(m == s[w + 1]);
        }
    }
}

/// The mirror law for the maximum fold.
pub proof fn lemma_fold_max_is_maximum(acc: u32, s: Seq<u32>)
    requires
        !f32_is_nan(acc),
        forall|i: int| 0 <= i < s.len() ==> !f32_is_nan(#[trigger] s[i]),
    ensures
        !f32_is_nan(fold_max(acc, s)),
        !f32_num_lt(fold_max(acc, s), acc),
        forall|i: int| 0 <= i < s.len() ==> !f32_num_lt(fold_max(acc, s), #[trigger] s[i]),
        fold_max(acc, s) == acc || exists|i: int| 0 <= i < s.len() && fold_max(acc, s) == s[i],
    decreases s.len(),
{
    if s.len() > 0 {
        let next = if !f32_is_nan(acc) && !f32_is_nan(s[0]) && f32_num_lt(s[0], acc) {
            acc
        } else {
            s[0]
        };
        let m = fold_max(acc, s);
        lemma_fold_max_is_maximum(next, s.skip(1));
        assert(forall|i: int| 1 <= i < s.len() ==> s[i] == #[trigger] s.skip(1)[i - 1]);
        lemma_num_lt_order(m, acc, s[0]);
        lemma_num_lt_order(m, s[0], acc);
        assert forall|i: int| 0 <= i < s.len() implies !f32_num_lt(m, #[trigger] s[i]) by {
            if i == 0 {
                lemma_num_lt_order(m, next, s[0]);
            } else {
                assert(s[i] == s.skip(1)[i - 1]);
            }
        }
        if m != acc && m != s[0] {
            let w = choose|i: int|
                0 <= i < s.skip(1).len() && fold_max(next, s.skip(1)) == s.skip(1)[i];
            assert(m == s[w + 1]);
        }
    }
}

/// Mathematical utilities over a `RawData` series.
pub struct Math {}

impl Math {
    /// The arithmetic mean, rounded to three decimals.  An empty float
    /// series divides zero by zero and yields a NaN pattern, as the
    /// sequential computation does.
    pub fn average(data: &RawData) -> (r: u32)
        ensures
            r == spec_average(*data),
    {
        match data {
            RawData::FloatVec(vector) => {
                let mut acc: u32 = 0;
                let mut i: usize = 0;
                proof {
                    assert(vector@.skip(0) =~= vector@);
                }
                while i < vector.len()
                    invariant
                        i <= vector@.len(),
                        spec_sum_singles(vector@) == sum_singles_from(acc, vector@.skip(i as int)),
                    decreases vector@.len() - i,
                {
                    proof {
                        assert(vector@.skip(i as int)[0] == vector@[i as int]);
                        assert(vector@.skip(i as int).skip(1) =~= vector@.skip(i as int + 1));
                    }
                    acc = f32_add(acc, vector[i]);
                    i = i + 1;
                }
                proof {
                    assert(vector@.skip(vector@.len() as int) =~= Seq::<u32>::empty());
                }
                round3(f32_div(acc, f32_of_usize(vector.len())))
            },
            RawData::IntVec(vector) => {
                let mut acc: i128 = 0;
                let mut i: usize = 0;
                while i < vector.len()
                    invariant
                        i <= vector@.len(),
                        acc == sum_ints(vector@.take(i as int)),
                        -0x8000_0000i128 * (i as i128) <= acc <= 0x8000_0000i128 * (i as i128),
                    decreases vector@.len() - i,
                {
                    proof {
                        assert(vector@.take(i as int + 1).take(i as int) =~= vector@.take(
                            i as int,
                        ));
                    }
                    acc = acc + vector[i] as i128;
                    i = i + 1;
                }
                proof {
                    assert(vector@.take(vector@.len() as int) =~= vector@);
                }
                round3(f32_div(f32_of_i128(acc), f32_of_usize(vector.len())))
            },
        }
    }

    /// Divides every sample by the mean, rounding each quotient to three
    /// decimals; a zero mean returns the single-precision view unchanged.
    pub fn normalizing_avg(data: &RawData) -> (r: Vec<u32>)
        ensures
            f32_is_zero(spec_average(*data)) ==> r@ == data.float_view(),
            !f32_is_zero(spec_average(*data)) ==> r@ == data.float_view().map_values(
                |x: u32| spec_round3(single_div(x, spec_average(*data))),
            ),
    {
        let average: u32 = Self::average(data);
        if f32_eq(average, 0) {
            proof {
                lemma_zero_pattern_facts();
            }
            return data.return_vector_clone();
        }
        proof {
            lemma_zero_pattern_facts();
        }
        let samples: Vec<u32> = data.return_vector_clone();
        map_round3_div(&samples, average)
    }

    /// Divides every sample by the first one, rounding to three decimals;
    /// a zero first sample returns the single-precision view unchanged.
    /// An integer series divides in exact integer arithmetic, truncating
    /// toward zero, before conversion.
    pub fn normalizing_first_sample(data: &RawData) -> (r: Vec<u32>)
        requires
            data.spec_len() > 0,
            *data matches RawData::IntVec(v) ==> (v@[0] == -1 ==> forall|i: int|
                0 <= i < v@.len() ==> v@[i] != i32::MIN),
        ensures
            match *data {
                RawData::FloatVec(v) => {
                    if f32_is_zero(v@[0]) {
                        r@ == v@
                    } else {
                        r@ == v@.map_values(|x: u32| spec_round3(single_div(x, v@[0])))
                    }
                },
                RawData::IntVec(v) => {
                    if v@[0] == 0 {
                        r@ == data.float_view()
                    } else {
                        r@ == v@.map_values(
                            |x: i32| spec_round3(single_of_i32(trunc_div_i32(x, v@[0]))),
                        )
                    }
                },
            },
    {
        match data {
            RawData::FloatVec(vector) => {
                let first: u32 = vector[0];
                if f32_eq(first, 0) {
                    proof {
                        lemma_zero_pattern_facts();
                    }
                    return data.return_vector_clone();
                }
                proof {
                    lemma_zero_pattern_facts();
                }
                map_round3_div(vector, first)
            },
            RawData::IntVec(vector) => {
                let first: i32 = vector[0];
                if first == 0 {
                    return data.return_vector_clone();
                }
                let mut out: Vec<u32> = Vec::new();
                let mut i: usize = 0;
                while i < vector.len()
                    invariant
                        i <= vector@.len(),
                        vector@.len() > 0,
                        first == vector@[0],
                        first != 0,
                        first == -1 ==> forall|j: int| 0 <= j < vector@.len() ==> vector@[j]
                            != i32::MIN,
                        out@ == vector@.take(i as int).map_values(
                            |x: i32| spec_round3(single_of_i32(trunc_div_i32(x, vector@[0]))),
                        ),
                    decreases vector@.len() - i,
                {
                    let x: i32 = vector[i];
                    let q: i32 = divide_trunc(x, first);
                    out.push(round3(f32_of_i32(q)));
                    proof {
                        let f = |x: i32| spec_round3(single_of_i32(trunc_div_i32(x, vector@[0])));
                        assert(vector@.take(i as int + 1) =~= vector@.take(i as int).push(
                            vector@[i as int],
                        ));
                        assert(vector@.take(i as int + 1).map_values(f) =~= vector@.take(
                            i as int,
                        ).map_values(f).push(f(vector@[i as int])));
                    }
                    i = i + 1;
                }
                proof {
                    assert(vector@.take(vector@.len() as int) =~= vector@);
                }
                out
            },
        }
    }

    /// The z-score of every sample against the rounded mean and the
    /// population standard deviation, each score rounded to three
    /// decimals; a zero standard deviation returns the view unchanged.
    pub fn calculate_zscore(data: &RawData) -> (r: Vec<u32>)
        ensures
            ({
                let view = data.float_view();
                let mean = spec_average(*data);
                let sd = spec_sqrt(spec_variance(view, mean));
                if f32_is_zero(sd) {
                    r@ == view
                } else {
                    r@ == view.map_values(
                        |x: u32| spec_round3(single_div(single_sub(x, mean), sd)),
                    )
                }
            }),
    {
        let mean: u32 = Self::average(data);
        let samples: Vec<u32> = data.return_vector_clone();
        let ghost view = samples@;
        let mut acc: u32 = 0;
        let mut i: usize = 0;
        proof {
            assert(view.map_values(|x: u32| sq_dev(x, mean)).skip(0) =~= view.map_values(
                |x: u32| sq_dev(x, mean),
            ));
        }
        while i < samples.len()
            invariant
                i <= samples@.len(),
                samples@ == view,
                spec_sum_singles(view.map_values(|x: u32| sq_dev(x, mean))) == sum_singles_from(
                    acc,
                    view.map_values(|x: u32| sq_dev(x, mean)).skip(i as int),
                ),
            decreases samples@.len() - i,
        {
            proof {
                let m = view.map_values(|x: u32| sq_dev(x, mean));
                assert(m.skip(i as int)[0] == m[i as int]);
                assert(m.skip(i as int).skip(1) =~= m.skip(i as int + 1));
            }
            let d: u32 = f32_sub(samples[i], mean);
            acc = f32_add(acc, f32_mul(d, d));
            i = i + 1;
        }
        proof {
            let m = view.map_values(|x: u32| sq_dev(x, mean));
            assert(m.skip(m.len() as int) =~= Seq::<u32>::empty());
        }
        let variance: u32 = f32_div(acc, f32_of_usize(samples.len()));
        let sd: u32 = sqrt32(variance);
        if f32_eq(sd, 0) {
            proof {
                lemma_zero_pattern_facts();
            }
            return samples;
        }
        proof {
            lemma_zero_pattern_facts();
        }
        let mut out: Vec<u32> = Vec::new();
        let mut i: usize = 0;
        while i < samples.len()
            invariant
                i <= samples@.len(),
                samples@ == view,
                out@ == view.take(i as int).map_values(
                    |x: u32| spec_round3(single_div(single_sub(x, mean), sd)),
                ),
                sd == spec_sqrt(spec_variance(view, mean)),
                !f32_is_zero(sd),
            decreases samples@.len() - i,
        {
            out.push(round3(f32_div(f32_sub(samples[i], mean), sd)));
            proof {
                let f = |x: u32| spec_round3(single_div(single_sub(x, mean), sd));
                assert(view.take(i as int + 1) =~= view.take(i as int).push(view[i as int]));
                assert(view.take(i as int + 1).map_values(f) =~= view.take(i as int).map_values(
                    f,
                ).push(f(view[i as int])));
            }
            i = i + 1;
        }
        proof {
            assert(view.take(view.len() as int) =~= view);
        }
        out
    }

    /// A two-element vector `[minimum, maximum]` of the view, by the
    /// sequential folds that keep the first minimum and the last maximum;
    /// NaN samples never displace the running value.
    pub fn min_and_max(data: &RawData) -> (r: Vec<u32>)
        requires
            data.spec_len() > 0,
        ensures
            ({
                let view = data.float_view();
                r@ == seq![
                    fold_min(view[0], view.skip(1)),
                    fold_max(view[0], view.skip(1)),
                ]
            }),
            nan_free(data.float_view()) ==> lower_bound_of(r@[0], data.float_view()) && occurs_in(
                r@[0],
                data.float_view(),
            ) && upper_bound_of(r@[1], data.float_view()) && occurs_in(r@[1], data.float_view()),
    {
        let samples: Vec<u32> = data.return_vector_clone();
        let ghost view = samples@;
        let mut min_acc: u32 = samples[0];
        let mut max_acc: u32 = samples[0];
        let mut i: usize = 1;
        while i < samples.len()
            invariant
                1 <= i <= samples@.len(),
                samples@ == view,
                view.len() > 0,
                fold_min(view[0], view.skip(1)) == fold_min(min_acc, view.skip(i as int)),
                fold_max(view[0], view.skip(1)) == fold_max(max_acc, view.skip(i as int)),
            decreases samples@.len() - i,
        {
            proof {
                assert(view.skip(i as int)[0] == view[i as int]);
                assert(view.skip(i as int).skip(1) =~= view.skip(i as int + 1));
            }
            let x: u32 = samples[i];
            if f32_lt(x, min_acc) {
                min_acc = x;
            }
            if f32_lt(x, max_acc) {
            } else {
                max_acc = x;
            }
            i = i + 1;
        }
        proof {
            assert(view.skip(view.len() as int) =~= Seq::<u32>::empty());
            if nan_free(view) {
                assert(forall|j: int|
                    0 <= j < view.skip(1).len() ==> #[trigger] view.skip(1)[j] == view[j + 1]);
                lemma_fold_min_is_minimum(view[0], view.skip(1));
                lemma_fold_max_is_maximum(view[0], view.skip(1));
                let mn = fold_min(view[0], view.skip(1));
                let mx = fold_max(view[0], view.skip(1));
                assert forall|i: int| 0 <= i < view.len() implies !f32_num_lt(
                    #[trigger] view[i],
                    mn,
                ) by {
                    if i >= 1 {
                        assert(view[i] == view.skip(1)[i - 1]);
                    }
                }
                assert forall|i: int| 0 <= i < view.len() implies !f32_num_lt(
                    mx,
                    #[trigger] view[i],
                ) by {
                    if i >= 1 {
                        assert(view[i] == view.skip(1)[i - 1]);
                    }
                }
                if mn != view[0] {
                    let w = choose|j: int|
                        0 <= j < view.skip(1).len() && mn == view.skip(1)[j];
                    assert(mn == view[w + 1]);
                }
                if mx != view[0] {
                    let w = choose|j: int|
                        0 <= j < view.skip(1).len() && mx == view.skip(1)[j];
                    assert(mx == view[w + 1]);
                }
            }
        }
        let mut out: Vec<u32> = Vec::new();
        out.push(min_acc);
        out.push(max_acc);
        out
    }
}

/// Truncating 32-bit signed division, the division the `/` operator
/// performs on integers: the quotient of the magnitudes, negated when the
/// signs differ.
pub open spec fn trunc_div_i32(a: i32, b: i32) -> i32
    recommends
        b != 0,
        !(a == i32::MIN && b == -1),
{
    let qa = if a < 0 {
        -(a as int)
    } else {
        a as int
    };
    let qb = if b < 0 {
        -(b as int)
    } else {
        b as int
    };
    if (a < 0) == (b < 0) {
        (qa / qb) as i32
    } else {
        (-(qa / qb)) as i32
    }
}

/// Truncating signed division through unsigned division of the
/// magnitudes.
fn divide_trunc(a: i32, b: i32) -> (q: i32)
    requires
        b != 0,
        !(a == i32::MIN && b == -1),
    ensures
        q == trunc_div_i32(a, b),
{
    let wa: i64 = a as i64;
    let wb: i64 = b as i64;
    let ma: u64 = if wa < 0 {
        (-wa) as u64
    } else {
        wa as u64
    };
    let mb: u64 = if wb < 0 {
        (-wb) as u64
    } else {
        wb as u64
    };
    let mq: u64 = ma / mb;
    proof {
        vstd::arithmetic::div_mod::lemma_div_nonincreasing(ma as int, mb as int);
        if mb >= 2 {
            vstd::arithmetic::div_mod::lemma_div_is_ordered_by_denominator(
                ma as int,
                2,
                mb as int,
            );
        }
    }
    if (a < 0) == (b < 0) {
        mq as i32
    } else {
        (-(mq as i64)) as i32
    }
}

/// The squared deviation of a sample from the mean, in single precision.
pub open spec fn sq_dev(x: u32, mean: u32) -> u32 {
    single_mul(single_sub(x, mean), single_sub(x, mean))
}

/// The population variance of the view against a given mean.
pub open spec fn spec_variance(view: Seq<u32>, mean: u32) -> u32 {
    single_div(
        spec_sum_singles(view.map_values(|x: u32| sq_dev(x, mean))),
        single_of_usize(view.len() as usize),
    )
}

/// The zero pattern is zero, not NaN; numeric equality with it is the
/// zero test.
proof fn lemma_zero_pattern_facts()
    ensures
        !f32_is_nan(0),
        f32_is_zero(0),
        forall|a: u32| #[trigger] f32_is_zero(a) ==> !f32_is_nan(a),
        forall|a: u32|
            (!f32_is_nan(a) && crate::float_bits::f32_num_eq(a, 0)) == f32_is_zero(a),
{
    assert((0u32 >> 23) & 0xff == 0 && 0u32 & 0x7f_ffff == 0 && 0u32 & 0x7fff_ffff == 0)
        by (bit_vector);
    assert forall|a: u32| #[trigger] f32_is_zero(a) implies !f32_is_nan(a) by {
        assert(a & 0x7fff_ffff == 0 ==> (a >> 23) & 0xff != 0xff) by (bit_vector);
    }
    assert forall|a: u32| (!f32_is_nan(a) && crate::float_bits::f32_num_eq(a, 0))
        == f32_is_zero(a) by {
        assert(a & 0x7fff_ffff == 0 ==> (a >> 23) & 0xff != 0xff) by (bit_vector);
    }
}

/// Rounds to three decimal places.
fn round3(x: u32) -> (r: u32)
    ensures
        r == spec_round3(x),
{
    f32_div(f32_round_half_away(f32_mul(x, BITS_THOUSAND)), BITS_THOUSAND)
}

/// Divides every sample by `d` and rounds to three decimals.
fn map_round3_div(samples: &Vec<u32>, d: u32) -> (r: Vec<u32>)
    ensures
        r@ == samples@.map_values(|x: u32| spec_round3(single_div(x, d))),
{
    let mut out: Vec<u32> = Vec::new();
    let mut i: usize = 0;
    while i < samples.len()
        invariant
            i <= samples@.len(),
            out@ == samples@.take(i as int).map_values(
                |x: u32| spec_round3(single_div(x, d)),
            ),
        decreases samples@.len() - i,
    {
        out.push(round3(f32_div(samples[i], d)));
        proof {
            let f = |x: u32| spec_round3(single_div(x, d));
            assert(samples@.take(i as int + 1) =~= samples@.take(i as int).push(
                samples@[i as int],
            ));
            assert(samples@.take(i as int + 1).map_values(f) =~= samples@.take(
                i as int,
            ).map_values(f).push(f(samples@[i as int])));
        }
        i = i + 1;
    }
    proof {
        assert(samples@.take(samples@.len() as int) =~= samples@);
    }
    out
}

} // verus!
