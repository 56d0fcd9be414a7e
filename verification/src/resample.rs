//! Deterministic linear-interpolation sample-rate converter between the
//! device rate and the fixed target rate. Equal rates are an identity;
//! otherwise each output sample interpolates between the two source samples
//! around the exact rational source position, with the final source index
//! clamped to stay in bounds. Intentionally a cheap converter: the only
//! consumers are energy detectors and inference models that tolerate minor
//! aliasing.

use vstd::prelude::*;
use vstd::arithmetic::div_mod::{
    lemma_fundamental_div_mod, lemma_div_pos_is_pos, lemma_div_is_ordered,
    lemma_multiply_divide_le, lemma_hoist_over_denominator, lemma_remainder_lower,
    lemma_mod_division_less_than_divisor,
};
use vstd::arithmetic::mul::{lemma_mul_inequality, lemma_mul_is_distributive_sub_other_way};

verus! {

/// Number of output samples when converting `len` source samples.
pub open spec fn resample_len(len: int, from: int, to: int) -> int {
    if from == to {
        len
    } else {
        len * to / from
    }
}

/// The interpolated value of output index `i`: the exact source position is
/// the rational `i * from / to`; the sample is interpolated linearly between
/// the samples at its floor and its successor (clamped to the last index),
/// rounding the result down.
pub open spec fn interp_at(s: Seq<i16>, from: int, to: int, i: int) -> int {
    let num = i * from;
    let idx = num / to;
    let rem = num % to;
    let idx1 = if idx + 1 < s.len() {
        idx + 1
    } else {
        s.len() - 1
    };
    (s[idx] * (to - rem) + s[idx1] * rem) / to
}

/// The converted sequence: the input itself for equal rates, otherwise the
/// interpolated samples.
pub open spec fn resampled(s: Seq<i16>, from: int, to: int) -> Seq<i16> {
    if from == to {
        s
    } else {
        Seq::new((s.len() * to / from) as nat, |i: int| interp_at(s, from, to, i) as i16)
    }
}

/// Converts `samples` from `from_rate` to `to_rate`. Equal rates return the
/// input unchanged (the identity, for any rate).
pub fn resample(samples: &Vec<i16>, from_rate: u32, to_rate: u32) -> (r: Vec<i16>)
    requires
        from_rate > 0,
        to_rate > 0,
        samples@.len() * to_rate <= usize::MAX,
    ensures
        r@ == resampled(samples@, from_rate as int, to_rate as int),
        from_rate == to_rate ==> r@ == samples@,
{
    let len = samples.len();
    if from_rate == to_rate {
        let mut copy: Vec<i16> = Vec::new();
        let mut i: usize = 0;
        while i < len
            invariant
                len == samples@.len(),
                i <= len,
                copy@ == samples@.subrange(0, i as int),
            decreases len - i,
        {
            copy.push(samples[i]);
            proof {
                assert(copy@ =~= samples@.subrange(0, i + 1));
            }
            i = i + 1;
        }
        proof {
            assert(copy@ =~= samples@);
        }
        return copy;
    }

    let ghost fr = from_rate as int;
    let ghost tr = to_rate as int;
    proof {
        lemma_mul_inequality(len as int, usize::MAX as int, tr);
        assert(len * to_rate <= usize::MAX);
    }
    let prod: usize = len * (to_rate as usize);
    let new_len: usize = prod / (from_rate as usize);
    proof {
        lemma_div_pos_is_pos(len * tr, fr);
    }

    let mut result: Vec<i16> = Vec::new();
    let mut i: usize = 0;
    while i < new_len
        invariant
            len == samples@.len(),
            from_rate > 0,
            to_rate > 0,
            from_rate != to_rate,
            fr == from_rate as int,
            tr == to_rate as int,
            len * tr <= usize::MAX,
            new_len == len * tr / fr,
            i <= new_len,
            result@.len() == i,
            forall|k: int|
                0 <= k < i ==> result@[k] == interp_at(samples@, fr, tr, k) as i16,
        decreases new_len - i,
    {
        proof {
            // i * from stays below len * to, so the floor index is in bounds
            lemma_mul_inequality(i + 1, new_len as int, fr);
            lemma_remainder_lower(len * tr, fr);
            assert((i + 1) * fr == i * fr + fr) by (nonlinear_arith);
            assert(i * fr + fr <= len * tr);
            lemma_div_is_ordered(i * fr, len * tr - fr, tr);
            assert(len * tr - fr <= len * tr - 1);
            lemma_div_is_ordered(len * tr - fr, len * tr - 1, tr);
            assert(len * tr - 1 == tr * (len - 1) + (tr - 1)) by (nonlinear_arith);
            vstd::arithmetic::div_mod::lemma_fundamental_div_mod_converse_div(
                len * tr - 1, tr, len - 1, tr - 1);
            assert((len * tr - 1) / tr == len - 1);
            lemma_div_pos_is_pos(i * fr, tr);
            lemma_mod_division_less_than_divisor(i * fr, tr);
        }
        let num: u64 = (i as u64) * (from_rate as u64);
        proof {
            assert(num == i * fr);
        }
        let idx: usize = (num / (to_rate as u64)) as usize;
        let rem: u64 = num % (to_rate as u64);
        assert(idx == (i * fr) / tr && idx < len);
        assert(rem == (i * fr) % tr && rem < tr);
        let idx1: usize = if idx + 1 < len {
            idx + 1
        } else {
            len - 1
        };
        // interpolate on values offset into [0, 65536) so that the division
        // is the same floor division the specification uses
        let lo: u64 = (samples[idx] as i64 + 32768) as u64;
        let hi: u64 = (samples[idx1] as i64 + 32768) as u64;
        proof {
            assert((lo as int) * (tr - rem) <= 65535 * tr
                && (hi as int) * (rem as int) <= 65535 * tr
                && 0 <= (lo as int) * (tr - rem) + (hi as int) * (rem as int) <= 65535 * tr)
                by (nonlinear_arith)
                requires
                    0 <= (lo as int) <= 65535,
                    0 <= (hi as int) <= 65535,
                    0 <= (rem as int) < tr,
            ;
            assert(65535 * tr <= 65535 * (u32::MAX as int));
        }
        let numer: u64 = lo * (to_rate as u64 - rem) + hi * rem;
        let q: u64 = numer / (to_rate as u64);
        proof {
            lemma_multiply_divide_le(numer as int, tr, 65535);
            lemma_div_pos_is_pos(numer as int, tr);
            // shifting both samples by 32768 shifts the quotient by 32768
            let x = samples@[idx as int] * (tr - rem) + samples@[idx1 as int] * rem;
            assert(numer == x + 32768 * tr) by (nonlinear_arith)
                requires
                    numer == (samples@[idx as int] + 32768) * ((tr - rem) as int)
                        + (samples@[idx1 as int] + 32768) * (rem as int),
                    x == samples@[idx as int] * ((tr - rem) as int)
                        + samples@[idx1 as int] * (rem as int),
            ;
            lemma_hoist_over_denominator(x, 32768, tr as nat);
            assert(q == x / tr + 32768);
            assert(interp_at(samples@, fr, tr, i as int) == x / tr);
        }
        let val: i16 = (q as i64 - 32768) as i16;
        result.push(val);
        proof {
            assert(val == interp_at(samples@, fr, tr, i as int));
        }
        i = i + 1;
    }
    proof {
        assert(result@ =~= resampled(samples@, fr, tr));
    }
    result
}

} // verus!
