//! Fixed-point arithmetic helpers shared by the audio modules: clamping to the
//! 16-bit sample range, division truncating toward zero (the rounding a cast
//! from a wider ratio to an integer sample performs), Q15 gain scaling, and an
//! integer square root used for RMS energy estimates.

use vstd::prelude::*;
use vstd::arithmetic::div_mod::{lemma_fundamental_div_mod, lemma_mod_division_less_than_divisor};

verus! {

/// The value `x` clamped to the representable range of an `i16`.
pub open spec fn clamp_i16(x: int) -> int {
    if x < -32768 {
        -32768
    } else if x > 32767 {
        32767
    } else {
        x
    }
}

/// Division truncating toward zero (for positive divisors), as Rust's integer
/// casts and divisions round.
pub open spec fn tdiv(a: int, b: int) -> int
    recommends
        b > 0,
{
    if a >= 0 {
        a / b
    } else {
        -((-a) / b)
    }
}

/// Computes `tdiv(a, b)` for a positive divisor.
pub fn tdiv_i64(a: i64, b: i64) -> (r: i64)
    requires
        b > 0,
        a > i64::MIN,
    ensures
        r == tdiv(a as int, b as int),
        a >= 0 ==> 0 <= r <= a,
        a < 0 ==> a <= r <= 0,
{
    if a >= 0 {
        let m: u64 = (a as u64) / (b as u64);
        m as i64
    } else {
        let neg: i64 = -a;
        let m: u64 = (neg as u64) / (b as u64);
        -(m as i64)
    }
}

/// Clamps a 64-bit value to the `i16` sample range.
pub fn clamp_sample(x: i64) -> (r: i16)
    ensures
        r == clamp_i16(x as int),
{
    if x < -32768 {
        -32768
    } else if x > 32767 {
        32767
    } else {
        x as i16
    }
}

/// Applies a Q15 gain to a sample and clamps the result to the sample range,
/// mirroring a float multiply followed by a truncating cast and a clamp.
pub open spec fn scale_q15(s: int, gain: int) -> int {
    clamp_i16(tdiv(s * gain, 32768))
}

/// Scales `s` by the Q15 gain `gain` and clamps to the sample range.
pub fn apply_gain_q15(s: i16, gain: u32) -> (r: i16)
    ensures
        r == scale_q15(s as int, gain as int),
{
    proof {
        assert((s as int) * (gain as int) <= 32768 * 0x1_0000_0000i64
            && (s as int) * (gain as int) >= -32768 * 0x1_0000_0000i64) by (nonlinear_arith)
            requires
                -32768 <= (s as int) && (s as int) <= 32767,
                0 <= (gain as int) && (gain as int) < 0x1_0000_0000i64,
        ;
    }
    let prod: i64 = (s as i64) * (gain as i64);
    let scaled: i64 = tdiv_i64(prod, 32768);
    clamp_sample(scaled)
}

/// The integer square root, defined by halving the argument's digits: the
/// root of `n` is either twice the root of `n / 4` or one more than that.
pub open spec fn isqrt_spec(n: nat) -> nat
    decreases n,
{
    if n == 0 {
        0
    } else {
        let r = isqrt_spec(n / 4);
        if (2 * r + 1) * (2 * r + 1) <= n {
            (2 * r + 1) as nat
        } else {
            2 * r
        }
    }
}

/// `isqrt_spec(n)` is the greatest integer whose square is at most `n`.
pub proof fn lemma_isqrt_bounds(n: nat)
    ensures
        isqrt_spec(n) * isqrt_spec(n) <= n,
        n < (isqrt_spec(n) + 1) * (isqrt_spec(n) + 1),
    decreases n,
{
    if n == 0 {
        assert(isqrt_spec(n) == 0);
        assert((isqrt_spec(n) + 1) * (isqrt_spec(n) + 1) == 1) by (nonlinear_arith)
            requires
                isqrt_spec(n) == 0,
        ;
    } else {
        let q = n / 4;
        let r = isqrt_spec(q);
        lemma_isqrt_bounds(q);
        lemma_fundamental_div_mod(n as int, 4);
        lemma_mod_division_less_than_divisor(n as int, 4);
        assert(4 * q <= n < 4 * q + 4);
        if (2 * r + 1) * (2 * r + 1) <= n {
            assert(isqrt_spec(n) == 2 * r + 1);
            assert(n < (2 * r + 2) * (2 * r + 2)) by (nonlinear_arith)
                requires
                    q < (r + 1) * (r + 1),
                    n < 4 * q + 4,
            ;
            assert(isqrt_spec(n) * isqrt_spec(n) <= n);
            assert(n < (isqrt_spec(n) + 1) * (isqrt_spec(n) + 1));
        } else {
            assert(isqrt_spec(n) == 2 * r);
            assert((2 * r) * (2 * r) <= n) by (nonlinear_arith)
                requires
                    r * r <= q,
                    4 * q <= n,
            ;
            assert(isqrt_spec(n) * isqrt_spec(n) <= n);
            assert(n < (isqrt_spec(n) + 1) * (isqrt_spec(n) + 1));
        }
    }
}

/// Any `r` with `r * r <= n < (r + 1) * (r + 1)` equals `isqrt_spec(n)`.
pub proof fn lemma_isqrt_unique(n: nat, r: nat)
    requires
        r * r <= n,
        n < (r + 1) * (r + 1),
    ensures
        r == isqrt_spec(n),
{
    let s = isqrt_spec(n);
    lemma_isqrt_bounds(n);
    if r < s {
        assert(false) by (nonlinear_arith)
            requires
                r < s,
                s * s <= n,
                n < (r + 1) * (r + 1),
        ;
    }
    if s < r {
        assert(false) by (nonlinear_arith)
            requires
                s < r,
                r * r <= n,
                n < (s + 1) * (s + 1),
        ;
    }
}

/// Computes the integer square root of `x` by binary search.
pub fn isqrt64(x: u64) -> (r: u32)
    ensures
        r == isqrt_spec(x as nat),
        r * r <= x,
{
    let mut lo: u64 = 0;
    let mut hi: u64 = 0x1_0000_0000;
    assert((x as int) < (hi as int) * (hi as int)) by (nonlinear_arith)
        requires
            hi == 0x1_0000_0000u64,
            x <= u64::MAX,
    ;
    while hi - lo > 1
        invariant
            lo < hi <= 0x1_0000_0000,
            (lo as int) * (lo as int) <= x,
            (x as int) < (hi as int) * (hi as int),
        decreases hi - lo,
    {
        let mid: u64 = lo + (hi - lo) / 2;
        assert(mid * mid <= u64::MAX) by (nonlinear_arith)
            requires
                mid < 0x1_0000_0000u64,
        ;
        if mid * mid <= x {
            lo = mid;
        } else {
            hi = mid;
        }
    }
    proof {
        lemma_isqrt_unique(x as nat, lo as nat);
    }
    lo as u32
}

} // verus!
