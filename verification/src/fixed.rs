//! Q16.16 fixed-point arithmetic: the numeric ground the whole core stands on.
//!
//! A value `v` represents the real number `v / FX_ONE`. Gains are non-negative
//! multipliers, samples are signed. Every operation here is exact integer
//! arithmetic with floor rounding, so contracts can pin results down to the
//! last unit.

use vstd::prelude::*;
use vstd::arithmetic::div_mod::lemma_div_is_ordered;
use vstd::arithmetic::div_mod::lemma_div_multiples_vanish;
use vstd::arithmetic::div_mod::lemma_div_by_multiple;

verus! {

/// Fixed-point one: the denominator of the Q16.16 representation.
pub const FX_ONE: i64 = 65536;

/// Fixed-point one quarter, the ratio the peak meter must fall to (-12 dB)
/// within its decay window.
pub const FX_QUARTER: i64 = 16384;

/// Largest gain multiplier the core accepts (32.0, a bit above +30 dB).
pub const GAIN_LIMIT: i64 = 32 * 65536;

/// Largest magnitude an incoming sample may have.
pub const SAMPLE_LIMIT: i64 = 1099511627776;

/// Largest magnitude a processed sample or amplitude can reach:
/// `SAMPLE_LIMIT * GAIN_LIMIT / FX_ONE`.
pub const AMP_LIMIT: i64 = 35184372088832;

/// Mathematical product of a signed fixed-point value and a non-negative one,
/// rounded toward zero (floor on the magnitude).
pub open spec fn fx_mul_spec(a: int, b: int) -> int {
    if a >= 0 {
        (a * b) / (FX_ONE as int)
    } else {
        -(((-a) * b) / (FX_ONE as int))
    }
}

/// Mathematical convex combination `(c*w + t*(FX_ONE - w)) / FX_ONE`,
/// the single fused update used by both the smoother and the meter release.
pub open spec fn fx_lerp_spec(c: int, t: int, w: int) -> int {
    (c * w + t * (FX_ONE - w)) / (FX_ONE as int)
}

/// Multiply a signed sample by a non-negative gain, Q16.16.
pub fn fx_mul(a: i64, b: i64) -> (r: i64)
    requires
        -SAMPLE_LIMIT <= a <= SAMPLE_LIMIT,
        0 <= b <= GAIN_LIMIT,
    ensures
        r == fx_mul_spec(a as int, b as int),
        -AMP_LIMIT <= r <= AMP_LIMIT,
{
    let neg: bool = a < 0;
    let mag: i64 = if neg {
        -a
    } else {
        a
    };
    assert((mag as int) * (b as int) <= (SAMPLE_LIMIT as int) * (GAIN_LIMIT as int))
        by (nonlinear_arith)
        requires
            0 <= mag <= SAMPLE_LIMIT,
            0 <= b <= GAIN_LIMIT,
    ;
    assert(0 <= (mag as int) * (b as int)) by (nonlinear_arith)
        requires
            0 <= mag,
            0 <= b,
    ;
    let prod: u128 = (mag as u128) * (b as u128);
    let q: u128 = prod / (FX_ONE as u128);
    proof {
        lemma_div_is_ordered(
            prod as int,
            (SAMPLE_LIMIT as int) * (GAIN_LIMIT as int),
            FX_ONE as int,
        );
        assert((SAMPLE_LIMIT as int) * (GAIN_LIMIT as int) / (FX_ONE as int) == AMP_LIMIT);
    }
    let qi: i64 = q as i64;
    if neg {
        -qi
    } else {
        qi
    }
}

/// Fused update `(c*w + t*(FX_ONE - w)) / FX_ONE` on non-negative values.
/// The result always lies between `c` and `t`, which is what makes the
/// smoother monotonic and overshoot-free.
pub fn fx_lerp(c: i64, t: i64, w: i64) -> (r: i64)
    requires
        0 <= c <= AMP_LIMIT,
        0 <= t <= AMP_LIMIT,
        0 <= w <= FX_ONE,
    ensures
        r == fx_lerp_spec(c as int, t as int, w as int),
        c <= t ==> c <= r <= t,
        t <= c ==> t <= r <= c,
{
    proof {
        lemma_fx_lerp_bounds(c as int, t as int, w as int);
    }
    assert((c as int) * (w as int) + (t as int) * ((FX_ONE - w) as int) <= (AMP_LIMIT as int) * (
    FX_ONE as int)) by (nonlinear_arith)
        requires
            0 <= c <= AMP_LIMIT,
            0 <= t <= AMP_LIMIT,
            0 <= w <= FX_ONE,
    ;
    assert(0 <= (c as int) * (w as int) && 0 <= (t as int) * ((FX_ONE - w) as int))
        by (nonlinear_arith)
        requires
            0 <= c,
            0 <= t,
            0 <= w <= FX_ONE,
    ;
    let num: u128 = (c as u128) * (w as u128) + (t as u128) * ((FX_ONE - w) as u128);
    let q: u128 = num / (FX_ONE as u128);
    q as i64
}

/// Mathematical `n`-th power in Q16.16, with floor rounding after each
/// multiplication, exactly as the executable loop computes it.
pub open spec fn fx_pow_spec(r: int, n: nat) -> int
    decreases n,
{
    if n == 0 {
        FX_ONE as int
    } else {
        fx_pow_spec(r, (n - 1) as nat) * r / (FX_ONE as int)
    }
}

/// Every power of fixed-point one is fixed-point one.
pub proof fn lemma_fx_pow_one(n: nat)
    ensures
        fx_pow_spec(FX_ONE as int, n) == FX_ONE as int,
    decreases n,
{
    if n > 0 {
        lemma_fx_pow_one((n - 1) as nat);
        lemma_div_by_multiple(FX_ONE as int, FX_ONE as int);
    }
}

/// `n`-th power of a ratio in [0, 1], Q16.16.
pub fn fx_pow(r: i64, n: u64) -> (p: i64)
    requires
        0 <= r <= FX_ONE,
    ensures
        p == fx_pow_spec(r as int, n as nat),
        0 <= p <= FX_ONE,
{
    let mut acc: i64 = FX_ONE;
    let mut i: u64 = 0;
    while i < n
        invariant
            i <= n,
            0 <= r <= FX_ONE,
            acc == fx_pow_spec(r as int, i as nat),
            0 <= acc <= FX_ONE,
        decreases n - i,
    {
        assert(0 <= (acc as int) * (r as int) <= (FX_ONE as int) * (FX_ONE as int))
            by (nonlinear_arith)
            requires
                0 <= acc <= FX_ONE,
                0 <= r <= FX_ONE,
        ;
        let next_acc: i64 = (((acc as u64) * (r as u64)) / (FX_ONE as u64)) as i64;
        proof {
            lemma_div_is_ordered(
                (acc as int) * (r as int),
                (FX_ONE as int) * (FX_ONE as int),
                FX_ONE as int,
            );
            lemma_div_is_ordered(0, (acc as int) * (r as int), FX_ONE as int);
            assert(fx_pow_spec(r as int, (i + 1) as nat) == fx_pow_spec(r as int, i as nat) * (
            r as int) / (FX_ONE as int));
        }
        acc = next_acc;
        i = i + 1;
    }
    acc
}

/// Greatest ratio whose `n`-th fixed-point power does not exceed `x`:
/// the discrete `n`-th root. The two-sided power bracket in the contract
/// pins the result exactly.
pub fn fx_root(x: i64, n: u64) -> (r: i64)
    requires
        0 <= x < FX_ONE,
        n >= 1,
    ensures
        0 <= r < FX_ONE,
        fx_pow_spec(r as int, n as nat) <= x,
        x < fx_pow_spec(r as int + 1, n as nat),
{
    let mut lo: u64 = 0;
    let mut hi: u64 = FX_ONE as u64;
    proof {
        assert(fx_pow_spec(0, n as nat) == fx_pow_spec(0, (n - 1) as nat) * 0 / (FX_ONE as int));
        lemma_fx_pow_one(n as nat);
    }
    while hi - lo > 1
        invariant
            lo < hi <= FX_ONE as u64,
            n >= 1,
            0 <= x < FX_ONE,
            fx_pow_spec(lo as int, n as nat) <= x,
            x < fx_pow_spec(hi as int, n as nat),
        decreases hi - lo,
    {
        let mid: u64 = lo + (hi - lo) / 2;
        let p: i64 = fx_pow(mid as i64, n);
        if p <= x {
            lo = mid;
        } else {
            hi = mid;
        }
    }
    lo as i64
}

/// The convex combination of two values lies between them.
pub proof fn lemma_fx_lerp_bounds(c: int, t: int, w: int)
    requires
        0 <= c,
        0 <= t,
        0 <= w <= FX_ONE,
    ensures
        c <= t ==> c <= fx_lerp_spec(c, t, w) <= t,
        t <= c ==> t <= fx_lerp_spec(c, t, w) <= c,
{
    let s = FX_ONE as int;
    let num = c * w + t * (s - w);
    assert(c <= t ==> s * c <= num && num <= s * t) by (nonlinear_arith)
        requires
            0 <= c,
            0 <= t,
            0 <= w <= s,
            num == c * w + t * (s - w),
    ;
    assert(t <= c ==> s * t <= num && num <= s * c) by (nonlinear_arith)
        requires
            0 <= c,
            0 <= t,
            0 <= w <= s,
            num == c * w + t * (s - w),
    ;
    lemma_div_multiples_vanish(c, s);
    lemma_div_multiples_vanish(t, s);
    if c <= t {
        lemma_div_is_ordered(s * c, num, s);
        lemma_div_is_ordered(num, s * t, s);
    } else {
        lemma_div_is_ordered(s * t, num, s);
        lemma_div_is_ordered(num, s * c, s);
    }
}

} // verus!
