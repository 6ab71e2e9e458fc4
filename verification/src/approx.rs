//! Q16 exponential and square-root approximations for coefficient
//! computation: decibel conversion, exponential pole placement, shelf gains.

use vstd::prelude::*;
use vstd::arithmetic::div_mod::{lemma_div_is_ordered, lemma_div_multiples_vanish, lemma_div_non_zero, lemma_div_pos_is_pos};
use crate::fixed::{FRAC_ONE, lemma_abs_mul_bound, mul_q, mul_q_spec, div_q, div_q_spec};

verus! {

/// Natural log of ten in Q16.
pub const LN10_Q: i64 = 150902;

/// Q16 exponential decay `e^(-x)` as the reciprocal of the cubic series
/// `1 + x + x^2/2 + x^3/6`; zero once `x` reaches 16, where the true value
/// is below one Q16 step anyway.
pub open spec fn exp_neg_spec(x: int) -> int {
    if x >= 16 * 65536 {
        0
    } else {
        let x2 = mul_q_spec(x, x);
        let x3 = mul_q_spec(x2, x);
        let s = 65536 + x + x2 / 2 + x3 / 6;
        (65536int * 65536) / s
    }
}

/// The cubic series of `exp_neg_spec` is at least one, so the reciprocal
/// lands in `(0, 1]`.
pub proof fn lemma_exp_neg_range(x: int)
    requires
        0 <= x,
    ensures
        0 <= exp_neg_spec(x) <= 65536,
        x < 16 * 65536 ==> 1 <= exp_neg_spec(x),
{
    if x < 16 * 65536 {
        assert(0 <= x * x) by (nonlinear_arith);
        let x2 = mul_q_spec(x, x);
        lemma_div_pos_is_pos(x * x, 65536);
        assert(0 <= x2 * x) by (nonlinear_arith)
            requires 0 <= x2, 0 <= x;
        let x3 = mul_q_spec(x2, x);
        lemma_div_pos_is_pos(x2 * x, 65536);
        lemma_div_pos_is_pos(x2, 2);
        lemma_div_pos_is_pos(x3, 6);
        let s = 65536 + x + x2 / 2 + x3 / 6;
        lemma_div_pos_is_pos(65536int * 65536, s);
        lemma_div_is_ordered(65536int * 65536, s * 65536, s);
        lemma_div_multiples_vanish(65536, s);
        assert((65536int * 65536) / s >= 1) by {
            assert(x * x <= 16777216int * 65536) by (nonlinear_arith)
                requires 0 <= x < 16 * 65536;
            assert(x2 <= 16777216) by {
                lemma_div_is_ordered(x * x, 16777216int * 65536, 65536);
                lemma_div_multiples_vanish(16777216, 65536);
            }
            assert(x2 * x <= 268435456int * 65536) by (nonlinear_arith)
                requires 0 <= x2 <= 16777216, 0 <= x <= 16 * 65536;
            assert(x3 <= 268435456) by {
                lemma_div_is_ordered(x2 * x, 268435456int * 65536, 65536);
                lemma_div_multiples_vanish(268435456, 65536);
            }
            assert(s <= 65536 + 16int * 65536 + 16777216int / 2 + 268435456int / 6);
            lemma_div_non_zero(65536int * 65536, s);
        }
    }
}

pub fn exp_neg_q(x: i64) -> (r: i64)
    requires
        0 <= x,
    ensures
        r == exp_neg_spec(x as int),
        0 <= r <= 65536,
        x < 16 * 65536 ==> 1 <= r,
{
    proof {
        lemma_exp_neg_range(x as int);
    }
    if x >= 16 * FRAC_ONE {
        0
    } else {
        proof {
            assert(0 <= x as int * x <= 65536int * 65536 * 65536) by (nonlinear_arith)
                requires 0 <= x < 16 * 65536;
        }
        let x2 = mul_q(x, x);
        proof {
            lemma_div_pos_is_pos(x as int * x, 65536);
            assert(x2 <= 65536int * 65536) by {
                lemma_div_is_ordered(x as int * x, 65536int * 65536 * 65536, 65536);
                lemma_div_multiples_vanish(65536int * 65536, 65536);
            }
            assert(0 <= x2 as int * x <= 0x4000_0000_0000_0000) by (nonlinear_arith)
                requires 0 <= x2 <= 65536int * 65536, 0 <= x < 16 * 65536;
            lemma_div_pos_is_pos(x2 as int * x, 65536);
        }
        let x3 = mul_q(x2, x);
        let s = FRAC_ONE + x + x2 / 2 + x3 / 6;
        (FRAC_ONE * FRAC_ONE) / s
    }
}

/// Floor square root: the unique `r` with `r^2 <= n < (r + 1)^2`.
pub fn isqrt(n: i64) -> (r: i64)
    requires
        0 <= n < 0x4000_0000_0000,
    ensures
        0 <= r,
        r * r <= n,
        n < (r + 1) * (r + 1),
{
    let mut lo: i64 = 0;
    let mut hi: i64 = 0x800000;
    proof {
        assert(0x800000int * 0x800000 == 0x4000_0000_0000);
    }
    while hi - lo > 1
        invariant
            0 <= lo < hi <= 0x800000,
            lo * lo <= n,
            n < hi * hi,
        decreases hi - lo,
    {
        let mid = lo + (hi - lo) / 2;
        proof {
            assert(lo < mid < hi);
            assert(0 <= mid * mid <= 0x4000_0000_0000) by (nonlinear_arith)
                requires 0 <= mid <= 0x800000;
        }
        if mid * mid <= n {
            lo = mid;
        } else {
            hi = mid;
        }
    }
    lo
}

/// What it means for `r` to be the floor of the Q16 square root of `x`.
pub open spec fn sqrt_q_pred(x: int, r: int) -> bool {
    0 <= r && r * r <= x * 65536 && x * 65536 < (r + 1) * (r + 1)
}

/// The floor of the Q16 square root, as the unique value satisfying
/// `sqrt_q_pred`.
pub open spec fn sqrt_q_spec(x: int) -> int {
    choose|r: int| sqrt_q_pred(x, r)
}

/// No two values satisfy `sqrt_q_pred` for the same argument.
pub proof fn lemma_sqrt_q_unique(x: int, r: int)
    requires
        sqrt_q_pred(x, r),
    ensures
        sqrt_q_spec(x) == r,
{
    assert(exists|w: int| sqrt_q_pred(x, w)) by {
        assert(sqrt_q_pred(x, r));
    }
    let w = sqrt_q_spec(x);
    assert(sqrt_q_pred(x, w));
    if w < r {
        assert((w + 1) * (w + 1) <= r * r) by (nonlinear_arith)
            requires 0 <= w < r;
    } else if r < w {
        assert((r + 1) * (r + 1) <= w * w) by (nonlinear_arith)
            requires 0 <= r < w;
    }
}

/// Q16 square root: `isqrt` of the value raised back to the Q16 scale, so
/// the result squares (in Q16) to just below the argument.
pub fn sqrt_q(x: i64) -> (r: i64)
    requires
        0 <= x < 0x4000_0000,
    ensures
        r == sqrt_q_spec(x as int),
        0 <= r,
        r * r <= x * 65536,
        x * 65536 < (r + 1) * (r + 1),
{
    let r = isqrt(x * FRAC_ONE);
    proof {
        lemma_sqrt_q_unique(x as int, r as int);
    }
    r
}

/// Twenty times the base-ten logarithm of two, in Q16: the decibels per
/// binary order of magnitude.
pub const DB_PER_OCTAVE_Q: i64 = 394566;

/// Mantissa normalization for the logarithm: halve (raising the exponent)
/// until the value sits in one Q16 octave `[1, 2)`.
pub open spec fn log_norm_spec(m: int, k: int) -> (int, int)
    decreases (if m >= 0 { m } else { 0 }),
{
    if m >= 131072 {
        log_norm_spec(m / 2, k + 1)
    } else {
        (m, k)
    }
}

/// Base-two logarithm of a positive Q16 value, in Q16: the normalized
/// exponent plus a quadratic fit of the mantissa's fractional log.
pub open spec fn log2_q_spec(x: int) -> int {
    let n = log_norm_spec(x * 65536, 0);
    let t = n.0 - 65536;
    let lf = t + mul_q_spec(mul_q_spec(t, 65536 - t), 22675);
    (n.1 - 16) * 65536 + lf
}

pub fn log2_q(x: i64) -> (r: i64)
    requires
        1 <= x <= 0x4000_0000_0000,
    ensures
        r == log2_q_spec(x as int),
        -17 * 65536 <= r <= 64 * 65536,
{
    let mut m: i64 = x * FRAC_ONE;
    let mut k: i64 = 0;
    proof {
        vstd::arithmetic::power2::lemma2_to64();
        assert(m as int * vstd::arithmetic::power2::pow2(0) == m);
    }
    while m >= 131072
        invariant
            65536 <= m,
            0 <= k <= 62,
            log_norm_spec(m as int, k as int) == log_norm_spec(x as int * 65536, 0),
            m as int * vstd::arithmetic::power2::pow2(k as nat) <= 0x4000_0000_0000_0000,
        decreases m,
    {
        proof {
            vstd::arithmetic::power2::lemma_pow2_adds(k as nat, 1);
            vstd::arithmetic::power2::lemma2_to64();
            vstd::arithmetic::power2::lemma2_to64_rest();
            vstd::arithmetic::div_mod::lemma_fundamental_div_mod(m as int, 2);
            assert((m as int / 2) * (2 * vstd::arithmetic::power2::pow2(k as nat))
                <= m as int * vstd::arithmetic::power2::pow2(k as nat)) by (nonlinear_arith)
                requires
                    2 * (m as int / 2) <= m as int,
                    vstd::arithmetic::power2::pow2(k as nat) >= 0;
            if k + 1 > 62 {
                vstd::arithmetic::power2::lemma_pow2_strictly_increases(62, (k + 1) as nat);
                vstd::arithmetic::power2::lemma_pow2_pos((k + 1) as nat);
                assert((m as int / 2) * vstd::arithmetic::power2::pow2((k + 1) as nat)
                    > 0x4000_0000_0000_0000) by (nonlinear_arith)
                    requires
                        m as int / 2 >= 65536,
                        vstd::arithmetic::power2::pow2((k + 1) as nat)
                            > vstd::arithmetic::power2::pow2(62),
                        vstd::arithmetic::power2::pow2(62) == 0x4000_0000_0000_0000;
            }
        }
        m = m / 2;
        k = k + 1;
    }
    let t = m - FRAC_ONE;
    proof {
        lemma_abs_mul_bound(t as int, 65536 - t as int, 65536, 65536);
        crate::fixed::lemma_mul_q_bound(t as int, 65536 - t as int, 65536, 65536);
        lemma_abs_mul_bound(
            mul_q_spec(t as int, 65536 - t as int), 22675, 65536, 22675);
        crate::fixed::lemma_mul_q_bound(
            mul_q_spec(t as int, 65536 - t as int), 22675, 65536, 22675);
    }
    let lf = t + mul_q(mul_q(t, FRAC_ONE - t), 22675);
    (k - 16) * FRAC_ONE + lf
}

/// Decibels of the ratio of two nonnegative Q16 amplitudes:
/// `20 log10(a / b)`, with a floor of -120 dB when the ratio underflows to
/// zero.
pub open spec fn db_of_ratio_spec(a: int, b: int) -> i64 {
    let rq = div_q_spec(a, b);
    if rq < 1 {
        (-120 * 65536) as i64
    } else {
        mul_q_spec(log2_q_spec(rq), 394566) as i64
    }
}

pub fn db_of_ratio(a: i64, b: i64) -> (r: i64)
    requires
        0 <= a <= 0x1000_0000,
        1 <= b <= 65536,
    ensures
        r == db_of_ratio_spec(a as int, b as int),
        -120 * 65536 <= r <= 400 * 65536,
{
    proof {
        vstd::arithmetic::div_mod::lemma_div_pos_is_pos(a as int * 65536, b as int);
        vstd::arithmetic::div_mod::lemma_div_is_ordered_by_denominator(
            a as int * 65536, 1, b as int);
    }
    let rq = div_q(a, b);
    if rq < 1 {
        -120 * FRAC_ONE
    } else {
        let lg = log2_q(rq);
        proof {
            lemma_abs_mul_bound(lg as int, 394566, 64int * 65536, 394566);
            crate::fixed::lemma_mul_q_bound(lg as int, 394566, 64int * 65536, 394566);
            assert(64int * 65536 * 394566 == 65536int * (64 * 394566));
            vstd::arithmetic::div_mod::lemma_div_multiples_vanish(64int * 394566, 65536);
        }
        mul_q(lg, DB_PER_OCTAVE_Q)
    }
}

/// Linear amplitude of a Q16 decibel value: `10^(db/20)`, computed through
/// the exponential decay (and its reciprocal for boosts).
pub open spec fn db_to_linear_spec(db: int) -> int {
    let e = mul_q_spec(if db >= 0 { db } else { -db }, 150902) / 20;
    if db >= 0 {
        if exp_neg_spec(e) >= 1 {
            div_q_spec(65536, exp_neg_spec(e))
        } else {
            65536
        }
    } else {
        exp_neg_spec(e)
    }
}

pub fn db_to_linear_q(db: i64) -> (r: i64)
    requires
        -100 * 65536 <= db <= 100 * 65536,
    ensures
        r == db_to_linear_spec(db as int),
        1 <= r,
        db <= 0 ==> r <= 65536,
        db >= 0 ==> r >= 65536,
{
    proof {
        if db == 0 {
            assert(0int * 150902 == 0) by (nonlinear_arith);
            assert(mul_q_spec(0, 150902) == 0);
            assert(0int * 0 == 0) by (nonlinear_arith);
            assert(exp_neg_spec(0) == (65536int * 65536) / 65536);
            lemma_div_multiples_vanish(65536, 65536);
            assert(exp_neg_spec(0) == 65536);
            assert(db_to_linear_spec(0) == div_q_spec(65536, 65536));
        }
    }
    let mag = if db >= 0 { db } else { -db };
    proof {
        lemma_abs_mul_bound(mag as int, 150902, 100int * 65536, 150902);
        crate::fixed::lemma_mul_q_bound(mag as int, 150902, 100int * 65536, 150902);
        lemma_div_pos_is_pos(mul_q_spec(mag as int, 150902), 20);
        vstd::arithmetic::div_mod::lemma_div_is_ordered(
            mul_q_spec(mag as int, 150902), (100int * 65536 * 150902) / 65536, 20);
    }
    let e = mul_q(mag, LN10_Q) / 20;
    let en = exp_neg_q(e);
    if db >= 0 {
        if en >= 1 {
            let r = div_q(FRAC_ONE, en);
            proof {
                lemma_div_non_zero(65536int * 65536, en as int);
                vstd::arithmetic::div_mod::lemma_div_is_ordered_by_denominator(
                    65536int * 65536, en as int, 65536);
            }
            r
        } else {
            FRAC_ONE
        }
    } else {
        en
    }
}

} // verus!
