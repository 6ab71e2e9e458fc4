//! Q16 fixed-point arithmetic: the number `x` stands for the real `x / 65536`.
//!
//! All samples on the audio path are saturated to `[-SAMPLE_LIMIT, SAMPLE_LIMIT]`,
//! so products stay far inside `i64` and no operation can overflow or panic.

use vstd::prelude::*;

verus! {

/// One in Q16 fixed point.
pub const FRAC_ONE: i64 = 65536;

/// Hard magnitude limit for audio samples and internal filter state:
/// 4096.0 in Q16, ample headroom above full scale (1.0).
pub const SAMPLE_LIMIT: i64 = 268435456;

/// Magnitude limit for filter coefficients and gains: 256.0 in Q16.
pub const COEFF_LIMIT: i64 = 16777216;

/// Saturate to the coefficient range.
pub open spec fn coeff_sat_spec(x: int) -> i64 {
    if x > COEFF_LIMIT as int {
        COEFF_LIMIT
    } else if x < -(COEFF_LIMIT as int) {
        (-COEFF_LIMIT) as i64
    } else {
        x as i64
    }
}

/// Whether `x` is inside the coefficient range.
pub open spec fn coeff_in_range(x: int) -> bool {
    -(COEFF_LIMIT as int) <= x <= COEFF_LIMIT as int
}

pub fn coeff_sat(x: i64) -> (r: i64)
    ensures
        r == coeff_sat_spec(x as int),
        coeff_in_range(r as int),
{
    if x > COEFF_LIMIT {
        COEFF_LIMIT
    } else if x < -COEFF_LIMIT {
        -COEFF_LIMIT
    } else {
        x
    }
}

/// Truncating (toward zero) division of `p` by one Q16 unit.
pub open spec fn unscale(p: int) -> int {
    if p >= 0 {
        p / 65536
    } else {
        -((-p) / 65536)
    }
}

/// Q16 product: `a * b` rescaled back to Q16, truncated toward zero.
pub open spec fn mul_q_spec(a: int, b: int) -> int {
    unscale(a * b)
}

/// Q16 quotient: `a / b` in Q16, truncated toward zero; `b` must be positive.
pub open spec fn div_q_spec(a: int, b: int) -> int {
    if a >= 0 {
        (a * 65536) / b
    } else {
        -((-a * 65536) / b)
    }
}

/// Saturate to the sample range.
pub open spec fn sat_spec(x: int) -> int {
    if x > SAMPLE_LIMIT as int {
        SAMPLE_LIMIT as int
    } else if x < -(SAMPLE_LIMIT as int) {
        -(SAMPLE_LIMIT as int)
    } else {
        x
    }
}

/// Whether `x` is a saturated (in-range) sample value.
pub open spec fn in_range(x: int) -> bool {
    -(SAMPLE_LIMIT as int) <= x <= SAMPLE_LIMIT as int
}

pub fn sat(x: i64) -> (r: i64)
    ensures
        r == sat_spec(x as int),
        in_range(r as int),
{
    if x > SAMPLE_LIMIT {
        SAMPLE_LIMIT
    } else if x < -SAMPLE_LIMIT {
        -SAMPLE_LIMIT
    } else {
        x
    }
}

/// Magnitude bound on truncating unscaling: |unscale(p)| never exceeds |p| / 65536.
pub proof fn lemma_unscale_bound(p: int, m: int)
    requires
        -m <= p <= m,
        0 <= m,
    ensures
        -(m / 65536) <= unscale(p) <= m / 65536,
{
    if p >= 0 {
        vstd::arithmetic::div_mod::lemma_div_is_ordered(p, m, 65536);
        vstd::arithmetic::div_mod::lemma_div_pos_is_pos(p, 65536);
    } else {
        vstd::arithmetic::div_mod::lemma_div_is_ordered(-p, m, 65536);
        vstd::arithmetic::div_mod::lemma_div_pos_is_pos(-p, 65536);
    }
}

/// |a| <= aa and |b| <= bb bound the product: |a * b| <= aa * bb.
pub proof fn lemma_abs_mul_bound(a: int, b: int, aa: int, bb: int)
    by (nonlinear_arith)
    requires
        -aa <= a <= aa,
        -bb <= b <= bb,
    ensures
        -(aa * bb) <= a * b <= aa * bb,
{
}

/// Magnitude bound on a Q16 product from magnitude bounds on its factors.
pub proof fn lemma_mul_q_bound(a: int, b: int, aa: int, bb: int)
    requires
        -aa <= a <= aa,
        -bb <= b <= bb,
    ensures
        -((aa * bb) / 65536) <= mul_q_spec(a, b) <= (aa * bb) / 65536,
{
    lemma_abs_mul_bound(a, b, aa, bb);
    lemma_unscale_bound(a * b, aa * bb);
}

/// Saturation as an `i64`-valued spec, for use inside value-level models.
pub open spec fn sat_i64(x: int) -> i64 {
    sat_spec(x) as i64
}

/// Whether `x` is a Q16 value in the closed unit interval `[0, 1]`.
pub open spec fn is_unit(x: int) -> bool {
    0 <= x <= 65536
}

/// A Q16 blend factor in `[0, 1]` scales `d` to a value between 0 and `d`,
/// so linear interpolation never leaves the interval of its endpoints.
pub proof fn lemma_mul_q_interp(f: int, d: int)
    requires
        0 <= f <= 65536,
    ensures
        d >= 0 ==> 0 <= mul_q_spec(f, d) <= d,
        d < 0 ==> d <= mul_q_spec(f, d) <= 0,
{
    if d >= 0 {
        assert(0 <= f * d <= 65536 * d) by (nonlinear_arith)
            requires 0 <= f <= 65536, 0 <= d;
        vstd::arithmetic::div_mod::lemma_div_is_ordered(f * d, 65536 * d, 65536);
        vstd::arithmetic::div_mod::lemma_div_multiples_vanish(d, 65536);
        vstd::arithmetic::div_mod::lemma_div_pos_is_pos(f * d, 65536);
    } else {
        assert(0 <= -(f * d) <= 65536 * (-d)) by (nonlinear_arith)
            requires 0 <= f <= 65536, d < 0;
        vstd::arithmetic::div_mod::lemma_div_is_ordered(-(f * d), 65536 * (-d), 65536);
        vstd::arithmetic::div_mod::lemma_div_multiples_vanish(-d, 65536);
        vstd::arithmetic::div_mod::lemma_div_pos_is_pos(-(f * d), 65536);
    }
}

pub fn mul_q(a: i64, b: i64) -> (r: i64)
    requires
        -0x4000_0000_0000_0000 <= a * b <= 0x4000_0000_0000_0000,
    ensures
        r == mul_q_spec(a as int, b as int),
{
    let p: i64 = a * b;
    if p >= 0 {
        p / FRAC_ONE
    } else {
        -((-p) / FRAC_ONE)
    }
}

pub fn div_q(a: i64, b: i64) -> (r: i64)
    requires
        1 <= b,
        -0x4000_0000_0000 <= a <= 0x4000_0000_0000,
    ensures
        r == div_q_spec(a as int, b as int),
{
    if a >= 0 {
        (a * FRAC_ONE) / b
    } else {
        -((-a * FRAC_ONE) / b)
    }
}

/// Multiplying by one in Q16 is the identity.
pub proof fn lemma_mul_q_one(x: int)
    ensures
        mul_q_spec(x, 65536) == x,
{
    if x >= 0 {
        vstd::arithmetic::div_mod::lemma_div_multiples_vanish(x, 65536);
        assert(x * 65536 == 65536 * x) by (nonlinear_arith);
    } else {
        vstd::arithmetic::div_mod::lemma_div_multiples_vanish(-x, 65536);
        assert(-(x * 65536) == 65536 * (-x)) by (nonlinear_arith);
    }
}

/// Clamp to the Q16 unit interval.
pub open spec fn unit_clamp_spec(x: int) -> i64 {
    if x < 0 {
        0i64
    } else if x > 65536 {
        65536i64
    } else {
        x as i64
    }
}

pub fn unit_clamp(x: i64) -> (r: i64)
    ensures
        r == unit_clamp_spec(x as int),
        is_unit(r as int),
{
    if x < 0 {
        0
    } else if x > 65536 {
        65536
    } else {
        x
    }
}

/// Clamped coefficient product, for filter-coefficient formulas: Q16
/// multiply, saturated to the coefficient range.
pub open spec fn qc_mul_spec(a: int, b: int) -> i64 {
    coeff_sat_spec(mul_q_spec(a, b))
}

/// Clamped coefficient sum.
pub open spec fn qc_add_spec(a: int, b: int) -> i64 {
    coeff_sat_spec(a + b)
}

/// Clamped coefficient quotient (`a / b` in Q16, `b` positive).
pub open spec fn qc_div_spec(a: int, b: int) -> i64 {
    coeff_sat_spec(div_q_spec(a, b))
}

pub fn qc_mul(a: i64, b: i64) -> (r: i64)
    requires
        coeff_in_range(a as int),
        coeff_in_range(b as int),
    ensures
        r == qc_mul_spec(a as int, b as int),
        coeff_in_range(r as int),
{
    proof {
        lemma_abs_mul_bound(a as int, b as int, COEFF_LIMIT as int, COEFF_LIMIT as int);
    }
    coeff_sat(mul_q(a, b))
}

pub fn qc_add(a: i64, b: i64) -> (r: i64)
    requires
        coeff_in_range(a as int),
        coeff_in_range(b as int),
    ensures
        r == qc_add_spec(a as int, b as int),
        coeff_in_range(r as int),
{
    coeff_sat(a + b)
}

pub fn qc_div(a: i64, b: i64) -> (r: i64)
    requires
        coeff_in_range(a as int),
        1 <= b,
    ensures
        r == qc_div_spec(a as int, b as int),
        coeff_in_range(r as int),
{
    coeff_sat(div_q(a, b))
}

} // verus!
