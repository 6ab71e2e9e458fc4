//! Q16 circular functions for oscillators and the pan law.
//!
//! `sin_half_spec` is the Bhaskara rational approximation of the sine on
//! `[0, pi]`, evaluated exactly in integer arithmetic; the full-wave sine and
//! the constant-power pan gains are defined from it.

use vstd::prelude::*;
use vstd::arithmetic::div_mod::{lemma_div_is_ordered, lemma_div_multiples_vanish, lemma_div_non_zero, lemma_div_pos_is_pos};

verus! {

/// Half turn (pi) in Q16 radians.
pub const PI_Q: i64 = 205887;

/// Full turn (two pi) in Q16 radians.
pub const TWO_PI_Q: i64 = 411774;

/// Quarter turn (pi over two) in Q16 radians.
pub const HALF_PI_Q: i64 = 102943;

/// Bhaskara's sine on a half turn: `16 t (pi - t) / (5 pi^2 - 4 t (pi - t))`,
/// scaled to Q16.
pub open spec fn sin_half_spec(th: int) -> int {
    let t = th * (205887 - th);
    (16 * t * 65536) / (5 * 205887 * 205887 - 4 * t)
}

/// Full-wave Q16 sine of a phase in `[0, two pi]`.
pub open spec fn sin_q_spec(phase: int) -> int {
    if phase <= 205887 {
        sin_half_spec(phase)
    } else {
        -sin_half_spec(phase - 205887)
    }
}

/// On a half turn the product `4 th (pi - th)` never exceeds `pi^2`.
proof fn lemma_sin_product_bound(th: int)
    by (nonlinear_arith)
    requires
        0 <= th <= 205887,
    ensures
        0 <= 4 * (th * (205887 - th)) <= 205887 * 205887,
{
    assert((2 * th - 205887) * (2 * th - 205887) >= 0);
}

/// The Q16 sine of a half-turn phase lies in `[0, 1]`.
pub proof fn lemma_sin_half_range(th: int)
    requires
        0 <= th <= 205887,
    ensures
        0 <= sin_half_spec(th) <= 65536,
{
    lemma_sin_product_bound(th);
    let t = th * (205887 - th);
    let den = 5 * 205887 * 205887 - 4 * t;
    lemma_div_pos_is_pos(16 * t * 65536, den);
    lemma_div_is_ordered(16 * t * 65536, den * 65536, den);
    lemma_div_multiples_vanish(65536, den);
}

/// The Q16 sine of any phase lies in `[-1, 1]`.
pub proof fn lemma_sin_q_range(phase: int)
    requires
        0 <= phase <= 411774,
    ensures
        -65536 <= sin_q_spec(phase) <= 65536,
{
    if phase <= 205887 {
        lemma_sin_half_range(phase);
    } else {
        lemma_sin_half_range(phase - 205887);
    }
}

/// Away from the ends of the half turn the sine is at least one Q16 step.
pub proof fn lemma_sin_half_pos(th: int)
    requires
        25000 <= th <= 180000,
    ensures
        1 <= sin_half_spec(th),
{
    lemma_sin_product_bound(th);
    assert(th * (205887 - th) >= 25000int * 25887) by (nonlinear_arith)
        requires 25000 <= th <= 180000;
    let t = th * (205887 - th);
    let den = 5 * 205887 * 205887 - 4 * t;
    assert(16 * t * 65536 >= 16int * (25000 * 25887) * 65536) by (nonlinear_arith)
        requires t >= 25000int * 25887;
    lemma_div_non_zero(16 * t * 65536, den);
}

fn sin_half(th: i64) -> (r: i64)
    requires
        0 <= th <= PI_Q,
    ensures
        r == sin_half_spec(th as int),
        0 <= r <= 65536,
{
    proof {
        lemma_sin_product_bound(th as int);
        lemma_sin_half_range(th as int);
    }
    let t = th * (PI_Q - th);
    let den = 5 * PI_Q * PI_Q - 4 * t;
    (16 * t * 65536) / den
}

/// Full-wave Q16 sine of a phase in `[0, two pi]`.
pub fn sin_q(phase: i64) -> (r: i64)
    requires
        0 <= phase <= TWO_PI_Q,
    ensures
        r == sin_q_spec(phase as int),
        -65536 <= r <= 65536,
{
    if phase <= PI_Q {
        sin_half(phase)
    } else {
        -sin_half(phase - PI_Q)
    }
}

/// Q16 cosine of a phase in `[0, pi]`, via the shifted sine.
pub open spec fn cos_q_spec(phase: int) -> int {
    if phase <= 102943 {
        sin_half_spec(102943 - phase)
    } else {
        -sin_half_spec(phase - 102943)
    }
}

/// Q16 cosine of a phase in `[0, pi]`.
pub fn cos_q(phase: i64) -> (r: i64)
    requires
        0 <= phase <= PI_Q,
    ensures
        r == cos_q_spec(phase as int),
        -65536 <= r <= 65536,
{
    if phase <= HALF_PI_Q {
        sin_half(HALF_PI_Q - phase)
    } else {
        -sin_half(phase - HALF_PI_Q)
    }
}

/// Pan angle of the right channel: `(pan + 1) * pi / 4` in Q16 radians.
pub open spec fn pan_angle_r_spec(pan: int) -> int {
    ((65536 + pan) * 102943) / 131072
}

/// Pan angle of the left channel, the mirror image of the right one.
pub open spec fn pan_angle_l_spec(pan: int) -> int {
    ((65536 - pan) * 102943) / 131072
}

/// Constant-power left gain: the cosine of the pan angle, written as the
/// sine of its complement.
pub open spec fn pan_gain_l_spec(pan: int) -> int {
    sin_half_spec(pan_angle_l_spec(pan))
}

/// Constant-power right gain: the sine of the pan angle.
pub open spec fn pan_gain_r_spec(pan: int) -> int {
    sin_half_spec(pan_angle_r_spec(pan))
}

proof fn lemma_pan_angle_range(w: int)
    requires
        0 <= w <= 131072,
    ensures
        0 <= (w * 102943) / 131072 <= 102943,
{
    assert(0 <= w * 102943 <= 131072 * 102943) by (nonlinear_arith)
        requires 0 <= w <= 131072;
    lemma_div_pos_is_pos(w * 102943, 131072);
    lemma_div_is_ordered(w * 102943, 131072int * 102943, 131072);
    lemma_div_multiples_vanish(102943, 131072);
}

/// Constant-power pan gains for a pan position in `[-1, 1]`.
pub fn pan_gains(pan: i64) -> (r: (i64, i64))
    requires
        -65536 <= pan <= 65536,
    ensures
        r.0 == pan_gain_l_spec(pan as int),
        r.1 == pan_gain_r_spec(pan as int),
        0 <= r.0 <= 65536,
        0 <= r.1 <= 65536,
{
    proof {
        lemma_pan_angle_range(65536 - pan as int);
        lemma_pan_angle_range(65536 + pan as int);
    }
    let a_l = ((65536 - pan) * HALF_PI_Q) / 131072;
    let a_r = ((65536 + pan) * HALF_PI_Q) / 131072;
    (sin_half(a_l), sin_half(a_r))
}

/// Law (constant-power pan at center): with the pan at 0 the two gains are
/// equal, and the sum of their squares is one to within 1/64.
pub proof fn lemma_constant_power_center()
    ensures
        pan_gain_l_spec(0) == pan_gain_r_spec(0),
        ({
            let g = pan_gain_l_spec(0);
            65536 * 65536 - 65536 * 1024 <= g * g + g * g <= 65536 * 65536 + 65536 * 1024
        }),
{
    assert(pan_angle_l_spec(0) == 51471);
    assert(pan_angle_r_spec(0) == 51471);
    assert(51471int * (205887 - 51471) == 7947945936);
    assert(16int * 7947945936 * 65536 == 8334025357787136);
    assert(5int * 205887 * 205887 - 4int * 7947945936 == 180155500101);
    vstd::arithmetic::div_mod::lemma_fundamental_div_mod_converse(
        8334025357787136, 180155500101, 46260, 31923114876);
    assert(sin_half_spec(51471) == 46260);
    assert(46260 * 46260 + 46260 * 46260 == 4279975200) by (nonlinear_arith);
}

} // verus!
