//! Direct-Form-II biquad filter, the three-band equalizer built from it,
//! and the audio-EQ-cookbook shelf and peaking coefficient formulas.

use vstd::prelude::*;
use crate::approx::{db_to_linear_q, db_to_linear_spec, sqrt_q};
use crate::fixed::{
    COEFF_LIMIT, FRAC_ONE, SAMPLE_LIMIT, coeff_in_range, coeff_sat, coeff_sat_spec, in_range,
    lemma_abs_mul_bound, lemma_mul_q_bound, mul_q, mul_q_spec, qc_add, qc_add_spec, qc_div,
    qc_div_spec, qc_mul, qc_mul_spec, sat, sat_i64,
};
use crate::trig::{PI_Q, TWO_PI_Q, cos_q, cos_q_spec, sin_q, sin_q_spec};

verus! {

pub struct BiquadFilter {
    // Coefficients (pre-normalized)
    pub b0: i64,
    pub b1: i64,
    pub b2: i64,
    pub a1: i64,
    pub a2: i64,
    // State (Direct Form II)
    pub x1: i64,
    pub x2: i64,
    pub y1: i64,
    pub y2: i64,
}

/// The output of one biquad step: the five-term difference equation,
/// saturated to the sample range.
pub open spec fn biquad_out_spec(f: BiquadFilter, x: i64) -> i64 {
    sat_i64(
        mul_q_spec(f.b0 as int, x as int) + mul_q_spec(f.b1 as int, f.x1 as int)
            + mul_q_spec(f.b2 as int, f.x2 as int) - mul_q_spec(f.a1 as int, f.y1 as int)
            - mul_q_spec(f.a2 as int, f.y2 as int),
    )
}

/// One biquad step: shift the input and output histories, keep coefficients.
pub open spec fn biquad_step_spec(f: BiquadFilter, x: i64) -> BiquadFilter {
    BiquadFilter {
        b0: f.b0,
        b1: f.b1,
        b2: f.b2,
        a1: f.a1,
        a2: f.a2,
        x1: x,
        x2: f.x1,
        y1: biquad_out_spec(f, x),
        y2: f.y1,
    }
}

/// A biquad with cleared state histories.
pub open spec fn biquad_state_cleared(f: BiquadFilter) -> bool {
    f.x1 == 0 && f.x2 == 0 && f.y1 == 0 && f.y2 == 0
}

impl BiquadFilter {
    pub open spec fn wf(self) -> bool {
        &&& coeff_in_range(self.b0 as int)
        &&& coeff_in_range(self.b1 as int)
        &&& coeff_in_range(self.b2 as int)
        &&& coeff_in_range(self.a1 as int)
        &&& coeff_in_range(self.a2 as int)
        &&& in_range(self.x1 as int)
        &&& in_range(self.x2 as int)
        &&& in_range(self.y1 as int)
        &&& in_range(self.y2 as int)
    }

    /// The identity filter: unit feed-forward, no history.
    pub fn new() -> (r: BiquadFilter)
        ensures
            r.wf(),
            r.b0 == FRAC_ONE && r.b1 == 0 && r.b2 == 0 && r.a1 == 0 && r.a2 == 0,
            biquad_state_cleared(r),
    {
        BiquadFilter {
            b0: FRAC_ONE,
            b1: 0,
            b2: 0,
            a1: 0,
            a2: 0,
            x1: 0,
            x2: 0,
            y1: 0,
            y2: 0,
        }
    }

    /// Process a single sample through the difference equation.
    pub fn process(&mut self, input: i64) -> (r: i64)
        requires
            old(self).wf(),
            in_range(input as int),
        ensures
            final(self).wf(),
            *final(self) == biquad_step_spec(*old(self), input),
            r == biquad_out_spec(*old(self), input),
            in_range(r as int),
    {
        proof {
            let cl = COEFF_LIMIT as int;
            let sl = SAMPLE_LIMIT as int;
            lemma_abs_mul_bound(self.b0 as int, input as int, cl, sl);
            lemma_mul_q_bound(self.b0 as int, input as int, cl, sl);
            lemma_abs_mul_bound(self.b1 as int, self.x1 as int, cl, sl);
            lemma_mul_q_bound(self.b1 as int, self.x1 as int, cl, sl);
            lemma_abs_mul_bound(self.b2 as int, self.x2 as int, cl, sl);
            lemma_mul_q_bound(self.b2 as int, self.x2 as int, cl, sl);
            lemma_abs_mul_bound(self.a1 as int, self.y1 as int, cl, sl);
            lemma_mul_q_bound(self.a1 as int, self.y1 as int, cl, sl);
            lemma_abs_mul_bound(self.a2 as int, self.y2 as int, cl, sl);
            lemma_mul_q_bound(self.a2 as int, self.y2 as int, cl, sl);
        }
        let acc = mul_q(self.b0, input) + mul_q(self.b1, self.x1) + mul_q(self.b2, self.x2)
            - mul_q(self.a1, self.y1) - mul_q(self.a2, self.y2);
        let output = sat(acc);

        self.x2 = self.x1;
        self.x1 = input;
        self.y2 = self.y1;
        self.y1 = output;
        output
    }

    /// Replace the coefficients (clamped to the coefficient range) without
    /// touching the state, so parameter automation is glitch-free.
    pub fn set_coefficients(&mut self, b0: i64, b1: i64, b2: i64, a1: i64, a2: i64)
        requires
            old(self).wf(),
        ensures
            final(self).wf(),
            final(self).b0 == coeff_sat_spec(b0 as int),
            final(self).b1 == coeff_sat_spec(b1 as int),
            final(self).b2 == coeff_sat_spec(b2 as int),
            final(self).a1 == coeff_sat_spec(a1 as int),
            final(self).a2 == coeff_sat_spec(a2 as int),
            final(self).x1 == old(self).x1 && final(self).x2 == old(self).x2,
            final(self).y1 == old(self).y1 && final(self).y2 == old(self).y2,
    {
        self.b0 = coeff_sat(b0);
        self.b1 = coeff_sat(b1);
        self.b2 = coeff_sat(b2);
        self.a1 = coeff_sat(a1);
        self.a2 = coeff_sat(a2);
    }

    /// Clear the state histories; coefficients stay.
    pub fn reset(&mut self)
        requires
            old(self).wf(),
        ensures
            final(self).wf(),
            biquad_state_cleared(*final(self)),
            final(self).b0 == old(self).b0 && final(self).b1 == old(self).b1,
            final(self).b2 == old(self).b2,
            final(self).a1 == old(self).a1 && final(self).a2 == old(self).a2,
    {
        self.x1 = 0;
        self.x2 = 0;
        self.y1 = 0;
        self.y2 = 0;
    }
}

/// Law: a biquad with cleared state maps silence to silence and stays
/// cleared, whatever its coefficients.
pub proof fn lemma_biquad_quiet_step(f: BiquadFilter)
    requires
        biquad_state_cleared(f),
    ensures
        biquad_out_spec(f, 0i64) == 0i64,
        biquad_state_cleared(biquad_step_spec(f, 0i64)),
{
    assert(f.b0 as int * 0 == 0) by (nonlinear_arith);
    assert(f.b1 as int * 0 == 0) by (nonlinear_arith);
    assert(f.b2 as int * 0 == 0) by (nonlinear_arith);
    assert(f.a1 as int * 0 == 0) by (nonlinear_arith);
    assert(f.a2 as int * 0 == 0) by (nonlinear_arith);
}

/// Angular frequency of `freq` Hz at `sample_rate`, clamped to a half turn:
/// `2 pi freq / sample_rate` in Q16 radians.
pub open spec fn omega_spec(freq: int, sample_rate: int) -> int {
    let w = (411774 * (if freq < 20 { 20int } else { freq })) / sample_rate;
    if w > 205887 {
        205887
    } else {
        w
    }
}

fn omega_q(freq: i64, sample_rate: i64) -> (r: i64)
    requires
        0 <= freq <= 1_000_000,
        1 <= sample_rate <= 1_000_000,
    ensures
        r == omega_spec(freq as int, sample_rate as int),
        0 <= r <= PI_Q,
{
    let f = if freq < 20 { 20 } else { freq };
    let w = (TWO_PI_Q * f) / sample_rate;
    proof {
        vstd::arithmetic::div_mod::lemma_div_pos_is_pos(411774 * f as int, sample_rate as int);
    }
    if w > PI_Q {
        PI_Q
    } else {
        w
    }
}

/// Shelf amplitude: `10^(gain_db/40)`, floored at one Q16 step and capped
/// at 16 as a degenerate-parameter guard.
pub open spec fn shelf_amp_spec(gain_db: int) -> int {
    let half = if gain_db >= 0 { gain_db / 2 } else { -((-gain_db) / 2) };
    let amp = db_to_linear_spec(half);
    if amp < 1 {
        1
    } else if amp > 1048576 {
        1048576
    } else {
        amp
    }
}

fn shelf_amp(gain_db: i64) -> (r: i64)
    requires
        -48 * 65536 <= gain_db <= 48 * 65536,
    ensures
        r == shelf_amp_spec(gain_db as int),
        1 <= r <= 1048576,
{
    let half = if gain_db >= 0 { gain_db / 2 } else { -((-gain_db) / 2) };
    let amp = db_to_linear_q(half);
    if amp < 1 {
        1
    } else if amp > 1048576 {
        1048576
    } else {
        amp
    }
}

/// Low-shelf coefficients of the audio-EQ cookbook, evaluated in saturated
/// Q16 arithmetic and normalized by the `a0` term (floored at one step).
pub open spec fn lowshelf_spec(freq: int, gain_db: int, sample_rate: int)
    -> (i64, i64, i64, i64, i64) {
    let w = omega_spec(freq, sample_rate);
    let cos_w = cos_q_spec(w);
    let alpha = sin_q_spec(w) / 2;
    let amp = shelf_amp_spec(gain_db);
    let rt = crate::approx::sqrt_q_spec(amp);
    let ap1 = qc_add_spec(amp, 65536);
    let am1 = qc_add_spec(amp, -65536);
    let t1 = qc_mul_spec(am1 as int, cos_w);
    let tp = qc_mul_spec(ap1 as int, cos_w);
    let tsa = qc_mul_spec(2 * rt, alpha);
    let b0 = qc_mul_spec(amp, qc_add_spec(qc_add_spec(ap1 as int, -t1) as int, tsa as int) as int);
    let b1 = qc_mul_spec(2 * amp, qc_add_spec(am1 as int, -tp) as int);
    let b2 = qc_mul_spec(amp, qc_add_spec(qc_add_spec(ap1 as int, -t1) as int, -tsa as int) as int);
    let a0 = qc_add_spec(qc_add_spec(ap1 as int, t1 as int) as int, tsa as int);
    let a1 = qc_mul_spec(-131072, qc_add_spec(am1 as int, tp as int) as int);
    let a2 = qc_add_spec(qc_add_spec(ap1 as int, t1 as int) as int, -tsa as int);
    let a0f = if a0 < 1 { 1int } else { a0 as int };
    (
        qc_div_spec(b0 as int, a0f),
        qc_div_spec(b1 as int, a0f),
        qc_div_spec(b2 as int, a0f),
        qc_div_spec(a1 as int, a0f),
        qc_div_spec(a2 as int, a0f),
    )
}

/// High-shelf coefficients of the audio-EQ cookbook, evaluated the same way.
pub open spec fn highshelf_spec(freq: int, gain_db: int, sample_rate: int)
    -> (i64, i64, i64, i64, i64) {
    let w = omega_spec(freq, sample_rate);
    let cos_w = cos_q_spec(w);
    let alpha = sin_q_spec(w) / 2;
    let amp = shelf_amp_spec(gain_db);
    let rt = crate::approx::sqrt_q_spec(amp);
    let ap1 = qc_add_spec(amp, 65536);
    let am1 = qc_add_spec(amp, -65536);
    let t1 = qc_mul_spec(am1 as int, cos_w);
    let tp = qc_mul_spec(ap1 as int, cos_w);
    let tsa = qc_mul_spec(2 * rt, alpha);
    let b0 = qc_mul_spec(amp, qc_add_spec(qc_add_spec(ap1 as int, t1 as int) as int, tsa as int) as int);
    let b1 = qc_mul_spec((0 - 2) * amp, qc_add_spec(am1 as int, tp as int) as int);
    let b2 = qc_mul_spec(amp, qc_add_spec(qc_add_spec(ap1 as int, t1 as int) as int, -tsa as int) as int);
    let a0 = qc_add_spec(qc_add_spec(ap1 as int, -t1) as int, tsa as int);
    let a1 = qc_mul_spec(131072, qc_add_spec(am1 as int, -tp) as int);
    let a2 = qc_add_spec(qc_add_spec(ap1 as int, -t1) as int, -tsa as int);
    let a0f = if a0 < 1 { 1int } else { a0 as int };
    (
        qc_div_spec(b0 as int, a0f),
        qc_div_spec(b1 as int, a0f),
        qc_div_spec(b2 as int, a0f),
        qc_div_spec(a1 as int, a0f),
        qc_div_spec(a2 as int, a0f),
    )
}

/// Peaking-band coefficients of the audio-EQ cookbook, evaluated the same
/// way.
pub open spec fn peaking_spec(freq: int, gain_db: int, sample_rate: int)
    -> (i64, i64, i64, i64, i64) {
    let w = omega_spec(freq, sample_rate);
    let cos_w = cos_q_spec(w);
    let alpha = sin_q_spec(w) / 2;
    let amp = shelf_amp_spec(gain_db);
    let aa = qc_mul_spec(alpha, amp);
    let ada = qc_div_spec(alpha, amp);
    let b0 = qc_add_spec(65536, aa as int);
    let b1 = qc_mul_spec(-131072, cos_w);
    let b2 = qc_add_spec(65536, -aa);
    let a0 = qc_add_spec(65536, ada as int);
    let a1 = b1;
    let a2 = qc_add_spec(65536, -ada);
    let a0f = if a0 < 1 { 1int } else { a0 as int };
    (
        qc_div_spec(b0 as int, a0f),
        qc_div_spec(b1 as int, a0f),
        qc_div_spec(b2 as int, a0f),
        qc_div_spec(a1 as int, a0f),
        qc_div_spec(a2 as int, a0f),
    )
}

fn shelf_parts(freq: i64, gain_db: i64, sample_rate: i64) -> (r: (i64, i64, i64, i64, i64, i64))
    requires
        0 <= freq <= 1_000_000,
        1 <= sample_rate <= 1_000_000,
        -48 * 65536 <= gain_db <= 48 * 65536,
    ensures
        ({
            let w = omega_spec(freq as int, sample_rate as int);
            let amp = shelf_amp_spec(gain_db as int);
            &&& r.0 == cos_q_spec(w)
            &&& r.1 == sin_q_spec(w) / 2
            &&& r.2 == amp
            &&& r.3 == crate::approx::sqrt_q_spec(amp)
            &&& r.4 == qc_add_spec(amp, 65536)
            &&& r.5 == qc_add_spec(amp, -65536)
        }),
        -65536 <= r.0 <= 65536,
        0 <= r.1 <= 32768,
        1 <= r.2 <= 1048576,
        0 <= r.3 <= 262144,
        coeff_in_range(r.4 as int),
        coeff_in_range(r.5 as int),
{
    let w = omega_q(freq, sample_rate);
    let cos_w = cos_q(w);
    let sin_w = sin_q(w);
    proof {
        assert(sin_q_spec(w as int) == crate::trig::sin_half_spec(w as int));
        crate::trig::lemma_sin_half_range(w as int);
        vstd::arithmetic::div_mod::lemma_div_pos_is_pos(sin_w as int, 2);
    }
    let alpha = sin_w / 2;
    let amp = shelf_amp(gain_db);
    let rt = sqrt_q(amp);
    proof {
        assert(rt <= 262144) by (nonlinear_arith)
            requires 0 <= rt, rt as int * rt <= amp as int * 65536, amp <= 1048576;
    }
    let ap1 = qc_add(amp, FRAC_ONE);
    let am1 = qc_add(amp, -FRAC_ONE);
    (cos_w, alpha, amp, rt, ap1, am1)
}

/// Low-shelf biquad coefficients for the given corner frequency (Hz), gain
/// (Q16 dB) and sample rate (Hz).
pub fn calculate_lowshelf(freq: i64, gain_db: i64, sample_rate: i64)
    -> (r: (i64, i64, i64, i64, i64))
    requires
        0 <= freq <= 1_000_000,
        1 <= sample_rate <= 1_000_000,
        -48 * 65536 <= gain_db <= 48 * 65536,
    ensures
        r == lowshelf_spec(freq as int, gain_db as int, sample_rate as int),
        coeff_in_range(r.0 as int) && coeff_in_range(r.1 as int) && coeff_in_range(r.2 as int),
        coeff_in_range(r.3 as int) && coeff_in_range(r.4 as int),
{
    let (cos_w, alpha, amp, rt, ap1, am1) = shelf_parts(freq, gain_db, sample_rate);
    let t1 = qc_mul(am1, cos_w);
    let tp = qc_mul(ap1, cos_w);
    let tsa = qc_mul(2 * rt, alpha);
    let b0 = qc_mul(amp, qc_add(qc_add(ap1, -t1), tsa));
    let b1 = qc_mul(2 * amp, qc_add(am1, -tp));
    let b2 = qc_mul(amp, qc_add(qc_add(ap1, -t1), -tsa));
    let a0 = qc_add(qc_add(ap1, t1), tsa);
    let a1 = qc_mul(-2 * FRAC_ONE, qc_add(am1, tp));
    let a2 = qc_add(qc_add(ap1, t1), -tsa);
    let a0f = if a0 < 1 { 1 } else { a0 };
    (qc_div(b0, a0f), qc_div(b1, a0f), qc_div(b2, a0f), qc_div(a1, a0f), qc_div(a2, a0f))
}

/// High-shelf biquad coefficients.
pub fn calculate_highshelf(freq: i64, gain_db: i64, sample_rate: i64)
    -> (r: (i64, i64, i64, i64, i64))
    requires
        0 <= freq <= 1_000_000,
        1 <= sample_rate <= 1_000_000,
        -48 * 65536 <= gain_db <= 48 * 65536,
    ensures
        r == highshelf_spec(freq as int, gain_db as int, sample_rate as int),
        coeff_in_range(r.0 as int) && coeff_in_range(r.1 as int) && coeff_in_range(r.2 as int),
        coeff_in_range(r.3 as int) && coeff_in_range(r.4 as int),
{
    let (cos_w, alpha, amp, rt, ap1, am1) = shelf_parts(freq, gain_db, sample_rate);
    let t1 = qc_mul(am1, cos_w);
    let tp = qc_mul(ap1, cos_w);
    let tsa = qc_mul(2 * rt, alpha);
    let b0 = qc_mul(amp, qc_add(qc_add(ap1, t1), tsa));
    let namp = 0i64 - 2 * amp;
    let b1 = qc_mul(namp, qc_add(am1, tp));
    let b2 = qc_mul(amp, qc_add(qc_add(ap1, t1), -tsa));
    let a0 = qc_add(qc_add(ap1, -t1), tsa);
    let a1 = qc_mul(2 * FRAC_ONE, qc_add(am1, -tp));
    let a2 = qc_add(qc_add(ap1, -t1), -tsa);
    let a0f = if a0 < 1 { 1 } else { a0 };
    (qc_div(b0, a0f), qc_div(b1, a0f), qc_div(b2, a0f), qc_div(a1, a0f), qc_div(a2, a0f))
}

/// Clamp a Q16 decibel gain to the equalizer's working range of +-24 dB.
pub open spec fn eq_gain_clamp_spec(g: int) -> i64 {
    if g > 1572864 {
        1572864i64
    } else if g < -1572864 {
        (-1572864) as i64
    } else {
        g as i64
    }
}

fn eq_gain_clamp(g: i64) -> (r: i64)
    ensures
        r == eq_gain_clamp_spec(g as int),
        -1572864 <= r <= 1572864,
{
    if g > 1572864 {
        1572864
    } else if g < -1572864 {
        -1572864
    } else {
        g
    }
}

/// Clamp a frequency to the audible working range.
pub open spec fn eq_freq_clamp_spec(f: int) -> i64 {
    if f > 20000 {
        20000i64
    } else if f < 20 {
        20i64
    } else {
        f as i64
    }
}

fn eq_freq_clamp(f: i64) -> (r: i64)
    ensures
        r == eq_freq_clamp_spec(f as int),
        20 <= r <= 20000,
{
    if f > 20000 {
        20000
    } else if f < 20 {
        20
    } else {
        f
    }
}

/// Three-band equalizer: a low shelf, a peaking band fixed at 1 kHz, and a
/// high shelf, in series.
pub struct ThreeBandEQ {
    pub low: BiquadFilter,
    pub mid: BiquadFilter,
    pub high: BiquadFilter,
    pub sample_rate: i64,
}

/// What one equalizer step emits: the sample after all three bands.
pub open spec fn eq_out_spec(eq: ThreeBandEQ, x: i64) -> i64 {
    let o1 = biquad_out_spec(eq.low, x);
    let o2 = biquad_out_spec(eq.mid, o1);
    biquad_out_spec(eq.high, o2)
}

/// One equalizer step: each band steps on the previous band's output.
pub open spec fn eq_step_spec(eq: ThreeBandEQ, x: i64) -> ThreeBandEQ {
    let o1 = biquad_out_spec(eq.low, x);
    let o2 = biquad_out_spec(eq.mid, o1);
    ThreeBandEQ {
        low: biquad_step_spec(eq.low, x),
        mid: biquad_step_spec(eq.mid, o1),
        high: biquad_step_spec(eq.high, o2),
        sample_rate: eq.sample_rate,
    }
}

/// An equalizer with all three state histories cleared.
pub open spec fn eq_state_cleared(eq: ThreeBandEQ) -> bool {
    biquad_state_cleared(eq.low) && biquad_state_cleared(eq.mid)
        && biquad_state_cleared(eq.high)
}

/// What recomputing an equalizer's coefficients does: each band's
/// coefficients equal the cookbook formula of the clamped controls at the
/// equalizer's own sample rate, and no state history moves.
pub open spec fn eq_updated(
    pre: ThreeBandEQ, post: ThreeBandEQ, low_gain: i64, mid_gain: i64, high_gain: i64,
    low_freq: i64, high_freq: i64,
) -> bool {
    let lc = lowshelf_spec(
        eq_freq_clamp_spec(low_freq as int) as int,
        eq_gain_clamp_spec(low_gain as int) as int,
        pre.sample_rate as int,
    );
    let mc = peaking_spec(1000, eq_gain_clamp_spec(mid_gain as int) as int, pre.sample_rate as int);
    let hc = highshelf_spec(
        eq_freq_clamp_spec(high_freq as int) as int,
        eq_gain_clamp_spec(high_gain as int) as int,
        pre.sample_rate as int,
    );
    &&& post.sample_rate == pre.sample_rate
    &&& post.low.b0 == lc.0 && post.low.b1 == lc.1 && post.low.b2 == lc.2
    &&& post.low.a1 == lc.3 && post.low.a2 == lc.4
    &&& post.mid.b0 == mc.0 && post.mid.b1 == mc.1 && post.mid.b2 == mc.2
    &&& post.mid.a1 == mc.3 && post.mid.a2 == mc.4
    &&& post.high.b0 == hc.0 && post.high.b1 == hc.1 && post.high.b2 == hc.2
    &&& post.high.a1 == hc.3 && post.high.a2 == hc.4
    &&& post.low.x1 == pre.low.x1 && post.low.x2 == pre.low.x2
    &&& post.low.y1 == pre.low.y1 && post.low.y2 == pre.low.y2
    &&& post.mid.x1 == pre.mid.x1 && post.mid.x2 == pre.mid.x2
    &&& post.mid.y1 == pre.mid.y1 && post.mid.y2 == pre.mid.y2
    &&& post.high.x1 == pre.high.x1 && post.high.x2 == pre.high.x2
    &&& post.high.y1 == pre.high.y1 && post.high.y2 == pre.high.y2
}

impl ThreeBandEQ {
    pub open spec fn wf(self) -> bool {
        &&& self.low.wf()
        &&& self.mid.wf()
        &&& self.high.wf()
        &&& 1 <= self.sample_rate <= 1_000_000
    }

    pub fn new(sample_rate: i64) -> (r: ThreeBandEQ)
        requires
            1 <= sample_rate <= 1_000_000,
        ensures
            r.wf(),
            eq_state_cleared(r),
            r.sample_rate == sample_rate,
    {
        ThreeBandEQ {
            low: BiquadFilter::new(),
            mid: BiquadFilter::new(),
            high: BiquadFilter::new(),
            sample_rate,
        }
    }

    /// Recompute the three bands' coefficients from gains (Q16 dB) and
    /// corner frequencies (Hz); the filter states are untouched.
    pub fn update_coefficients(
        &mut self, low_gain: i64, mid_gain: i64, high_gain: i64, low_freq: i64, high_freq: i64,
    )
        requires
            old(self).wf(),
        ensures
            final(self).wf(),
            final(self).sample_rate == old(self).sample_rate,
            eq_updated(*old(self), *final(self), low_gain, mid_gain, high_gain, low_freq,
                high_freq),
    {
        let sr = self.sample_rate;
        let lc = calculate_lowshelf(eq_freq_clamp(low_freq), eq_gain_clamp(low_gain), sr);
        self.low.set_coefficients(lc.0, lc.1, lc.2, lc.3, lc.4);
        let mc = calculate_peaking(1000, eq_gain_clamp(mid_gain), sr);
        self.mid.set_coefficients(mc.0, mc.1, mc.2, mc.3, mc.4);
        let hc = calculate_highshelf(eq_freq_clamp(high_freq), eq_gain_clamp(high_gain), sr);
        self.high.set_coefficients(hc.0, hc.1, hc.2, hc.3, hc.4);
    }

    /// Process a single sample through the three bands in series.
    pub fn process(&mut self, input: i64) -> (r: i64)
        requires
            old(self).wf(),
            in_range(input as int),
        ensures
            final(self).wf(),
            *final(self) == eq_step_spec(*old(self), input),
            r == eq_out_spec(*old(self), input),
            in_range(r as int),
    {
        let o1 = self.low.process(input);
        let o2 = self.mid.process(o1);
        self.high.process(o2)
    }

    /// Clear all three bands' states.
    pub fn reset(&mut self)
        requires
            old(self).wf(),
        ensures
            final(self).wf(),
            eq_state_cleared(*final(self)),
            final(self).sample_rate == old(self).sample_rate,
    {
        self.low.reset();
        self.mid.reset();
        self.high.reset();
    }
}

/// Law: a cleared equalizer maps silence to silence and stays cleared.
pub proof fn lemma_eq_quiet_step(eq: ThreeBandEQ)
    requires
        eq_state_cleared(eq),
    ensures
        eq_out_spec(eq, 0i64) == 0i64,
        eq_state_cleared(eq_step_spec(eq, 0i64)),
{
    lemma_biquad_quiet_step(eq.low);
    lemma_biquad_quiet_step(eq.mid);
    lemma_biquad_quiet_step(eq.high);
}

/// Peaking-band biquad coefficients.
pub fn calculate_peaking(freq: i64, gain_db: i64, sample_rate: i64)
    -> (r: (i64, i64, i64, i64, i64))
    requires
        0 <= freq <= 1_000_000,
        1 <= sample_rate <= 1_000_000,
        -48 * 65536 <= gain_db <= 48 * 65536,
    ensures
        r == peaking_spec(freq as int, gain_db as int, sample_rate as int),
        coeff_in_range(r.0 as int) && coeff_in_range(r.1 as int) && coeff_in_range(r.2 as int),
        coeff_in_range(r.3 as int) && coeff_in_range(r.4 as int),
{
    let (cos_w, alpha, amp, _rt, _ap1, _am1) = shelf_parts(freq, gain_db, sample_rate);
    let aa = qc_mul(alpha, amp);
    let ada = qc_div(alpha, amp);
    let b0 = qc_add(FRAC_ONE, aa);
    let b1 = qc_mul(-2 * FRAC_ONE, cos_w);
    let b2 = qc_add(FRAC_ONE, -aa);
    let a0 = qc_add(FRAC_ONE, ada);
    let a1 = b1;
    let a2 = qc_add(FRAC_ONE, -ada);
    let a0f = if a0 < 1 { 1 } else { a0 };
    (qc_div(b0, a0f), qc_div(b1, a0f), qc_div(b2, a0f), qc_div(a1, a0f), qc_div(a2, a0f))
}

} // verus!
