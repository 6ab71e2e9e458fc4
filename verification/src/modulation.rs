//! Modulation effects: the constant-power stereo panner with an optional
//! pan oscillator, the chorus, and the multi-stage allpass phaser.

use vstd::prelude::*;
use crate::chain::{lemma_take_all, lemma_take_snoc, zip_spec};
use crate::delay::{DelayLine, interp_read_spec, write_spec};
use crate::fixed::{
    FRAC_ONE, SAMPLE_LIMIT, in_range, is_unit, lemma_abs_mul_bound, lemma_mul_q_bound,
    lemma_mul_q_interp, mul_q, mul_q_spec, div_q, div_q_spec, sat, sat_i64,
};
use crate::trig::{
    HALF_PI_Q, PI_Q, TWO_PI_Q, cos_q, cos_q_spec, pan_gain_l_spec, pan_gain_r_spec, pan_gains,
    sin_q, sin_q_spec,
};

verus! {

/// Keep an advanced oscillator phase inside one turn.
pub open spec fn wrap_phase_spec(p: int) -> i64 {
    if p > 411774 {
        (p - 411774) as i64
    } else {
        p as i64
    }
}

pub fn wrap_phase(p: i64) -> (r: i64)
    requires
        0 <= p <= 2 * 411774,
    ensures
        r == wrap_phase_spec(p as int),
        0 <= r <= TWO_PI_Q,
{
    if p > TWO_PI_Q {
        p - TWO_PI_Q
    } else {
        p
    }
}

/// Phase increment of an oscillator at `rate` (Q16 Hz): `2 pi rate /
/// sample_rate`, capped at one turn.
pub open spec fn lfo_inc_spec(rate: i64, sample_rate: i64) -> i64 {
    let inc = mul_q_spec(rate as int, 411774) / (sample_rate as int);
    if inc > 411774 {
        411774i64
    } else {
        inc as i64
    }
}

pub fn lfo_inc(rate: i64, sample_rate: i64) -> (r: i64)
    requires
        0 <= rate <= 655360,
        1 <= sample_rate <= 1_000_000,
    ensures
        r == lfo_inc_spec(rate, sample_rate),
        0 <= r <= TWO_PI_Q,
{
    proof {
        lemma_abs_mul_bound(rate as int, 411774, 655360, 411774);
        lemma_mul_q_bound(rate as int, 411774, 655360, 411774);
        vstd::arithmetic::div_mod::lemma_div_pos_is_pos(
            mul_q_spec(rate as int, 411774), sample_rate as int);
    }
    let inc = mul_q(rate, TWO_PI_Q) / sample_rate;
    if inc > TWO_PI_Q {
        TWO_PI_Q
    } else {
        inc
    }
}

// ---------------------------------------------------------------------
// Stereo panner
// ---------------------------------------------------------------------

/// The panner's oscillator phase after one sample (it moves only while the
/// oscillator rate is positive).
pub open spec fn panner_phase_spec(ph: i64, rate: i64, inc: i64) -> i64 {
    if rate > 0 {
        wrap_phase_spec(ph + inc)
    } else {
        ph
    }
}

/// What the panner emits for one stereo sample: widen around the mid
/// signal, then place the result by the constant-power law at the
/// (possibly oscillator-shifted) pan position.
pub open spec fn panner_out_spec(
    ph: i64, l: i64, r: i64, pan: i64, width: i64, rate: i64, depth: i64, inc: i64,
) -> (i64, i64) {
    let ph2 = panner_phase_spec(ph, rate, inc);
    let lfo = if rate > 0 { mul_q_spec(sin_q_spec(ph2 as int), depth as int) } else { 0int };
    let shifted = pan + lfo;
    let pan_eff = if shifted > 65536 { 65536int } else if shifted < -65536 { -65536int } else { shifted };
    let mid = mul_q_spec(l + r, 32768);
    let side = mul_q_spec(mul_q_spec(l - r, 32768), width as int);
    let wl = sat_i64(mid + side);
    let wr = sat_i64(mid - side);
    (
        mul_q_spec(wl as int, pan_gain_l_spec(pan_eff)) as i64,
        mul_q_spec(wr as int, pan_gain_r_spec(pan_eff)) as i64,
    )
}

/// The panner's phase after a whole block.
pub open spec fn panner_run_spec(ph: i64, n: int, rate: i64, inc: i64) -> i64
    decreases n,
{
    if n <= 0 {
        ph
    } else {
        panner_phase_spec(panner_run_spec(ph, n - 1, rate, inc), rate, inc)
    }
}

/// The panner's output block.
pub open spec fn panner_outs_spec(
    ph: i64, xs: Seq<(i64, i64)>, pan: i64, width: i64, rate: i64, depth: i64, inc: i64,
) -> Seq<(i64, i64)>
    decreases xs.len(),
{
    if xs.len() == 0 {
        Seq::empty()
    } else {
        panner_outs_spec(ph, xs.drop_last(), pan, width, rate, depth, inc).push(
            panner_out_spec(
                panner_run_spec(ph, xs.len() - 1, rate, inc), xs.last().0, xs.last().1,
                pan, width, rate, depth, inc),
        )
    }
}

pub struct StereoPanner {
    pub pan: i64,
    pub width: i64,
    pub lfo_phase: i64,
    pub lfo_rate: i64,
    pub lfo_depth: i64,
}

impl StereoPanner {
    pub open spec fn wf(self) -> bool {
        &&& -65536 <= self.pan <= 65536
        &&& 0 <= self.width <= 131072
        &&& 0 <= self.lfo_phase <= 411774
        &&& 0 <= self.lfo_rate <= 655360
        &&& is_unit(self.lfo_depth as int)
    }

    pub fn new() -> (r: StereoPanner)
        ensures
            r.wf(),
            r.pan == 0 && r.width == 65536 && r.lfo_phase == 0,
            r.lfo_rate == 0 && r.lfo_depth == 0,
    {
        StereoPanner { pan: 0, width: FRAC_ONE, lfo_phase: 0, lfo_rate: 0, lfo_depth: 0 }
    }

    /// Pan position in `[-1, 1]` (clamped).
    pub fn set_pan(&mut self, val: i64)
        requires
            old(self).wf(),
        ensures
            final(self).wf(),
            final(self).pan == if val < -65536 { (-65536) as i64 } else if val > 65536 { 65536i64 } else { val },
            *final(self) == (StereoPanner { pan: final(self).pan, ..*old(self) }),
    {
        self.pan = if val < -FRAC_ONE { -FRAC_ONE } else if val > FRAC_ONE { FRAC_ONE } else { val };
    }

    /// Stereo width in `[0, 2]` (clamped).
    pub fn set_width(&mut self, val: i64)
        requires
            old(self).wf(),
        ensures
            final(self).wf(),
            final(self).width == if val < 0 { 0i64 } else if val > 131072 { 131072i64 } else { val },
            *final(self) == (StereoPanner { width: final(self).width, ..*old(self) }),
    {
        self.width = if val < 0 { 0 } else if val > 2 * FRAC_ONE { 2 * FRAC_ONE } else { val };
    }

    /// Oscillator rate in Q16 Hz, clamped to 0..10 Hz.
    pub fn set_lfo_rate(&mut self, hz: i64)
        requires
            old(self).wf(),
        ensures
            final(self).wf(),
            final(self).lfo_rate == if hz < 0 { 0i64 } else if hz > 655360 { 655360i64 } else { hz },
            *final(self) == (StereoPanner { lfo_rate: final(self).lfo_rate, ..*old(self) }),
    {
        self.lfo_rate = if hz < 0 { 0 } else if hz > 10 * FRAC_ONE { 10 * FRAC_ONE } else { hz };
    }

    /// Oscillator depth in `[0, 1]` (clamped).
    pub fn set_lfo_depth(&mut self, val: i64)
        requires
            old(self).wf(),
        ensures
            final(self).wf(),
            final(self).lfo_depth == if val < 0 { 0i64 } else if val > 65536 { 65536i64 } else { val },
            *final(self) == (StereoPanner { lfo_depth: final(self).lfo_depth, ..*old(self) }),
    {
        self.lfo_depth = if val < 0 { 0 } else if val > FRAC_ONE { FRAC_ONE } else { val };
    }

    fn pan_sample(&mut self, l: i64, r: i64, inc: i64) -> (out: (i64, i64))
        requires
            old(self).wf(),
            in_range(l as int),
            in_range(r as int),
            inc == lfo_inc_spec(old(self).lfo_rate, 1) || 0 <= inc <= TWO_PI_Q,
        ensures
            final(self).wf(),
            final(self).lfo_phase == panner_phase_spec(old(self).lfo_phase, old(self).lfo_rate, inc),
            out == panner_out_spec(
                old(self).lfo_phase, l, r, old(self).pan, old(self).width,
                old(self).lfo_rate, old(self).lfo_depth, inc),
            in_range(out.0 as int),
            in_range(out.1 as int),
            final(self).pan == old(self).pan && final(self).width == old(self).width,
            final(self).lfo_rate == old(self).lfo_rate,
            final(self).lfo_depth == old(self).lfo_depth,
    {
        let lfo: i64 = if self.lfo_rate > 0 {
            let ph2 = wrap_phase(self.lfo_phase + inc);
            self.lfo_phase = ph2;
            let s = sin_q(ph2);
            proof {
                lemma_abs_mul_bound(s as int, self.lfo_depth as int, 65536, 65536);
                lemma_mul_q_bound(s as int, self.lfo_depth as int, 65536, 65536);
            }
            mul_q(s, self.lfo_depth)
        } else {
            0
        };
        let shifted = self.pan + lfo;
        let pan_eff = if shifted > FRAC_ONE {
            FRAC_ONE
        } else if shifted < -FRAC_ONE {
            -FRAC_ONE
        } else {
            shifted
        };
        let gains = pan_gains(pan_eff);
        proof {
            lemma_abs_mul_bound(l + r as int, 32768, 2 * SAMPLE_LIMIT as int, 32768);
            lemma_mul_q_bound(l + r as int, 32768, 2 * SAMPLE_LIMIT as int, 32768);
            lemma_abs_mul_bound(l - r as int, 32768, 2 * SAMPLE_LIMIT as int, 32768);
            lemma_mul_q_bound(l - r as int, 32768, 2 * SAMPLE_LIMIT as int, 32768);
        }
        let mid = mul_q(l + r, 32768);
        let pre_side = mul_q(l - r, 32768);
        proof {
            lemma_abs_mul_bound(pre_side as int, self.width as int, SAMPLE_LIMIT as int, 131072);
            lemma_mul_q_bound(pre_side as int, self.width as int, SAMPLE_LIMIT as int, 131072);
        }
        let side = mul_q(pre_side, self.width);
        let wl = sat(mid + side);
        let wr = sat(mid - side);
        proof {
            lemma_abs_mul_bound(wl as int, pan_gain_l_spec(pan_eff as int), SAMPLE_LIMIT as int, 65536);
            lemma_mul_q_bound(wl as int, pan_gain_l_spec(pan_eff as int), SAMPLE_LIMIT as int, 65536);
            lemma_abs_mul_bound(wr as int, pan_gain_r_spec(pan_eff as int), SAMPLE_LIMIT as int, 65536);
            lemma_mul_q_bound(wr as int, pan_gain_r_spec(pan_eff as int), SAMPLE_LIMIT as int, 65536);
        }
        (mul_q(wl, gains.0), mul_q(wr, gains.1))
    }

    /// Return the pan oscillator to its starting phase.
    pub fn reset(&mut self)
        requires
            old(self).wf(),
        ensures
            final(self).wf(),
            *final(self) == (StereoPanner { lfo_phase: 0i64, ..*old(self) }),
    {
        self.lfo_phase = 0;
    }

    /// Pan a stereo block.
    pub fn process(&mut self, in_l: &Vec<i64>, in_r: &Vec<i64>, sample_rate: i64)
        -> (out: (Vec<i64>, Vec<i64>))
        requires
            old(self).wf(),
            1 <= sample_rate <= 1_000_000,
            forall|k: int| 0 <= k < in_l@.len() ==> in_range(#[trigger] in_l@[k] as int),
            forall|k: int| 0 <= k < in_r@.len() ==> in_range(#[trigger] in_r@[k] as int),
        ensures
            final(self).wf(),
            final(self).pan == old(self).pan && final(self).width == old(self).width,
            final(self).lfo_rate == old(self).lfo_rate,
            final(self).lfo_depth == old(self).lfo_depth,
            ({
                let xs = zip_spec(in_l@, in_r@);
                let inc = lfo_inc_spec(old(self).lfo_rate, sample_rate);
                &&& final(self).lfo_phase == panner_run_spec(
                    old(self).lfo_phase, xs.len() as int, old(self).lfo_rate, inc)
                &&& out.0@.len() == xs.len() && out.1@.len() == xs.len()
                &&& forall|k: int| 0 <= k < xs.len()
                    ==> (#[trigger] out.0@[k], out.1@[k]) == panner_outs_spec(
                        old(self).lfo_phase, xs, old(self).pan, old(self).width,
                        old(self).lfo_rate, old(self).lfo_depth, inc)[k]
            }),
            forall|k: int| 0 <= k < out.0@.len() ==> in_range(#[trigger] out.0@[k] as int),
            forall|k: int| 0 <= k < out.1@.len() ==> in_range(#[trigger] out.1@[k] as int),
    {
        let ghost xs = zip_spec(in_l@, in_r@);
        let ghost ph0 = self.lfo_phase;
        let inc = lfo_inc(self.lfo_rate, sample_rate);
        let len = if in_l.len() <= in_r.len() { in_l.len() } else { in_r.len() };
        let mut out_l: Vec<i64> = Vec::new();
        let mut out_r: Vec<i64> = Vec::new();
        let mut i: usize = 0;
        while i < len
            invariant
                i <= len,
                len == xs.len(),
                xs == zip_spec(in_l@, in_r@),
                len <= in_l@.len() && len <= in_r@.len(),
                self.wf(),
                self.pan == old(self).pan && self.width == old(self).width,
                self.lfo_rate == old(self).lfo_rate,
                self.lfo_depth == old(self).lfo_depth,
                ph0 == old(self).lfo_phase,
                inc == lfo_inc_spec(self.lfo_rate, sample_rate),
                0 <= inc <= TWO_PI_Q,
                forall|k: int| 0 <= k < in_l@.len() ==> in_range(#[trigger] in_l@[k] as int),
                forall|k: int| 0 <= k < in_r@.len() ==> in_range(#[trigger] in_r@[k] as int),
                self.lfo_phase == panner_run_spec(ph0, i as int, self.lfo_rate, inc),
                out_l@.len() == i && out_r@.len() == i,
                forall|k: int| 0 <= k < i
                    ==> (#[trigger] out_l@[k], out_r@[k]) == panner_outs_spec(
                        ph0, xs, self.pan, self.width, self.lfo_rate, self.lfo_depth, inc)[k],
                forall|k: int| 0 <= k < i ==> in_range(#[trigger] out_l@[k] as int),
                forall|k: int| 0 <= k < i ==> in_range(#[trigger] out_r@[k] as int),
            decreases len - i,
        {
            proof {
                lemma_panner_outs_len(ph0, xs, self.pan, self.width, self.lfo_rate,
                    self.lfo_depth, inc);
                lemma_panner_outs_index(ph0, xs, self.pan, self.width, self.lfo_rate,
                    self.lfo_depth, inc, i as int);
            }
            let o = self.pan_sample(in_l[i], in_r[i], inc);
            out_l.push(o.0);
            out_r.push(o.1);
            i += 1;
        }
        proof {
            lemma_panner_outs_len(ph0, xs, self.pan, self.width, self.lfo_rate,
                self.lfo_depth, inc);
        }
        (out_l, out_r)
    }
}

pub proof fn lemma_panner_outs_len(
    ph: i64, xs: Seq<(i64, i64)>, pan: i64, width: i64, rate: i64, depth: i64, inc: i64,
)
    ensures
        panner_outs_spec(ph, xs, pan, width, rate, depth, inc).len() == xs.len(),
    decreases xs.len(),
{
    if xs.len() > 0 {
        lemma_panner_outs_len(ph, xs.drop_last(), pan, width, rate, depth, inc);
    }
}

pub proof fn lemma_panner_outs_index(
    ph: i64, xs: Seq<(i64, i64)>, pan: i64, width: i64, rate: i64, depth: i64, inc: i64, k: int,
)
    requires
        0 <= k < xs.len(),
    ensures
        panner_outs_spec(ph, xs, pan, width, rate, depth, inc)[k] == panner_out_spec(
            panner_run_spec(ph, k, rate, inc), xs[k].0, xs[k].1, pan, width, rate, depth, inc),
    decreases xs.len(),
{
    lemma_panner_outs_len(ph, xs, pan, width, rate, depth, inc);
    if k < xs.len() - 1 {
        lemma_panner_outs_index(ph, xs.drop_last(), pan, width, rate, depth, inc, k);
        assert(xs.drop_last()[k] == xs[k]);
    }
}

// ---------------------------------------------------------------------
// Chorus
// ---------------------------------------------------------------------

/// Model of the chorus: the two delay histories and the oscillator phase.
pub type ChorusModel = (Seq<i64>, Seq<i64>, i64);

/// One chorus step: advance the oscillator, write the dry samples, read
/// each side at its modulated delay, and blend.
pub open spec fn chorus_step_spec(
    m: ChorusModel, l: i64, r: i64, inc: i64, base: i64, depth: i64, mix: i64,
) -> (ChorusModel, (i64, i64)) {
    let ph2 = wrap_phase_spec(m.2 + inc);
    let lfo_l = sin_q_spec(ph2 as int);
    let lfo_r = sin_q_spec(wrap_phase_spec(ph2 + 102943) as int);
    let md = mul_q_spec(base as int, depth as int);
    let dl = (base + mul_q_spec(lfo_l, md)) as i64;
    let dr = (base + mul_q_spec(lfo_r, md)) as i64;
    let hl = write_spec(m.0, l);
    let hr = write_spec(m.1, r);
    let wet_l = interp_read_spec(hl, dl);
    let wet_r = interp_read_spec(hr, dr);
    let ol = sat_i64(mul_q_spec(l as int, 65536 - mix) + mul_q_spec(wet_l as int, mix as int));
    let or_ = sat_i64(mul_q_spec(r as int, 65536 - mix) + mul_q_spec(wet_r as int, mix as int));
    ((hl, hr, ph2), (ol, or_))
}

/// The chorus model after a whole block.
pub open spec fn chorus_run_spec(
    m: ChorusModel, xs: Seq<(i64, i64)>, inc: i64, base: i64, depth: i64, mix: i64,
) -> ChorusModel
    decreases xs.len(),
{
    if xs.len() == 0 {
        m
    } else {
        chorus_step_spec(
            chorus_run_spec(m, xs.drop_last(), inc, base, depth, mix),
            xs.last().0, xs.last().1, inc, base, depth, mix).0
    }
}

/// The chorus output block.
pub open spec fn chorus_outs_spec(
    m: ChorusModel, xs: Seq<(i64, i64)>, inc: i64, base: i64, depth: i64, mix: i64,
) -> Seq<(i64, i64)>
    decreases xs.len(),
{
    if xs.len() == 0 {
        Seq::empty()
    } else {
        chorus_outs_spec(m, xs.drop_last(), inc, base, depth, mix).push(
            chorus_step_spec(
                chorus_run_spec(m, xs.drop_last(), inc, base, depth, mix),
                xs.last().0, xs.last().1, inc, base, depth, mix).1,
        )
    }
}

pub struct Chorus {
    pub delay_l: DelayLine,
    pub delay_r: DelayLine,
    pub sample_rate: i64,
    pub lfo_phase: i64,
    pub rate: i64,
    pub depth: i64,
    pub mix: i64,
    pub base_delay: i64,
}

impl Chorus {
    pub closed spec fn model(self) -> ChorusModel {
        (self.delay_l.hist(), self.delay_r.hist(), self.lfo_phase)
    }

    pub closed spec fn wf(self) -> bool {
        &&& self.delay_l.wf()
        &&& self.delay_r.wf()
        &&& 1 <= self.sample_rate <= 1_000_000
        &&& 0 <= self.lfo_phase <= 411774
        &&& 6554 <= self.rate <= 655360
        &&& is_unit(self.depth as int)
        &&& is_unit(self.mix as int)
        &&& 0 <= self.base_delay <= 0x1_0000_0000
    }

    /// The oscillator phase is part of the public model.
    pub proof fn lemma_model_phase(self)
        requires
            self.wf(),
        ensures
            self.model().2 == self.lfo_phase,
            0 <= self.model().2 <= 411774,
            self.model().0.len() >= 16,
            self.model().1.len() >= 16,
    {
        self.delay_l.lemma_hist_in_range();
        self.delay_r.lemma_hist_in_range();
    }

    /// Lines of 50 ms, a 7 ms base delay, and a quiet oscillator.
    pub fn new(sample_rate: i64) -> (r: Chorus)
        requires
            1 <= sample_rate <= 1_000_000,
        ensures
            r.wf(),
            r.sample_rate == sample_rate,
            r.lfo_phase == 0,
            r.base_delay as int == (7 * sample_rate * 65536) / 1000,
            forall|k: int| 0 <= k < r.model().0.len() ==> #[trigger] r.model().0[k] == 0i64,
            forall|k: int| 0 <= k < r.model().1.len() ==> #[trigger] r.model().1[k] == 0i64,
    {
        let max_delay = (sample_rate / 20) as usize;
        proof {
            vstd::arithmetic::div_mod::lemma_div_pos_is_pos(sample_rate as int, 20);
            vstd::arithmetic::div_mod::lemma_div_is_ordered(sample_rate as int, 1_000_000, 20);
            vstd::arithmetic::div_mod::lemma_div_pos_is_pos(7 * sample_rate as int * 65536, 1000);
            vstd::arithmetic::div_mod::lemma_div_is_ordered(
                7 * sample_rate as int * 65536, 7int * 1_000_000 * 65536, 1000);
        }
        Chorus {
            delay_l: DelayLine::new(max_delay),
            delay_r: DelayLine::new(max_delay),
            sample_rate,
            lfo_phase: 0,
            rate: 98304,
            depth: 32768,
            mix: 32768,
            base_delay: (7 * sample_rate * FRAC_ONE) / 1000,
        }
    }

    /// Oscillator rate in Q16 Hz, clamped to 0.1..10 Hz.
    pub fn set_rate(&mut self, hz: i64)
        requires
            old(self).wf(),
        ensures
            final(self).wf(),
            final(self).rate == if hz < 6554 { 6554i64 } else if hz > 655360 { 655360i64 } else { hz },
            final(self).delay_l == old(self).delay_l,
            final(self).delay_r == old(self).delay_r,
            final(self).lfo_phase == old(self).lfo_phase,
            final(self).model() == old(self).model(),
            final(self).depth == old(self).depth && final(self).mix == old(self).mix,
            final(self).base_delay == old(self).base_delay,
            final(self).sample_rate == old(self).sample_rate,
    {
        self.rate = if hz < 6554 { 6554 } else if hz > 10 * FRAC_ONE { 10 * FRAC_ONE } else { hz };
    }

    /// Modulation depth in `[0, 1]` (clamped).
    pub fn set_depth(&mut self, val: i64)
        requires
            old(self).wf(),
        ensures
            final(self).wf(),
            final(self).depth == if val < 0 { 0i64 } else if val > 65536 { 65536i64 } else { val },
            final(self).delay_l == old(self).delay_l,
            final(self).delay_r == old(self).delay_r,
            final(self).lfo_phase == old(self).lfo_phase,
            final(self).model() == old(self).model(),
            final(self).rate == old(self).rate && final(self).mix == old(self).mix,
            final(self).base_delay == old(self).base_delay,
            final(self).sample_rate == old(self).sample_rate,
    {
        self.depth = if val < 0 { 0 } else if val > FRAC_ONE { FRAC_ONE } else { val };
    }

    /// Dry/wet blend in `[0, 1]` (clamped).
    pub fn set_mix(&mut self, val: i64)
        requires
            old(self).wf(),
        ensures
            final(self).wf(),
            final(self).mix == if val < 0 { 0i64 } else if val > 65536 { 65536i64 } else { val },
            final(self).delay_l == old(self).delay_l,
            final(self).delay_r == old(self).delay_r,
            final(self).lfo_phase == old(self).lfo_phase,
            final(self).model() == old(self).model(),
            final(self).rate == old(self).rate && final(self).depth == old(self).depth,
            final(self).base_delay == old(self).base_delay,
            final(self).sample_rate == old(self).sample_rate,
    {
        self.mix = if val < 0 { 0 } else if val > FRAC_ONE { FRAC_ONE } else { val };
    }

    fn chorus_sample(&mut self, l: i64, r: i64, inc: i64) -> (out: (i64, i64))
        requires
            old(self).wf(),
            in_range(l as int),
            in_range(r as int),
            0 <= inc <= TWO_PI_Q,
        ensures
            final(self).wf(),
            ({
                let stepped = chorus_step_spec(
                    old(self).model(), l, r, inc, old(self).base_delay,
                    old(self).depth, old(self).mix);
                final(self).model() == stepped.0 && out == stepped.1
            }),
            in_range(out.0 as int),
            in_range(out.1 as int),
            final(self).rate == old(self).rate && final(self).depth == old(self).depth,
            final(self).mix == old(self).mix,
            final(self).base_delay == old(self).base_delay,
            final(self).sample_rate == old(self).sample_rate,
    {
        let ph2 = wrap_phase(self.lfo_phase + inc);
        self.lfo_phase = ph2;
        let lfo_l = sin_q(ph2);
        let lfo_r = sin_q(wrap_phase(ph2 + HALF_PI_Q));
        proof {
            lemma_abs_mul_bound(self.base_delay as int, self.depth as int, 0x1_0000_0000, 65536);
            lemma_mul_q_bound(self.base_delay as int, self.depth as int, 0x1_0000_0000, 65536);
            lemma_mul_q_interp(self.depth as int, self.base_delay as int);
        }
        let md = mul_q(self.base_delay, self.depth);
        proof {
            assert(0 <= md as int <= self.base_delay as int);
            lemma_abs_mul_bound(lfo_l as int, md as int, 65536, md as int);
            lemma_mul_q_bound(lfo_l as int, md as int, 65536, md as int);
            lemma_abs_mul_bound(lfo_r as int, md as int, 65536, md as int);
            lemma_mul_q_bound(lfo_r as int, md as int, 65536, md as int);
            vstd::arithmetic::div_mod::lemma_div_multiples_vanish(md as int, 65536);
            assert(65536 * (md as int) == (md as int) * 65536);
        }
        let dl = self.base_delay + mul_q(lfo_l, md);
        let dr = self.base_delay + mul_q(lfo_r, md);
        self.delay_l.write(l);
        self.delay_r.write(r);
        let wet_l = self.delay_l.read_interpolated(dl);
        let wet_r = self.delay_r.read_interpolated(dr);
        proof {
            lemma_abs_mul_bound(l as int, 65536 - self.mix, SAMPLE_LIMIT as int, 65536);
            lemma_mul_q_bound(l as int, 65536 - self.mix, SAMPLE_LIMIT as int, 65536);
            lemma_abs_mul_bound(wet_l as int, self.mix as int, SAMPLE_LIMIT as int, 65536);
            lemma_mul_q_bound(wet_l as int, self.mix as int, SAMPLE_LIMIT as int, 65536);
            lemma_abs_mul_bound(r as int, 65536 - self.mix, SAMPLE_LIMIT as int, 65536);
            lemma_mul_q_bound(r as int, 65536 - self.mix, SAMPLE_LIMIT as int, 65536);
            lemma_abs_mul_bound(wet_r as int, self.mix as int, SAMPLE_LIMIT as int, 65536);
            lemma_mul_q_bound(wet_r as int, self.mix as int, SAMPLE_LIMIT as int, 65536);
        }
        let ol = sat(mul_q(l, FRAC_ONE - self.mix) + mul_q(wet_l, self.mix));
        let or_ = sat(mul_q(r, FRAC_ONE - self.mix) + mul_q(wet_r, self.mix));
        (ol, or_)
    }

    /// Run a stereo block through the chorus.
    pub fn process(&mut self, in_l: &Vec<i64>, in_r: &Vec<i64>) -> (out: (Vec<i64>, Vec<i64>))
        requires
            old(self).wf(),
            forall|k: int| 0 <= k < in_l@.len() ==> in_range(#[trigger] in_l@[k] as int),
            forall|k: int| 0 <= k < in_r@.len() ==> in_range(#[trigger] in_r@[k] as int),
        ensures
            final(self).wf(),
            final(self).rate == old(self).rate && final(self).depth == old(self).depth,
            final(self).mix == old(self).mix,
            final(self).base_delay == old(self).base_delay,
            final(self).sample_rate == old(self).sample_rate,
            ({
                let xs = zip_spec(in_l@, in_r@);
                let inc = lfo_inc_spec(old(self).rate, old(self).sample_rate);
                &&& final(self).model() == chorus_run_spec(
                    old(self).model(), xs, inc, old(self).base_delay, old(self).depth,
                    old(self).mix)
                &&& out.0@.len() == xs.len() && out.1@.len() == xs.len()
                &&& forall|k: int| 0 <= k < xs.len()
                    ==> (#[trigger] out.0@[k], out.1@[k]) == chorus_outs_spec(
                        old(self).model(), xs, inc, old(self).base_delay, old(self).depth,
                        old(self).mix)[k]
            }),
            forall|k: int| 0 <= k < out.0@.len() ==> in_range(#[trigger] out.0@[k] as int),
            forall|k: int| 0 <= k < out.1@.len() ==> in_range(#[trigger] out.1@[k] as int),
    {
        let ghost m0 = self.model();
        let ghost base = self.base_delay;
        let ghost depth = self.depth;
        let ghost mix = self.mix;
        let ghost xs = zip_spec(in_l@, in_r@);
        let inc = lfo_inc(self.rate, self.sample_rate);
        let len = if in_l.len() <= in_r.len() { in_l.len() } else { in_r.len() };
        let mut out_l: Vec<i64> = Vec::new();
        let mut out_r: Vec<i64> = Vec::new();
        let mut i: usize = 0;
        while i < len
            invariant
                i <= len,
                len == xs.len(),
                xs == zip_spec(in_l@, in_r@),
                len <= in_l@.len() && len <= in_r@.len(),
                self.wf(),
                self.rate == old(self).rate && self.depth == old(self).depth,
                self.mix == old(self).mix,
                self.base_delay == old(self).base_delay,
                self.sample_rate == old(self).sample_rate,
                m0 == old(self).model(),
                base == self.base_delay && depth == self.depth && mix == self.mix,
                inc == lfo_inc_spec(self.rate, self.sample_rate),
                0 <= inc <= TWO_PI_Q,
                forall|k: int| 0 <= k < in_l@.len() ==> in_range(#[trigger] in_l@[k] as int),
                forall|k: int| 0 <= k < in_r@.len() ==> in_range(#[trigger] in_r@[k] as int),
                self.model() == chorus_run_spec(m0, xs.take(i as int), inc, base, depth, mix),
                out_l@.len() == i && out_r@.len() == i,
                forall|k: int| 0 <= k < i
                    ==> (#[trigger] out_l@[k], out_r@[k])
                        == chorus_outs_spec(m0, xs, inc, base, depth, mix)[k],
                forall|k: int| 0 <= k < i ==> in_range(#[trigger] out_l@[k] as int),
                forall|k: int| 0 <= k < i ==> in_range(#[trigger] out_r@[k] as int),
            decreases len - i,
        {
            proof {
                lemma_take_snoc(xs, i as int);
                lemma_chorus_outs_len(m0, xs, inc, base, depth, mix);
                lemma_chorus_outs_index(m0, xs, inc, base, depth, mix, i as int);
            }
            let o = self.chorus_sample(in_l[i], in_r[i], inc);
            out_l.push(o.0);
            out_r.push(o.1);
            i += 1;
        }
        proof {
            lemma_take_all(xs);
            lemma_chorus_outs_len(m0, xs, inc, base, depth, mix);
        }
        (out_l, out_r)
    }

    /// Clear both delay lines and the oscillator phase.
    pub fn reset(&mut self)
        requires
            old(self).wf(),
        ensures
            final(self).wf(),
            final(self).lfo_phase == 0,
            forall|k: int| 0 <= k < final(self).model().0.len()
                ==> #[trigger] final(self).model().0[k] == 0i64,
            forall|k: int| 0 <= k < final(self).model().1.len()
                ==> #[trigger] final(self).model().1[k] == 0i64,
            final(self).rate == old(self).rate && final(self).depth == old(self).depth,
            final(self).mix == old(self).mix,
            final(self).base_delay == old(self).base_delay,
            final(self).sample_rate == old(self).sample_rate,
    {
        self.delay_l.reset();
        self.delay_r.reset();
        self.lfo_phase = 0;
    }
}

// ---------------------------------------------------------------------
// Phaser
// ---------------------------------------------------------------------

/// The phaser's first-order allpass coefficient for a filter angle:
/// `(tan(ang) - 1) / (tan(ang) + 1)`, with the angle kept where the
/// tangent's denominator is safely positive.
pub open spec fn phaser_coef_spec(ang: int) -> i64 {
    let a = if ang > 77207 { 77207int } else if ang < 0 { 0int } else { ang };
    let tn = div_q_spec(sin_q_spec(a), cos_q_spec(a));
    div_q_spec(tn - 65536, tn + 65536) as i64
}

/// The sweep angle for an oscillator value: the filter frequency
/// `200 + lfo01 * depth * 3000` Hz as `pi f / sample_rate`.
pub open spec fn phaser_angle_spec(lfo01: int, depth: i64, sample_rate: i64) -> int {
    let f = 200 + (mul_q_spec(lfo01, depth as int) * 3000) / 65536;
    (205887 * f) / (sample_rate as int)
}

/// One stage of the allpass chain applied to `x`, with its state pair.
pub open spec fn phaser_chain_spec(sts: Seq<(i64, i64)>, x: i64, a: i64, n: int)
    -> (Seq<(i64, i64)>, i64)
    decreases n,
{
    if n <= 0 {
        (sts, x)
    } else {
        let prev = phaser_chain_spec(sts, x, a, n - 1);
        let s = prev.0[n - 1];
        let ap = sat_i64(
            mul_q_spec(a as int, prev.1 as int) + s.0 - mul_q_spec(a as int, s.1 as int));
        (prev.0.update(n - 1, (prev.1, ap)), ap)
    }
}

/// One phaser step over the model (stage states, oscillator phase).
pub open spec fn phaser_step_spec(
    sts: Seq<(i64, i64)>, ph: i64, l: i64, r: i64,
    inc: i64, depth: i64, fb: i64, stages: u32, mix: i64, sample_rate: i64,
) -> ((Seq<(i64, i64)>, i64), (i64, i64)) {
    let ph2 = wrap_phase_spec(ph + inc);
    let lfo01 = (sin_q_spec(ph2 as int) + 65536) / 2;
    let a = phaser_coef_spec(phaser_angle_spec(lfo01, depth, sample_rate));
    let mono = mul_q_spec(l + r, 32768);
    let fed = sat_i64(mono + mul_q_spec(sts[0].1 as int, fb as int));
    let chained = phaser_chain_spec(sts, fed, a, stages as int);
    let ol = sat_i64(mul_q_spec(l as int, 65536 - mix) + mul_q_spec(chained.1 as int, mix as int));
    let or_ = sat_i64(mul_q_spec(r as int, 65536 - mix) + mul_q_spec(chained.1 as int, mix as int));
    ((chained.0, ph2), (ol, or_))
}

/// The phaser model after a whole block.
pub open spec fn phaser_run_spec(
    sts: Seq<(i64, i64)>, ph: i64, xs: Seq<(i64, i64)>,
    inc: i64, depth: i64, fb: i64, stages: u32, mix: i64, sample_rate: i64,
) -> (Seq<(i64, i64)>, i64)
    decreases xs.len(),
{
    if xs.len() == 0 {
        (sts, ph)
    } else {
        let prev = phaser_run_spec(sts, ph, xs.drop_last(), inc, depth, fb, stages, mix,
            sample_rate);
        phaser_step_spec(prev.0, prev.1, xs.last().0, xs.last().1, inc, depth, fb, stages,
            mix, sample_rate).0
    }
}

/// The phaser output block.
pub open spec fn phaser_outs_spec(
    sts: Seq<(i64, i64)>, ph: i64, xs: Seq<(i64, i64)>,
    inc: i64, depth: i64, fb: i64, stages: u32, mix: i64, sample_rate: i64,
) -> Seq<(i64, i64)>
    decreases xs.len(),
{
    if xs.len() == 0 {
        Seq::empty()
    } else {
        let prev = phaser_run_spec(sts, ph, xs.drop_last(), inc, depth, fb, stages, mix,
            sample_rate);
        phaser_outs_spec(sts, ph, xs.drop_last(), inc, depth, fb, stages, mix, sample_rate)
            .push(phaser_step_spec(prev.0, prev.1, xs.last().0, xs.last().1, inc, depth, fb,
                stages, mix, sample_rate).1)
    }
}

pub struct Phaser {
    pub sample_rate: i64,
    pub lfo_phase: i64,
    pub rate: i64,
    pub depth: i64,
    pub feedback: i64,
    pub stages: u32,
    pub mix: i64,
    pub ap_state: Vec<(i64, i64)>,
}

impl Phaser {
    pub open spec fn wf(self) -> bool {
        &&& 1 <= self.sample_rate <= 1_000_000
        &&& 0 <= self.lfo_phase <= 411774
        &&& 655 <= self.rate <= 327680
        &&& is_unit(self.depth as int)
        &&& 0 <= self.feedback <= 62259
        &&& 2 <= self.stages <= 6
        &&& is_unit(self.mix as int)
        &&& self.ap_state@.len() == 6
        &&& forall|k: int| 0 <= k < 6 ==> in_range(#[trigger] self.ap_state@[k].0 as int)
            && in_range(self.ap_state@[k].1 as int)
    }

    pub fn new(sample_rate: i64) -> (r: Phaser)
        requires
            1 <= sample_rate <= 1_000_000,
        ensures
            r.wf(),
            r.sample_rate == sample_rate,
            r.lfo_phase == 0,
            r.stages == 4,
            forall|k: int| 0 <= k < 6 ==> #[trigger] r.ap_state@[k] == (0i64, 0i64),
    {
        let mut ap_state: Vec<(i64, i64)> = Vec::new();
        let mut i: usize = 0;
        while i < 6
            invariant
                i <= 6,
                ap_state@.len() == i,
                forall|k: int| 0 <= k < i ==> #[trigger] ap_state@[k] == (0i64, 0i64),
            decreases 6 - i,
        {
            ap_state.push((0, 0));
            i += 1;
        }
        Phaser {
            sample_rate,
            lfo_phase: 0,
            rate: 32768,
            depth: 45875,
            feedback: 39322,
            stages: 4,
            mix: 32768,
            ap_state,
        }
    }

    /// Sweep rate in Q16 Hz, clamped to 0.01..5 Hz.
    pub fn set_rate(&mut self, hz: i64)
        requires
            old(self).wf(),
        ensures
            final(self).wf(),
            final(self).rate == if hz < 655 { 655i64 } else if hz > 327680 { 327680i64 } else { hz },
            *final(self) == (Phaser { rate: final(self).rate, ..*old(self) }),
    {
        self.rate = if hz < 655 { 655 } else if hz > 5 * FRAC_ONE { 5 * FRAC_ONE } else { hz };
    }

    /// Sweep depth in `[0, 1]` (clamped).
    pub fn set_depth(&mut self, val: i64)
        requires
            old(self).wf(),
        ensures
            final(self).wf(),
            final(self).depth == if val < 0 { 0i64 } else if val > 65536 { 65536i64 } else { val },
            *final(self) == (Phaser { depth: final(self).depth, ..*old(self) }),
    {
        self.depth = if val < 0 { 0 } else if val > FRAC_ONE { FRAC_ONE } else { val };
    }

    /// Feedback amount in `[0, 0.95]` (clamped).
    pub fn set_feedback(&mut self, val: i64)
        requires
            old(self).wf(),
        ensures
            final(self).wf(),
            final(self).feedback == if val < 0 { 0i64 } else if val > 62259 { 62259i64 } else { val },
            *final(self) == (Phaser { feedback: final(self).feedback, ..*old(self) }),
    {
        self.feedback = if val < 0 { 0 } else if val > 62259 { 62259 } else { val };
    }

    /// Number of allpass stages, clamped to 2..6.
    pub fn set_stages(&mut self, stages: u32)
        requires
            old(self).wf(),
        ensures
            final(self).wf(),
            final(self).stages == if stages < 2 { 2u32 } else if stages > 6 { 6u32 } else { stages },
            *final(self) == (Phaser { stages: final(self).stages, ..*old(self) }),
    {
        self.stages = if stages < 2 { 2 } else if stages > 6 { 6 } else { stages };
    }

    /// Dry/wet blend in `[0, 1]` (clamped).
    pub fn set_mix(&mut self, val: i64)
        requires
            old(self).wf(),
        ensures
            final(self).wf(),
            final(self).mix == if val < 0 { 0i64 } else if val > 65536 { 65536i64 } else { val },
            *final(self) == (Phaser { mix: final(self).mix, ..*old(self) }),
    {
        self.mix = if val < 0 { 0 } else if val > FRAC_ONE { FRAC_ONE } else { val };
    }

    fn coef_for(&self, lfo01: i64) -> (a: i64)
        requires
            self.wf(),
            0 <= lfo01 <= 65536,
        ensures
            a == phaser_coef_spec(phaser_angle_spec(lfo01 as int, self.depth, self.sample_rate)),
            -65536 <= a <= 65536,
    {
        proof {
            lemma_abs_mul_bound(lfo01 as int, self.depth as int, 65536, 65536);
            lemma_mul_q_bound(lfo01 as int, self.depth as int, 65536, 65536);
            vstd::arithmetic::div_mod::lemma_div_pos_is_pos(
                mul_q_spec(lfo01 as int, self.depth as int), 65536);
            assert(0 <= mul_q_spec(lfo01 as int, self.depth as int) * 3000
                <= 65536int * 3000) by (nonlinear_arith)
                requires 0 <= mul_q_spec(lfo01 as int, self.depth as int) <= 65536;
            vstd::arithmetic::div_mod::lemma_div_pos_is_pos(
                mul_q_spec(lfo01 as int, self.depth as int) * 3000, 65536);
            vstd::arithmetic::div_mod::lemma_div_is_ordered(
                mul_q_spec(lfo01 as int, self.depth as int) * 3000, 65536int * 3000, 65536);
            vstd::arithmetic::div_mod::lemma_div_multiples_vanish(3000, 65536);
        }
        let f = 200 + (mul_q(lfo01, self.depth) * 3000) / FRAC_ONE;
        proof {
            assert(0 <= 205887int * f <= 205887int * 3200) by (nonlinear_arith)
                requires 200 <= f <= 3200;
            vstd::arithmetic::div_mod::lemma_div_pos_is_pos(205887 * f as int, self.sample_rate as int);
        }
        let ang_raw = (PI_Q * f) / self.sample_rate;
        let ang = if ang_raw > 77207 { 77207 } else { ang_raw };
        proof {
            crate::trig::lemma_sin_half_range(ang as int);
            assert(cos_q_spec(ang as int) == crate::trig::sin_half_spec(102943 - ang as int));
            crate::trig::lemma_sin_half_pos(102943 - ang as int);
            crate::trig::lemma_sin_half_range(102943 - ang as int);
        }
        let sn = sin_q(ang);
        let cn = cos_q(ang);
        proof {
            assert(sin_q_spec(ang as int) == crate::trig::sin_half_spec(ang as int));
        }
        let tn = div_q(sn, cn);
        proof {
            vstd::arithmetic::div_mod::lemma_div_pos_is_pos(sn as int * 65536, cn as int);
            if tn >= FRAC_ONE {
                vstd::arithmetic::div_mod::lemma_div_is_ordered(
                    (tn - 65536) * 65536, (tn + 65536) * 65536, tn as int + 65536);
                vstd::arithmetic::div_mod::lemma_div_multiples_vanish(65536, tn as int + 65536);
                assert((tn as int + 65536) * 65536 == 65536 * (tn as int + 65536));
                vstd::arithmetic::div_mod::lemma_div_pos_is_pos(
                    (tn - 65536) * 65536, tn as int + 65536);
            } else {
                vstd::arithmetic::div_mod::lemma_div_is_ordered(
                    (65536 - tn) * 65536, (tn + 65536) * 65536, tn as int + 65536);
                vstd::arithmetic::div_mod::lemma_div_multiples_vanish(65536, tn as int + 65536);
                assert((tn as int + 65536) * 65536 == 65536 * (tn as int + 65536));
                vstd::arithmetic::div_mod::lemma_div_pos_is_pos(
                    (65536 - tn) * 65536, tn as int + 65536);
            }
        }
        div_q(tn - FRAC_ONE, tn + FRAC_ONE)
    }

    fn phaser_sample(&mut self, l: i64, r: i64, inc: i64) -> (out: (i64, i64))
        requires
            old(self).wf(),
            in_range(l as int),
            in_range(r as int),
            0 <= inc <= TWO_PI_Q,
        ensures
            final(self).wf(),
            ({
                let stepped = phaser_step_spec(
                    old(self).ap_state@, old(self).lfo_phase, l, r, inc, old(self).depth,
                    old(self).feedback, old(self).stages, old(self).mix, old(self).sample_rate);
                &&& final(self).ap_state@ == stepped.0.0
                &&& final(self).lfo_phase == stepped.0.1
                &&& out == stepped.1
            }),
            in_range(out.0 as int),
            in_range(out.1 as int),
            *final(self) == (Phaser {
                ap_state: final(self).ap_state,
                lfo_phase: final(self).lfo_phase,
                ..*old(self)
            }),
    {
        let ph2 = wrap_phase(self.lfo_phase + inc);
        self.lfo_phase = ph2;
        let s = sin_q(ph2);
        let lfo01 = (s + FRAC_ONE) / 2;
        let a = self.coef_for(lfo01);
        proof {
            lemma_abs_mul_bound(l + r as int, 32768, 2 * SAMPLE_LIMIT as int, 32768);
            lemma_mul_q_bound(l + r as int, 32768, 2 * SAMPLE_LIMIT as int, 32768);
            assert(in_range(self.ap_state@[0].0 as int) && in_range(self.ap_state@[0].1 as int));
            lemma_abs_mul_bound(self.ap_state@[0].1 as int, self.feedback as int,
                SAMPLE_LIMIT as int, 65536);
            lemma_mul_q_bound(self.ap_state@[0].1 as int, self.feedback as int,
                SAMPLE_LIMIT as int, 65536);
        }
        let mono = mul_q(l + r, 32768);
        let st0 = self.ap_state[0];
        let fed = sat(mono + mul_q(st0.1, self.feedback));

        let ghost sts0 = self.ap_state@;
        let stages = self.stages as usize;
        let mut x = fed;
        let mut si: usize = 0;
        while si < stages
            invariant
                si <= stages,
                stages == self.stages,
                2 <= stages <= 6,
                -65536 <= a <= 65536,
                self.ap_state@.len() == 6,
                in_range(fed as int),
                self.wf(),
                self.mix == old(self).mix && self.depth == old(self).depth,
                self.feedback == old(self).feedback && self.rate == old(self).rate,
                self.sample_rate == old(self).sample_rate,
                self.lfo_phase == wrap_phase_spec(old(self).lfo_phase + inc),
                ({
                    let chained = phaser_chain_spec(sts0, fed, a, si as int);
                    self.ap_state@ == chained.0 && x == chained.1
                }),
                in_range(x as int),
                forall|k: int| 0 <= k < 6 ==> in_range(#[trigger] self.ap_state@[k].0 as int)
                    && in_range(self.ap_state@[k].1 as int),
            decreases stages - si,
        {
            let st = self.ap_state[si];
            proof {
                assert(in_range(self.ap_state@[si as int].0 as int)
                    && in_range(self.ap_state@[si as int].1 as int));
                lemma_abs_mul_bound(a as int, x as int, 65536, SAMPLE_LIMIT as int);
                lemma_mul_q_bound(a as int, x as int, 65536, SAMPLE_LIMIT as int);
                lemma_abs_mul_bound(a as int, st.1 as int, 65536, SAMPLE_LIMIT as int);
                lemma_mul_q_bound(a as int, st.1 as int, 65536, SAMPLE_LIMIT as int);
            }
            let ap = sat(mul_q(a, x) + st.0 - mul_q(a, st.1));
            self.ap_state[si] = (x, ap);
            x = ap;
            si += 1;
        }

        proof {
            lemma_abs_mul_bound(l as int, 65536 - self.mix, SAMPLE_LIMIT as int, 65536);
            lemma_mul_q_bound(l as int, 65536 - self.mix, SAMPLE_LIMIT as int, 65536);
            lemma_abs_mul_bound(r as int, 65536 - self.mix, SAMPLE_LIMIT as int, 65536);
            lemma_mul_q_bound(r as int, 65536 - self.mix, SAMPLE_LIMIT as int, 65536);
            lemma_abs_mul_bound(x as int, self.mix as int, SAMPLE_LIMIT as int, 65536);
            lemma_mul_q_bound(x as int, self.mix as int, SAMPLE_LIMIT as int, 65536);
        }
        let ol = sat(mul_q(l, FRAC_ONE - self.mix) + mul_q(x, self.mix));
        let or_ = sat(mul_q(r, FRAC_ONE - self.mix) + mul_q(x, self.mix));
        (ol, or_)
    }

    /// Sweep a stereo block through the allpass chain.
    pub fn process(&mut self, in_l: &Vec<i64>, in_r: &Vec<i64>) -> (out: (Vec<i64>, Vec<i64>))
        requires
            old(self).wf(),
            forall|k: int| 0 <= k < in_l@.len() ==> in_range(#[trigger] in_l@[k] as int),
            forall|k: int| 0 <= k < in_r@.len() ==> in_range(#[trigger] in_r@[k] as int),
        ensures
            final(self).wf(),
            final(self).rate == old(self).rate && final(self).depth == old(self).depth,
            final(self).feedback == old(self).feedback,
            final(self).stages == old(self).stages,
            final(self).mix == old(self).mix,
            final(self).sample_rate == old(self).sample_rate,
            ({
                let xs = zip_spec(in_l@, in_r@);
                let inc = lfo_inc_spec(old(self).rate, old(self).sample_rate);
                let run = phaser_run_spec(
                    old(self).ap_state@, old(self).lfo_phase, xs, inc, old(self).depth,
                    old(self).feedback, old(self).stages, old(self).mix, old(self).sample_rate);
                &&& final(self).ap_state@ == run.0
                &&& final(self).lfo_phase == run.1
                &&& out.0@.len() == xs.len() && out.1@.len() == xs.len()
                &&& forall|k: int| 0 <= k < xs.len()
                    ==> (#[trigger] out.0@[k], out.1@[k]) == phaser_outs_spec(
                        old(self).ap_state@, old(self).lfo_phase, xs, inc, old(self).depth,
                        old(self).feedback, old(self).stages, old(self).mix,
                        old(self).sample_rate)[k]
            }),
            forall|k: int| 0 <= k < out.0@.len() ==> in_range(#[trigger] out.0@[k] as int),
            forall|k: int| 0 <= k < out.1@.len() ==> in_range(#[trigger] out.1@[k] as int),
    {
        let ghost sts0 = self.ap_state@;
        let ghost ph0 = self.lfo_phase;
        let ghost xs = zip_spec(in_l@, in_r@);
        let ghost depth = self.depth;
        let ghost fb = self.feedback;
        let ghost stages = self.stages;
        let ghost mix = self.mix;
        let ghost sr = self.sample_rate;
        let inc = lfo_inc(self.rate, self.sample_rate);
        let len = if in_l.len() <= in_r.len() { in_l.len() } else { in_r.len() };
        let mut out_l: Vec<i64> = Vec::new();
        let mut out_r: Vec<i64> = Vec::new();
        let mut i: usize = 0;
        while i < len
            invariant
                i <= len,
                len == xs.len(),
                xs == zip_spec(in_l@, in_r@),
                len <= in_l@.len() && len <= in_r@.len(),
                self.wf(),
                self.rate == old(self).rate && self.depth == old(self).depth,
                self.feedback == old(self).feedback,
                self.stages == old(self).stages,
                self.mix == old(self).mix,
                self.sample_rate == old(self).sample_rate,
                sts0 == old(self).ap_state@ && ph0 == old(self).lfo_phase,
                depth == self.depth && fb == self.feedback && stages == self.stages,
                mix == self.mix && sr == self.sample_rate,
                inc == lfo_inc_spec(self.rate, self.sample_rate),
                0 <= inc <= TWO_PI_Q,
                forall|k: int| 0 <= k < in_l@.len() ==> in_range(#[trigger] in_l@[k] as int),
                forall|k: int| 0 <= k < in_r@.len() ==> in_range(#[trigger] in_r@[k] as int),
                ({
                    let run = phaser_run_spec(sts0, ph0, xs.take(i as int), inc, depth, fb,
                        stages, mix, sr);
                    self.ap_state@ == run.0 && self.lfo_phase == run.1
                }),
                out_l@.len() == i && out_r@.len() == i,
                forall|k: int| 0 <= k < i
                    ==> (#[trigger] out_l@[k], out_r@[k]) == phaser_outs_spec(
                        sts0, ph0, xs, inc, depth, fb, stages, mix, sr)[k],
                forall|k: int| 0 <= k < i ==> in_range(#[trigger] out_l@[k] as int),
                forall|k: int| 0 <= k < i ==> in_range(#[trigger] out_r@[k] as int),
            decreases len - i,
        {
            proof {
                lemma_take_snoc(xs, i as int);
                lemma_phaser_outs_len(sts0, ph0, xs, inc, depth, fb, stages, mix, sr);
                lemma_phaser_outs_index(sts0, ph0, xs, inc, depth, fb, stages, mix, sr, i as int);
            }
            let o = self.phaser_sample(in_l[i], in_r[i], inc);
            out_l.push(o.0);
            out_r.push(o.1);
            i += 1;
        }
        proof {
            lemma_take_all(xs);
            lemma_phaser_outs_len(sts0, ph0, xs, inc, depth, fb, stages, mix, sr);
        }
        (out_l, out_r)
    }

    /// Clear the stage states and the oscillator phase.
    pub fn reset(&mut self)
        requires
            old(self).wf(),
        ensures
            final(self).wf(),
            final(self).lfo_phase == 0,
            forall|k: int| 0 <= k < 6 ==> #[trigger] final(self).ap_state@[k] == (0i64, 0i64),
            final(self).rate == old(self).rate && final(self).depth == old(self).depth,
            final(self).feedback == old(self).feedback,
            final(self).stages == old(self).stages,
            final(self).mix == old(self).mix,
            final(self).sample_rate == old(self).sample_rate,
    {
        let mut i: usize = 0;
        while i < 6
            invariant
                i <= 6,
                self.ap_state@.len() == 6,
                forall|k: int| 0 <= k < i ==> #[trigger] self.ap_state@[k] == (0i64, 0i64),
                forall|k: int| i <= k < 6 ==> #[trigger] self.ap_state@[k] == old(self).ap_state@[k],
                self.lfo_phase == old(self).lfo_phase,
                self.rate == old(self).rate && self.depth == old(self).depth,
                self.feedback == old(self).feedback,
                self.stages == old(self).stages,
                self.mix == old(self).mix,
                self.sample_rate == old(self).sample_rate,
            decreases 6 - i,
        {
            self.ap_state[i] = (0, 0);
            i += 1;
        }
        self.lfo_phase = 0;
    }
}

pub proof fn lemma_phaser_outs_len(
    sts: Seq<(i64, i64)>, ph: i64, xs: Seq<(i64, i64)>,
    inc: i64, depth: i64, fb: i64, stages: u32, mix: i64, sr: i64,
)
    ensures
        phaser_outs_spec(sts, ph, xs, inc, depth, fb, stages, mix, sr).len() == xs.len(),
    decreases xs.len(),
{
    if xs.len() > 0 {
        lemma_phaser_outs_len(sts, ph, xs.drop_last(), inc, depth, fb, stages, mix, sr);
    }
}

pub proof fn lemma_phaser_outs_index(
    sts: Seq<(i64, i64)>, ph: i64, xs: Seq<(i64, i64)>,
    inc: i64, depth: i64, fb: i64, stages: u32, mix: i64, sr: i64, k: int,
)
    requires
        0 <= k < xs.len(),
    ensures
        phaser_outs_spec(sts, ph, xs, inc, depth, fb, stages, mix, sr)[k] == ({
            let prev = phaser_run_spec(sts, ph, xs.take(k), inc, depth, fb, stages, mix, sr);
            phaser_step_spec(prev.0, prev.1, xs[k].0, xs[k].1, inc, depth, fb, stages, mix, sr).1
        }),
    decreases xs.len(),
{
    lemma_phaser_outs_len(sts, ph, xs, inc, depth, fb, stages, mix, sr);
    if k == xs.len() - 1 {
        assert(xs.take(k) =~= xs.drop_last());
    } else {
        lemma_phaser_outs_index(sts, ph, xs.drop_last(), inc, depth, fb, stages, mix, sr, k);
        assert(xs.drop_last().take(k) =~= xs.take(k));
        assert(xs.drop_last()[k] == xs[k]);
    }
}

pub proof fn lemma_chorus_outs_len(
    m: ChorusModel, xs: Seq<(i64, i64)>, inc: i64, base: i64, depth: i64, mix: i64,
)
    ensures
        chorus_outs_spec(m, xs, inc, base, depth, mix).len() == xs.len(),
    decreases xs.len(),
{
    if xs.len() > 0 {
        lemma_chorus_outs_len(m, xs.drop_last(), inc, base, depth, mix);
    }
}

pub proof fn lemma_chorus_outs_index(
    m: ChorusModel, xs: Seq<(i64, i64)>, inc: i64, base: i64, depth: i64, mix: i64, k: int,
)
    requires
        0 <= k < xs.len(),
    ensures
        chorus_outs_spec(m, xs, inc, base, depth, mix)[k] == chorus_step_spec(
            chorus_run_spec(m, xs.take(k), inc, base, depth, mix),
            xs[k].0, xs[k].1, inc, base, depth, mix).1,
    decreases xs.len(),
{
    lemma_chorus_outs_len(m, xs, inc, base, depth, mix);
    if k == xs.len() - 1 {
        assert(xs.take(k) =~= xs.drop_last());
    } else {
        lemma_chorus_outs_index(m, xs.drop_last(), inc, base, depth, mix, k);
        assert(xs.drop_last().take(k) =~= xs.take(k));
        assert(xs.drop_last()[k] == xs[k]);
    }
}

} // verus!
