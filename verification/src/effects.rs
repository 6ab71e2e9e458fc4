//! The feedback delay effect and the closed set of insert effects a
//! channel strip can host.

use vstd::prelude::*;
use crate::chain::{lemma_take_all, lemma_take_snoc, zip_spec};
use crate::dynamics::{comp_db_gain_spec, comp_outs_spec, comp_run_spec, limiter_outs_spec, limiter_run_spec};
use crate::modulation::{chorus_outs_spec, chorus_run_spec, lfo_inc_spec, panner_outs_spec, panner_run_spec, phaser_outs_spec, phaser_run_spec};
use crate::shaping::{clip_sample_spec, saturator_sample_spec};
use crate::approx::db_to_linear_spec;
use crate::fixed::unit_clamp_spec;
use crate::delay::{DelayLine, interp_read_spec, write_spec};
use crate::dynamics::{Compressor, Limiter};
use crate::fixed::{
    FRAC_ONE, SAMPLE_LIMIT, in_range, is_unit, lemma_abs_mul_bound, lemma_mul_q_bound,
    mul_q, mul_q_spec, sat, sat_i64,
};
use crate::modulation::{Chorus, Phaser, StereoPanner};
use crate::shaping::{Clipper, Saturator};

verus! {

/// Model of the feedback delay: the two channel histories.
pub type SimpleDelayModel = (Seq<i64>, Seq<i64>);

/// One step of the feedback delay on one channel: read the delayed sample
/// (the nominal delay counts from the write this step makes, so the read
/// before it uses one sample less), write the input plus scaled feedback,
/// and blend dry with delayed.
pub open spec fn sdel_channel_step_spec(h: Seq<i64>, x: i64, dq: i64, fb: i64, mix: i64)
    -> (Seq<i64>, i64) {
    let delayed = interp_read_spec(h, (dq - 65536) as i64);
    let h2 = write_spec(h, sat_i64(x + mul_q_spec(delayed as int, fb as int)));
    let o = sat_i64(mul_q_spec(x as int, 65536 - mix) + mul_q_spec(delayed as int, mix as int));
    (h2, o)
}

/// One stereo step of the feedback delay.
pub open spec fn sdel_step_spec(m: SimpleDelayModel, l: i64, r: i64, dq: i64, fb: i64, mix: i64)
    -> (SimpleDelayModel, (i64, i64)) {
    let sl = sdel_channel_step_spec(m.0, l, dq, fb, mix);
    let sr = sdel_channel_step_spec(m.1, r, dq, fb, mix);
    ((sl.0, sr.0), (sl.1, sr.1))
}

/// The delay model after a whole block.
pub open spec fn sdel_run_spec(
    m: SimpleDelayModel, xs: Seq<(i64, i64)>, dq: i64, fb: i64, mix: i64,
) -> SimpleDelayModel
    decreases xs.len(),
{
    if xs.len() == 0 {
        m
    } else {
        sdel_step_spec(
            sdel_run_spec(m, xs.drop_last(), dq, fb, mix),
            xs.last().0, xs.last().1, dq, fb, mix).0
    }
}

/// The delay output block.
pub open spec fn sdel_outs_spec(
    m: SimpleDelayModel, xs: Seq<(i64, i64)>, dq: i64, fb: i64, mix: i64,
) -> Seq<(i64, i64)>
    decreases xs.len(),
{
    if xs.len() == 0 {
        Seq::empty()
    } else {
        sdel_outs_spec(m, xs.drop_last(), dq, fb, mix).push(
            sdel_step_spec(
                sdel_run_spec(m, xs.drop_last(), dq, fb, mix),
                xs.last().0, xs.last().1, dq, fb, mix).1,
        )
    }
}

/// Stereo feedback delay with dry/wet blend.
pub struct SimpleDelay {
    pub delay_l: DelayLine,
    pub delay_r: DelayLine,
    pub delay_samples: i64,
    pub feedback: i64,
    pub mix: i64,
    pub sample_rate: i64,
}

impl SimpleDelay {
    pub closed spec fn model(self) -> SimpleDelayModel {
        (self.delay_l.hist(), self.delay_r.hist())
    }

    pub closed spec fn wf(self) -> bool {
        &&& self.delay_l.wf()
        &&& self.delay_r.wf()
        &&& 65536 <= self.delay_samples <= 0x100_0000_0000
        &&& 0 <= self.feedback <= 62259
        &&& is_unit(self.mix as int)
        &&& 1 <= self.sample_rate <= 1_000_000
    }

    /// Two seconds of delay per channel; a 500 ms initial delay time.
    pub fn new(sample_rate: i64) -> (r: SimpleDelay)
        requires
            1 <= sample_rate <= 1_000_000,
        ensures
            r.wf(),
            r.sample_rate == sample_rate,
            r.delay_samples == if sample_rate * 32768 < 65536 { 65536int } else { sample_rate as int * 32768 },
            r.feedback == 45875,
            r.mix == 52429,
            forall|k: int| 0 <= k < r.model().0.len() ==> #[trigger] r.model().0[k] == 0i64,
            forall|k: int| 0 <= k < r.model().1.len() ==> #[trigger] r.model().1[k] == 0i64,
    {
        SimpleDelay {
            delay_l: DelayLine::new((sample_rate * 2) as usize),
            delay_r: DelayLine::new((sample_rate * 2) as usize),
            delay_samples: if sample_rate * 32768 < FRAC_ONE { FRAC_ONE } else { sample_rate * 32768 },
            feedback: 45875,
            mix: 52429,
            sample_rate,
        }
    }

    /// Delay time in Q16 seconds; at least one sample, at most what the
    /// line can address.
    pub fn set_time(&mut self, seconds: i64)
        requires
            old(self).wf(),
        ensures
            final(self).wf(),
            ({
                let c = if seconds < 0 { 0int } else if seconds > 0x400_0000 { 0x400_0000int } else { seconds as int };
                let raw = mul_q_spec(c, old(self).sample_rate as int * 65536);
                final(self).delay_samples ==
                    if raw < 65536 { 65536int } else if raw > 0x100_0000_0000 { 0x100_0000_0000int } else { raw }
            }),
            final(self).delay_l == old(self).delay_l,
            final(self).delay_r == old(self).delay_r,
            final(self).model() == old(self).model(),
            final(self).feedback == old(self).feedback,
            final(self).mix == old(self).mix,
            final(self).sample_rate == old(self).sample_rate,
    {
        let s = if seconds < 0 { 0 } else if seconds > 0x400_0000 { 0x400_0000 } else { seconds };
        proof {
            lemma_abs_mul_bound(s as int, self.sample_rate as int * 65536,
                0x400_0000, 1_000_000int * 65536);
        }
        let raw = mul_q(s, self.sample_rate * FRAC_ONE);
        self.delay_samples = if raw < FRAC_ONE {
            FRAC_ONE
        } else if raw > 0x100_0000_0000 {
            0x100_0000_0000
        } else {
            raw
        };
    }

    /// Feedback amount in `[0, 0.95]` (clamped).
    pub fn set_feedback(&mut self, val: i64)
        requires
            old(self).wf(),
        ensures
            final(self).wf(),
            final(self).feedback == if val < 0 { 0i64 } else if val > 62259 { 62259i64 } else { val },
            final(self).delay_l == old(self).delay_l,
            final(self).delay_r == old(self).delay_r,
            final(self).model() == old(self).model(),
            final(self).delay_samples == old(self).delay_samples,
            final(self).mix == old(self).mix,
            final(self).sample_rate == old(self).sample_rate,
    {
        self.feedback = if val < 0 { 0 } else if val > 62259 { 62259 } else { val };
    }

    /// Dry/wet blend in `[0, 1]` (clamped).
    pub fn set_mix(&mut self, val: i64)
        requires
            old(self).wf(),
        ensures
            final(self).wf(),
            final(self).mix == if val < 0 { 0i64 } else if val > 65536 { 65536i64 } else { val },
            final(self).delay_l == old(self).delay_l,
            final(self).delay_r == old(self).delay_r,
            final(self).model() == old(self).model(),
            final(self).delay_samples == old(self).delay_samples,
            final(self).feedback == old(self).feedback,
            final(self).sample_rate == old(self).sample_rate,
    {
        self.mix = if val < 0 { 0 } else if val > FRAC_ONE { FRAC_ONE } else { val };
    }

    fn delay_sample(&mut self, l: i64, r: i64) -> (out: (i64, i64))
        requires
            old(self).wf(),
            in_range(l as int),
            in_range(r as int),
        ensures
            final(self).wf(),
            ({
                let stepped = sdel_step_spec(
                    old(self).model(), l, r, old(self).delay_samples, old(self).feedback,
                    old(self).mix);
                final(self).model() == stepped.0 && out == stepped.1
            }),
            in_range(out.0 as int),
            in_range(out.1 as int),
            final(self).delay_samples == old(self).delay_samples,
            final(self).feedback == old(self).feedback,
            final(self).mix == old(self).mix,
            final(self).sample_rate == old(self).sample_rate,
    {
        let delayed_l = self.delay_l.read_interpolated(self.delay_samples - FRAC_ONE);
        let delayed_r = self.delay_r.read_interpolated(self.delay_samples - FRAC_ONE);
        proof {
            lemma_abs_mul_bound(delayed_l as int, self.feedback as int, SAMPLE_LIMIT as int, 65536);
            lemma_mul_q_bound(delayed_l as int, self.feedback as int, SAMPLE_LIMIT as int, 65536);
            lemma_abs_mul_bound(delayed_r as int, self.feedback as int, SAMPLE_LIMIT as int, 65536);
            lemma_mul_q_bound(delayed_r as int, self.feedback as int, SAMPLE_LIMIT as int, 65536);
        }
        self.delay_l.write(sat(l + mul_q(delayed_l, self.feedback)));
        self.delay_r.write(sat(r + mul_q(delayed_r, self.feedback)));
        proof {
            lemma_abs_mul_bound(l as int, 65536 - self.mix, SAMPLE_LIMIT as int, 65536);
            lemma_mul_q_bound(l as int, 65536 - self.mix, SAMPLE_LIMIT as int, 65536);
            lemma_abs_mul_bound(delayed_l as int, self.mix as int, SAMPLE_LIMIT as int, 65536);
            lemma_mul_q_bound(delayed_l as int, self.mix as int, SAMPLE_LIMIT as int, 65536);
            lemma_abs_mul_bound(r as int, 65536 - self.mix, SAMPLE_LIMIT as int, 65536);
            lemma_mul_q_bound(r as int, 65536 - self.mix, SAMPLE_LIMIT as int, 65536);
            lemma_abs_mul_bound(delayed_r as int, self.mix as int, SAMPLE_LIMIT as int, 65536);
            lemma_mul_q_bound(delayed_r as int, self.mix as int, SAMPLE_LIMIT as int, 65536);
        }
        let ol = sat(mul_q(l, FRAC_ONE - self.mix) + mul_q(delayed_l, self.mix));
        let or_ = sat(mul_q(r, FRAC_ONE - self.mix) + mul_q(delayed_r, self.mix));
        (ol, or_)
    }

    /// Run a stereo block through the feedback delay.
    pub fn process(&mut self, in_l: &Vec<i64>, in_r: &Vec<i64>) -> (out: (Vec<i64>, Vec<i64>))
        requires
            old(self).wf(),
            forall|k: int| 0 <= k < in_l@.len() ==> in_range(#[trigger] in_l@[k] as int),
            forall|k: int| 0 <= k < in_r@.len() ==> in_range(#[trigger] in_r@[k] as int),
        ensures
            final(self).wf(),
            final(self).delay_samples == old(self).delay_samples,
            final(self).feedback == old(self).feedback,
            final(self).mix == old(self).mix,
            final(self).sample_rate == old(self).sample_rate,
            ({
                let xs = zip_spec(in_l@, in_r@);
                &&& final(self).model() == sdel_run_spec(
                    old(self).model(), xs, old(self).delay_samples, old(self).feedback,
                    old(self).mix)
                &&& out.0@.len() == xs.len() && out.1@.len() == xs.len()
                &&& forall|k: int| 0 <= k < xs.len()
                    ==> (#[trigger] out.0@[k], out.1@[k]) == sdel_outs_spec(
                        old(self).model(), xs, old(self).delay_samples, old(self).feedback,
                        old(self).mix)[k]
            }),
            forall|k: int| 0 <= k < out.0@.len() ==> in_range(#[trigger] out.0@[k] as int),
            forall|k: int| 0 <= k < out.1@.len() ==> in_range(#[trigger] out.1@[k] as int),
    {
        let ghost m0 = self.model();
        let ghost xs = zip_spec(in_l@, in_r@);
        let ghost dq = self.delay_samples;
        let ghost fb = self.feedback;
        let ghost mix = self.mix;
        let len = if in_l.len() <= in_r.len() { in_l.len() } else { in_r.len() };
        let mut out_l: Vec<i64> = Vec::new();
        let mut out_r: Vec<i64> = Vec::new();
        let mut i: usize = 0;
        while i < len
            invariant
                i <= len,
                len == xs.len(),
                xs == zip_spec(in_l@, in_r@),
                len <= in_l@.len() && len <= in_r@.len(),
                self.wf(),
                self.delay_samples == old(self).delay_samples,
                self.feedback == old(self).feedback,
                self.mix == old(self).mix,
                self.sample_rate == old(self).sample_rate,
                m0 == old(self).model(),
                dq == self.delay_samples && fb == self.feedback && mix == self.mix,
                forall|k: int| 0 <= k < in_l@.len() ==> in_range(#[trigger] in_l@[k] as int),
                forall|k: int| 0 <= k < in_r@.len() ==> in_range(#[trigger] in_r@[k] as int),
                self.model() == sdel_run_spec(m0, xs.take(i as int), dq, fb, mix),
                out_l@.len() == i && out_r@.len() == i,
                forall|k: int| 0 <= k < i
                    ==> (#[trigger] out_l@[k], out_r@[k]) == sdel_outs_spec(m0, xs, dq, fb, mix)[k],
                forall|k: int| 0 <= k < i ==> in_range(#[trigger] out_l@[k] as int),
                forall|k: int| 0 <= k < i ==> in_range(#[trigger] out_r@[k] as int),
            decreases len - i,
        {
            proof {
                lemma_take_snoc(xs, i as int);
                lemma_sdel_outs_len(m0, xs, dq, fb, mix);
                lemma_sdel_outs_index(m0, xs, dq, fb, mix, i as int);
            }
            let o = self.delay_sample(in_l[i], in_r[i]);
            out_l.push(o.0);
            out_r.push(o.1);
            i += 1;
        }
        proof {
            lemma_take_all(xs);
            lemma_sdel_outs_len(m0, xs, dq, fb, mix);
        }
        (out_l, out_r)
    }

    /// Clear both delay lines.
    pub fn reset(&mut self)
        requires
            old(self).wf(),
        ensures
            final(self).wf(),
            forall|k: int| 0 <= k < final(self).model().0.len()
                ==> #[trigger] final(self).model().0[k] == 0i64,
            forall|k: int| 0 <= k < final(self).model().1.len()
                ==> #[trigger] final(self).model().1[k] == 0i64,
            final(self).delay_samples == old(self).delay_samples,
            final(self).feedback == old(self).feedback,
            final(self).mix == old(self).mix,
            final(self).sample_rate == old(self).sample_rate,
    {
        self.delay_l.reset();
        self.delay_r.reset();
    }
}

pub proof fn lemma_sdel_outs_len(
    m: SimpleDelayModel, xs: Seq<(i64, i64)>, dq: i64, fb: i64, mix: i64,
)
    ensures
        sdel_outs_spec(m, xs, dq, fb, mix).len() == xs.len(),
    decreases xs.len(),
{
    if xs.len() > 0 {
        lemma_sdel_outs_len(m, xs.drop_last(), dq, fb, mix);
    }
}

pub proof fn lemma_sdel_outs_index(
    m: SimpleDelayModel, xs: Seq<(i64, i64)>, dq: i64, fb: i64, mix: i64, k: int,
)
    requires
        0 <= k < xs.len(),
    ensures
        sdel_outs_spec(m, xs, dq, fb, mix)[k] == sdel_step_spec(
            sdel_run_spec(m, xs.take(k), dq, fb, mix), xs[k].0, xs[k].1, dq, fb, mix).1,
    decreases xs.len(),
{
    lemma_sdel_outs_len(m, xs, dq, fb, mix);
    if k == xs.len() - 1 {
        assert(xs.take(k) =~= xs.drop_last());
    } else {
        lemma_sdel_outs_index(m, xs.drop_last(), dq, fb, mix, k);
        assert(xs.drop_last().take(k) =~= xs.take(k));
        assert(xs.drop_last()[k] == xs[k]);
    }
}

/// A dispatched effect keeps its variant and all of its parameters; only
/// its running state (histories, envelopes, phases, caches) may move.
pub open spec fn insert_params_preserved(e0: InsertEffect, e1: InsertEffect) -> bool {
    match (e0, e1) {
        (InsertEffect::FeedbackDelay(a), InsertEffect::FeedbackDelay(b)) => {
            &&& b.delay_samples == a.delay_samples
            &&& b.feedback == a.feedback
            &&& b.mix == a.mix
            &&& b.sample_rate == a.sample_rate
        },
        (InsertEffect::Dynamics(a), InsertEffect::Dynamics(b)) => b == (Compressor {
            envelope: b.envelope,
            gain_reduction: b.gain_reduction,
            ..a
        }),
        (InsertEffect::Drive(a), InsertEffect::Drive(b)) => b == a,
        (InsertEffect::Ceiling(a), InsertEffect::Ceiling(b)) => b == (Limiter {
            envelope: b.envelope,
            ..a
        }),
        (InsertEffect::Clip(a), InsertEffect::Clip(b)) => b == a,
        (InsertEffect::Doubler(a), InsertEffect::Doubler(b)) => {
            &&& b.rate == a.rate
            &&& b.depth == a.depth
            &&& b.mix == a.mix
            &&& b.base_delay == a.base_delay
            &&& b.sample_rate == a.sample_rate
        },
        (InsertEffect::Sweep(a), InsertEffect::Sweep(b)) => b == (Phaser {
            lfo_phase: b.lfo_phase,
            ap_state: b.ap_state,
            ..a
        }),
        (InsertEffect::Placement(a), InsertEffect::Placement(b)) => b == (StereoPanner {
            lfo_phase: b.lfo_phase,
            ..a
        }),
        _ => false,
    }
}

/// A dispatched effect with its running state at rest: delay histories
/// silent, envelope followers and gain caches cleared, oscillator phases
/// at zero; the memoryless shapers are at rest by nature.
pub open spec fn insert_state_cleared(e: InsertEffect) -> bool {
    match e {
        InsertEffect::FeedbackDelay(d) => {
            &&& forall|k: int| 0 <= k < d.model().0.len() ==> #[trigger] d.model().0[k] == 0i64
            &&& forall|k: int| 0 <= k < d.model().1.len() ==> #[trigger] d.model().1[k] == 0i64
        },
        InsertEffect::Dynamics(c) => c.envelope == 0 && c.gain_reduction == 65536,
        InsertEffect::Drive(_) => true,
        InsertEffect::Ceiling(l) => l.envelope == 0,
        InsertEffect::Clip(_) => true,
        InsertEffect::Doubler(c) => {
            &&& c.lfo_phase == 0
            &&& forall|k: int| 0 <= k < c.model().0.len() ==> #[trigger] c.model().0[k] == 0i64
            &&& forall|k: int| 0 <= k < c.model().1.len() ==> #[trigger] c.model().1[k] == 0i64
        },
        InsertEffect::Sweep(p) => {
            &&& p.lfo_phase == 0
            &&& forall|k: int| 0 <= k < p.ap_state@.len()
                ==> #[trigger] p.ap_state@[k] == (0i64, 0i64)
        },
        InsertEffect::Placement(p) => p.lfo_phase == 0,
    }
}

/// What dispatching one block does, by variant: the effect's own exact
/// block semantics, tying the new state and every output sample to the
/// state before the block and the inputs.
pub open spec fn insert_block_post(
    e0: InsertEffect, e1: InsertEffect, in_l: Seq<i64>, in_r: Seq<i64>,
    out_l: Seq<i64>, out_r: Seq<i64>, sample_rate: i64,
) -> bool {
    let xs = zip_spec(in_l, in_r);
    match (e0, e1) {
        (InsertEffect::FeedbackDelay(a), InsertEffect::FeedbackDelay(b)) => {
            &&& b.model() == sdel_run_spec(a.model(), xs, a.delay_samples, a.feedback, a.mix)
            &&& forall|k: int| 0 <= k < xs.len()
                ==> (#[trigger] out_l[k], out_r[k]) == sdel_outs_spec(
                    a.model(), xs, a.delay_samples, a.feedback, a.mix)[k]
        },
        (InsertEffect::Dynamics(a), InsertEffect::Dynamics(b)) => {
            let c = a.coeffs_spec();
            &&& b.envelope == comp_run_spec(a.envelope, xs, c.1, c.2)
            &&& (xs.len() == 0 ==> b.gain_reduction == a.gain_reduction)
            &&& (xs.len() > 0 ==> b.gain_reduction == comp_db_gain_spec(
                comp_run_spec(a.envelope, xs, c.1, c.2), c.0, a.ratio, c.3))
            &&& forall|k: int| 0 <= k < xs.len()
                ==> (#[trigger] out_l[k], out_r[k]) == comp_outs_spec(
                    a.envelope, xs, c.0, a.ratio, c.3, c.4, c.1, c.2)[k]
        },
        (InsertEffect::Drive(a), InsertEffect::Drive(_)) => {
            &&& forall|k: int| 0 <= k < xs.len() ==> #[trigger] out_l[k]
                == saturator_sample_spec(a.drive, a.mix, a.mode, a.output_gain, in_l[k])
            &&& forall|k: int| 0 <= k < xs.len() ==> #[trigger] out_r[k]
                == saturator_sample_spec(a.drive, a.mix, a.mode, a.output_gain, in_r[k])
        },
        (InsertEffect::Ceiling(a), InsertEffect::Ceiling(b)) => {
            let c = a.coeffs_spec();
            &&& b.envelope == limiter_run_spec(a.envelope, xs, c.2)
            &&& forall|k: int| 0 <= k < xs.len()
                ==> (#[trigger] out_l[k], out_r[k]) == limiter_outs_spec(
                    a.envelope, xs, c.0, c.1, c.2)[k]
        },
        (InsertEffect::Clip(a), InsertEffect::Clip(_)) => {
            &&& forall|k: int| 0 <= k < xs.len() ==> #[trigger] out_l[k]
                == clip_sample_spec(a.threshold, a.softness, in_l[k])
            &&& forall|k: int| 0 <= k < xs.len() ==> #[trigger] out_r[k]
                == clip_sample_spec(a.threshold, a.softness, in_r[k])
        },
        (InsertEffect::Doubler(a), InsertEffect::Doubler(b)) => {
            let inc = lfo_inc_spec(a.rate, a.sample_rate);
            &&& b.model() == chorus_run_spec(a.model(), xs, inc, a.base_delay, a.depth, a.mix)
            &&& forall|k: int| 0 <= k < xs.len()
                ==> (#[trigger] out_l[k], out_r[k]) == chorus_outs_spec(
                    a.model(), xs, inc, a.base_delay, a.depth, a.mix)[k]
        },
        (InsertEffect::Sweep(a), InsertEffect::Sweep(b)) => {
            let inc = lfo_inc_spec(a.rate, a.sample_rate);
            let run = phaser_run_spec(a.ap_state@, a.lfo_phase, xs, inc, a.depth,
                a.feedback, a.stages, a.mix, a.sample_rate);
            &&& b.ap_state@ == run.0
            &&& b.lfo_phase == run.1
            &&& forall|k: int| 0 <= k < xs.len()
                ==> (#[trigger] out_l[k], out_r[k]) == phaser_outs_spec(
                    a.ap_state@, a.lfo_phase, xs, inc, a.depth, a.feedback, a.stages,
                    a.mix, a.sample_rate)[k]
        },
        (InsertEffect::Placement(a), InsertEffect::Placement(b)) => {
            let inc = lfo_inc_spec(a.lfo_rate, sample_rate);
            &&& b.lfo_phase == panner_run_spec(a.lfo_phase, xs.len() as int, a.lfo_rate, inc)
            &&& forall|k: int| 0 <= k < xs.len()
                ==> (#[trigger] out_l[k], out_r[k]) == panner_outs_spec(
                    a.lfo_phase, xs, a.pan, a.width, a.lfo_rate, a.lfo_depth, inc)[k]
        },
        _ => false,
    }
}


/// What one dispatched effect emits for a block, as a function of its
/// state before the block: each variant's exact output sequence.
pub open spec fn insert_outs_spec(e: InsertEffect, xs: Seq<(i64, i64)>, sample_rate: i64)
    -> Seq<(i64, i64)> {
    match e {
        InsertEffect::FeedbackDelay(a) => sdel_outs_spec(
            a.model(), xs, a.delay_samples, a.feedback, a.mix),
        InsertEffect::Dynamics(a) => {
            let c = a.coeffs_spec();
            comp_outs_spec(a.envelope, xs, c.0, a.ratio, c.3, c.4, c.1, c.2)
        },
        InsertEffect::Drive(a) => Seq::new(xs.len(), |k: int| (
            saturator_sample_spec(a.drive, a.mix, a.mode, a.output_gain, xs[k].0),
            saturator_sample_spec(a.drive, a.mix, a.mode, a.output_gain, xs[k].1),
        )),
        InsertEffect::Ceiling(a) => {
            let c = a.coeffs_spec();
            limiter_outs_spec(a.envelope, xs, c.0, c.1, c.2)
        },
        InsertEffect::Clip(a) => Seq::new(xs.len(), |k: int| (
            clip_sample_spec(a.threshold, a.softness, xs[k].0),
            clip_sample_spec(a.threshold, a.softness, xs[k].1),
        )),
        InsertEffect::Doubler(a) => chorus_outs_spec(
            a.model(), xs, lfo_inc_spec(a.rate, a.sample_rate), a.base_delay, a.depth, a.mix),
        InsertEffect::Sweep(a) => phaser_outs_spec(
            a.ap_state@, a.lfo_phase, xs, lfo_inc_spec(a.rate, a.sample_rate), a.depth,
            a.feedback, a.stages, a.mix, a.sample_rate),
        InsertEffect::Placement(a) => panner_outs_spec(
            a.lfo_phase, xs, a.pan, a.width, a.lfo_rate, a.lfo_depth,
            lfo_inc_spec(a.lfo_rate, sample_rate)),
    }
}

/// An effect's output block is as long as its input block.
pub proof fn lemma_insert_outs_len(e: InsertEffect, xs: Seq<(i64, i64)>, sample_rate: i64)
    ensures
        insert_outs_spec(e, xs, sample_rate).len() == xs.len(),
{
    match e {
        InsertEffect::FeedbackDelay(a) => {
            lemma_sdel_outs_len(a.model(), xs, a.delay_samples, a.feedback, a.mix);
        },
        InsertEffect::Dynamics(a) => {
            let c = a.coeffs_spec();
            crate::dynamics::lemma_comp_outs_len(
                a.envelope, xs, c.0, a.ratio, c.3, c.4, c.1, c.2);
        },
        InsertEffect::Drive(_) => {},
        InsertEffect::Ceiling(a) => {
            let c = a.coeffs_spec();
            crate::dynamics::lemma_limiter_outs_len(a.envelope, xs, c.0, c.1, c.2);
        },
        InsertEffect::Clip(_) => {},
        InsertEffect::Doubler(a) => {
            crate::modulation::lemma_chorus_outs_len(
                a.model(), xs, lfo_inc_spec(a.rate, a.sample_rate), a.base_delay, a.depth,
                a.mix);
        },
        InsertEffect::Sweep(a) => {
            crate::modulation::lemma_phaser_outs_len(
                a.ap_state@, a.lfo_phase, xs, lfo_inc_spec(a.rate, a.sample_rate), a.depth,
                a.feedback, a.stages, a.mix, a.sample_rate);
        },
        InsertEffect::Placement(a) => {
            crate::modulation::lemma_panner_outs_len(
                a.lfo_phase, xs, a.pan, a.width, a.lfo_rate, a.lfo_depth,
                lfo_inc_spec(a.lfo_rate, sample_rate));
        },
    }
}

/// The block a series of inserts hands on: each effect's exact output,
/// fed to the next in list order.
pub open spec fn insert_chain_spec(
    inserts: Seq<InsertEffect>, xs: Seq<(i64, i64)>, sample_rate: i64,
) -> Seq<(i64, i64)>
    decreases inserts.len(),
{
    if inserts.len() == 0 {
        xs
    } else {
        insert_outs_spec(
            inserts.last(), insert_chain_spec(inserts.drop_last(), xs, sample_rate),
            sample_rate)
    }
}

/// A chain's output block is as long as its input block.
pub proof fn lemma_insert_chain_len(
    inserts: Seq<InsertEffect>, xs: Seq<(i64, i64)>, sample_rate: i64,
)
    ensures
        insert_chain_spec(inserts, xs, sample_rate).len() == xs.len(),
    decreases inserts.len(),
{
    if inserts.len() > 0 {
        lemma_insert_chain_len(inserts.drop_last(), xs, sample_rate);
        lemma_insert_outs_len(
            inserts.last(), insert_chain_spec(inserts.drop_last(), xs, sample_rate),
            sample_rate);
    }
}

/// What forwarding one parameter change does, by variant: the identifier
/// selects the effect's setters in declaration order, the value is clamped
/// as the setter clamps it, everything else (state included) is untouched;
/// an unknown identifier changes nothing.
pub open spec fn insert_param_set(e0: InsertEffect, e1: InsertEffect, id: u32, value: i64) -> bool {
    match (e0, e1) {
        (InsertEffect::FeedbackDelay(a), InsertEffect::FeedbackDelay(b)) => {
            if id == 0 {
                let c = if value < 0 { 0int } else if value > 0x400_0000 { 0x400_0000int } else { value as int };
                let raw = crate::fixed::mul_q_spec(c, a.sample_rate as int * 65536);
                let ds = if raw < 65536 { 65536int } else if raw > 0x100_0000_0000 { 0x100_0000_0000int } else { raw };
                b == (SimpleDelay { delay_samples: ds as i64, ..a })
            } else if id == 1 {
                b == (SimpleDelay {
                    feedback: if value < 0 { 0i64 } else if value > 62259 { 62259i64 } else { value },
                    ..a
                })
            } else if id == 2 {
                b == (SimpleDelay { mix: unit_clamp_spec(value as int), ..a })
            } else {
                b == a
            }
        },
        (InsertEffect::Dynamics(a), InsertEffect::Dynamics(b)) => {
            if id == 0 {
                b == (Compressor {
                    threshold: if value < -60 * 65536 { (-60 * 65536) as i64 } else if value > 0 { 0i64 } else { value },
                    ..a
                })
            } else if id == 1 {
                b == (Compressor {
                    ratio: if value < 65536 { 65536i64 } else if value > 20 * 65536 { (20 * 65536) as i64 } else { value },
                    ..a
                })
            } else if id == 2 {
                b == (Compressor {
                    attack: if value < 7 { 7i64 } else if value > 65536 { 65536i64 } else { value },
                    ..a
                })
            } else if id == 3 {
                b == (Compressor {
                    release: if value < 655 { 655i64 } else if value > 5 * 65536 { (5 * 65536) as i64 } else { value },
                    ..a
                })
            } else if id == 4 {
                b == (Compressor {
                    knee: if value < 0 { 0i64 } else if value > 24 * 65536 { (24 * 65536) as i64 } else { value },
                    ..a
                })
            } else if id == 5 {
                b == (Compressor {
                    makeup_gain: if value < 0 { 0i64 } else if value > 24 * 65536 { (24 * 65536) as i64 } else { value },
                    ..a
                })
            } else {
                b == a
            }
        },
        (InsertEffect::Drive(a), InsertEffect::Drive(b)) => {
            if id == 0 {
                b == (Saturator { drive: unit_clamp_spec(value as int), ..a })
            } else if id == 1 {
                b == (Saturator { mix: unit_clamp_spec(value as int), ..a })
            } else if id == 2 {
                b == (Saturator {
                    mode: (if value < 0 { 0int } else if value > 2 { 2int } else { value as int }) as u32,
                    ..a
                })
            } else if id == 3 {
                let c = if value < -786432 { -786432int } else if value > 786432 { 786432int } else { value as int };
                &&& b == (Saturator { output_gain: b.output_gain, ..a })
                &&& (b.output_gain == db_to_linear_spec(c)
                    || (b.output_gain == 262144 && db_to_linear_spec(c) > 262144))
            } else {
                b == a
            }
        },
        (InsertEffect::Ceiling(a), InsertEffect::Ceiling(b)) => {
            if id == 0 {
                b == (Limiter {
                    threshold: if value < -20 * 65536 { (-20 * 65536) as i64 } else if value > 0 { 0i64 } else { value },
                    ..a
                })
            } else if id == 1 {
                b == (Limiter {
                    release: if value < 655 { 655i64 } else if value > 65536 { 65536i64 } else { value },
                    ..a
                })
            } else if id == 2 {
                b == (Limiter {
                    ceiling: if value < -6 * 65536 { (-6 * 65536) as i64 } else if value > 0 { 0i64 } else { value },
                    ..a
                })
            } else {
                b == a
            }
        },
        (InsertEffect::Clip(a), InsertEffect::Clip(b)) => {
            if id == 0 {
                b == (Clipper {
                    threshold: if value < 6554 { 6554i64 } else if value > 65536 { 65536i64 } else { value },
                    ..a
                })
            } else if id == 1 {
                b == (Clipper { softness: unit_clamp_spec(value as int), ..a })
            } else {
                b == a
            }
        },
        (InsertEffect::Doubler(a), InsertEffect::Doubler(b)) => {
            if id == 0 {
                b == (Chorus {
                    rate: if value < 6554 { 6554i64 } else if value > 655360 { 655360i64 } else { value },
                    ..a
                })
            } else if id == 1 {
                b == (Chorus { depth: unit_clamp_spec(value as int), ..a })
            } else if id == 2 {
                b == (Chorus { mix: unit_clamp_spec(value as int), ..a })
            } else {
                b == a
            }
        },
        (InsertEffect::Sweep(a), InsertEffect::Sweep(b)) => {
            if id == 0 {
                b == (Phaser {
                    rate: if value < 655 { 655i64 } else if value > 327680 { 327680i64 } else { value },
                    ..a
                })
            } else if id == 1 {
                b == (Phaser { depth: unit_clamp_spec(value as int), ..a })
            } else if id == 2 {
                b == (Phaser {
                    feedback: if value < 0 { 0i64 } else if value > 62259 { 62259i64 } else { value },
                    ..a
                })
            } else if id == 3 {
                b == (Phaser {
                    stages: (if value < 2 { 2int } else if value > 6 { 6int } else { value as int }) as u32,
                    ..a
                })
            } else if id == 4 {
                b == (Phaser { mix: unit_clamp_spec(value as int), ..a })
            } else {
                b == a
            }
        },
        (InsertEffect::Placement(a), InsertEffect::Placement(b)) => {
            if id == 0 {
                b == (StereoPanner {
                    pan: if value < -65536 { (-65536) as i64 } else if value > 65536 { 65536i64 } else { value },
                    ..a
                })
            } else if id == 1 {
                b == (StereoPanner {
                    width: if value < 0 { 0i64 } else if value > 131072 { 131072i64 } else { value },
                    ..a
                })
            } else if id == 2 {
                b == (StereoPanner {
                    lfo_rate: if value < 0 { 0i64 } else if value > 655360 { 655360i64 } else { value },
                    ..a
                })
            } else if id == 3 {
                b == (StereoPanner { lfo_depth: unit_clamp_spec(value as int), ..a })
            } else {
                b == a
            }
        },
        _ => false,
    }
}

/// The closed set of insert effects a channel strip can host, dispatched
/// through one processing interface.
pub enum InsertEffect {
    FeedbackDelay(SimpleDelay),
    Dynamics(Compressor),
    Drive(Saturator),
    Ceiling(Limiter),
    Clip(Clipper),
    Doubler(Chorus),
    Sweep(Phaser),
    Placement(StereoPanner),
}

impl InsertEffect {
    pub open spec fn wf(self) -> bool {
        match self {
            InsertEffect::FeedbackDelay(e) => e.wf(),
            InsertEffect::Dynamics(e) => e.wf(),
            InsertEffect::Drive(e) => e.wf(),
            InsertEffect::Ceiling(e) => e.wf(),
            InsertEffect::Clip(e) => e.wf(),
            InsertEffect::Doubler(e) => e.wf(),
            InsertEffect::Sweep(e) => e.wf(),
            InsertEffect::Placement(e) => e.wf(),
        }
    }

    /// Run a stereo block through whichever effect this is. Each effect's
    /// own `process` carries the exact block semantics; here the contract
    /// ties the output shape and range to the inputs and keeps the variant.
    pub fn process(&mut self, in_l: &Vec<i64>, in_r: &Vec<i64>, sample_rate: i64)
        -> (out: (Vec<i64>, Vec<i64>))
        requires
            old(self).wf(),
            1 <= sample_rate <= 1_000_000,
            forall|k: int| 0 <= k < in_l@.len() ==> in_range(#[trigger] in_l@[k] as int),
            forall|k: int| 0 <= k < in_r@.len() ==> in_range(#[trigger] in_r@[k] as int),
        ensures
            final(self).wf(),
            out.0@.len() == if in_l@.len() <= in_r@.len() { in_l@.len() } else { in_r@.len() },
            out.1@.len() == out.0@.len(),
            forall|k: int| 0 <= k < out.0@.len() ==> in_range(#[trigger] out.0@[k] as int),
            forall|k: int| 0 <= k < out.1@.len() ==> in_range(#[trigger] out.1@[k] as int),
            insert_params_preserved(*old(self), *final(self)),
            insert_block_post(*old(self), *final(self), in_l@, in_r@, out.0@, out.1@,
                sample_rate),
            forall|k: int| 0 <= k < zip_spec(in_l@, in_r@).len()
                ==> (#[trigger] out.0@[k], out.1@[k]) == insert_outs_spec(
                    *old(self), zip_spec(in_l@, in_r@), sample_rate)[k],
    {
        match self {
            InsertEffect::FeedbackDelay(e) => e.process(in_l, in_r),
            InsertEffect::Dynamics(e) => e.process(in_l, in_r),
            InsertEffect::Drive(e) => e.process(in_l, in_r),
            InsertEffect::Ceiling(e) => e.process(in_l, in_r),
            InsertEffect::Clip(e) => e.process(in_l, in_r),
            InsertEffect::Doubler(e) => e.process(in_l, in_r),
            InsertEffect::Sweep(e) => e.process(in_l, in_r),
            InsertEffect::Placement(e) => e.process(in_l, in_r, sample_rate),
        }
    }

    /// Clear whatever state the effect carries; parameters stay.
    pub fn reset(&mut self)
        requires
            old(self).wf(),
        ensures
            final(self).wf(),
            insert_state_cleared(*final(self)),
            insert_params_preserved(*old(self), *final(self)),
    {
        match self {
            InsertEffect::FeedbackDelay(e) => e.reset(),
            InsertEffect::Dynamics(e) => e.reset(),
            InsertEffect::Drive(_) => {},
            InsertEffect::Ceiling(e) => e.reset(),
            InsertEffect::Clip(_) => {},
            InsertEffect::Doubler(e) => e.reset(),
            InsertEffect::Sweep(e) => e.reset(),
            InsertEffect::Placement(e) => e.reset(),
        }
    }

    /// Forward a parameter change to the effect: the identifier selects the
    /// effect's setters in their declaration order; an unknown identifier
    /// changes nothing.
    pub fn set_param(&mut self, id: u32, value: i64)
        requires
            old(self).wf(),
        ensures
            final(self).wf(),
            insert_param_set(*old(self), *final(self), id, value),
    {
        match self {
            InsertEffect::FeedbackDelay(e) => {
                if id == 0 {
                    e.set_time(value);
                } else if id == 1 {
                    e.set_feedback(value);
                } else if id == 2 {
                    e.set_mix(value);
                }
            },
            InsertEffect::Dynamics(e) => {
                if id == 0 {
                    e.set_threshold(value);
                } else if id == 1 {
                    e.set_ratio(value);
                } else if id == 2 {
                    e.set_attack(value);
                } else if id == 3 {
                    e.set_release(value);
                } else if id == 4 {
                    e.set_knee(value);
                } else if id == 5 {
                    e.set_makeup_gain(value);
                }
            },
            InsertEffect::Drive(e) => {
                if id == 0 {
                    e.set_drive(value);
                } else if id == 1 {
                    e.set_mix(value);
                } else if id == 2 {
                    e.set_mode(if value < 0 { 0 } else if value > 2 { 2 } else { value as u32 });
                } else if id == 3 {
                    e.set_output_gain(value);
                }
            },
            InsertEffect::Ceiling(e) => {
                if id == 0 {
                    e.set_threshold(value);
                } else if id == 1 {
                    e.set_release(value);
                } else if id == 2 {
                    e.set_ceiling(value);
                }
            },
            InsertEffect::Clip(e) => {
                if id == 0 {
                    e.set_threshold(value);
                } else if id == 1 {
                    e.set_softness(value);
                }
            },
            InsertEffect::Doubler(e) => {
                if id == 0 {
                    e.set_rate(value);
                } else if id == 1 {
                    e.set_depth(value);
                } else if id == 2 {
                    e.set_mix(value);
                }
            },
            InsertEffect::Sweep(e) => {
                if id == 0 {
                    e.set_rate(value);
                } else if id == 1 {
                    e.set_depth(value);
                } else if id == 2 {
                    e.set_feedback(value);
                } else if id == 3 {
                    e.set_stages(if value < 2 { 2 } else if value > 6 { 6 } else { value as u32 });
                } else if id == 4 {
                    e.set_mix(value);
                }
            },
            InsertEffect::Placement(e) => {
                if id == 0 {
                    e.set_pan(value);
                } else if id == 1 {
                    e.set_width(value);
                } else if id == 2 {
                    e.set_lfo_rate(value);
                } else if id == 3 {
                    e.set_lfo_depth(value);
                }
            },
        }
    }
}

} // verus!
