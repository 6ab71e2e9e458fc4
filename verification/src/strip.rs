//! The per-channel processing strip: insert effects in series, three-band
//! equalizer, dynamics, and the combined gain and pan stage, with peak
//! metering.

use vstd::prelude::*;
use crate::biquad::{ThreeBandEQ, eq_out_spec, eq_state_cleared, eq_step_spec};
use crate::chain::{lemma_take_all, lemma_take_snoc, zip_spec};
use crate::dynamics::{comp_gain_spec, peak_spec, smoothing_coef, smoothing_coef_spec};
use crate::approx::{db_to_linear_q, db_to_linear_spec};
use crate::effects::{
    InsertEffect, insert_chain_spec, insert_outs_spec, insert_params_preserved,
    insert_state_cleared, lemma_insert_outs_len,
};
use crate::fixed::{
    FRAC_ONE, SAMPLE_LIMIT, in_range, is_unit, lemma_abs_mul_bound, lemma_mul_q_bound,
    lemma_mul_q_interp, mul_q, mul_q_spec, sat, sat_i64,
};
use crate::trig::{pan_gain_l_spec, pan_gain_r_spec, pan_gains};

verus! {

/// The strip's gain/pan law, at every pan position: the constant-power
/// gains (cosine left, sine right of the pan angle), with the opposite
/// channel additionally attenuated linearly as the pan moves off center.
pub open spec fn strip_pan_gains_spec(pan: i64) -> (i64, i64) {
    let gl = pan_gain_l_spec(pan as int);
    let gr = pan_gain_r_spec(pan as int);
    if pan > 0 {
        (mul_q_spec(gl, 65536 - pan) as i64, gr as i64)
    } else if pan < 0 {
        (gl as i64, mul_q_spec(gr, 65536 + pan) as i64)
    } else {
        (gl as i64, gr as i64)
    }
}

fn strip_pan_gains(pan: i64) -> (r: (i64, i64))
    requires
        -65536 <= pan <= 65536,
    ensures
        r == strip_pan_gains_spec(pan),
        0 <= r.0 <= 65536,
        0 <= r.1 <= 65536,
{
    let g = pan_gains(pan);
    if pan > 0 {
        proof {
            lemma_abs_mul_bound(g.0 as int, 65536 - pan, 65536, 65536);
            lemma_mul_q_bound(g.0 as int, 65536 - pan, 65536, 65536);
            lemma_mul_q_interp(65536 - pan as int, g.0 as int);
        }
        (mul_q(g.0, FRAC_ONE - pan), g.1)
    } else if pan < 0 {
        proof {
            lemma_abs_mul_bound(g.1 as int, 65536 + pan, 65536, 65536);
            lemma_mul_q_bound(g.1 as int, 65536 + pan, 65536, 65536);
            lemma_mul_q_interp(65536 + pan as int, g.1 as int);
        }
        (g.0, mul_q(g.1, FRAC_ONE + pan))
    } else {
        g
    }
}

/// One relax step of the strip's compressor gain toward unity, taken on
/// near-silent input or a disengaged threshold.
pub open spec fn comp_relax_spec(g: i64) -> i64 {
    (g + mul_q_spec(197, 65536 - g)) as i64
}

/// The gain after `n` relax steps.
pub open spec fn comp_relax_run_spec(g: i64, n: nat) -> i64
    decreases n,
{
    if n == 0 {
        g
    } else {
        comp_relax_spec(comp_relax_run_spec(g, (n - 1) as nat))
    }
}

/// One relax step never overshoots unity and never falls back.
pub proof fn lemma_comp_relax_step(g: i64)
    requires
        0 <= g <= 65536,
    ensures
        g <= comp_relax_spec(g) <= 65536,
        g <= 65536 - 333 ==> comp_relax_spec(g) >= g + 1,
{
    lemma_mul_q_interp(197, 65536 - g as int);
    if g <= 65536 - 333 {
        assert(197 * (65536 - g as int) >= 197int * 333) by (nonlinear_arith)
            requires 65536 - g as int >= 333;
        vstd::arithmetic::div_mod::lemma_div_is_ordered(
            197int * 333, 197 * (65536 - g as int), 65536);
        assert((197int * 333) / 65536 == 1);
    }
}

/// Law (envelope recovery): after enough near-silent samples the strip's
/// compressor gain has relaxed back to within half a percent of unity, from
/// any starting reduction.
pub proof fn lemma_comp_gain_recovers(g: i64, n: nat)
    requires
        0 <= g <= 65536,
        n >= 65536,
    ensures
        65536 - comp_relax_run_spec(g, n) <= 333,
        comp_relax_run_spec(g, n) <= 65536,
    decreases n,
{
    lemma_comp_relax_bound(g, n);
}

/// After `n` relax steps the gain is at least `min(g + n, 65536 - 333)`,
/// and still at most unity.
proof fn lemma_comp_relax_bound(g: i64, n: nat)
    requires
        0 <= g <= 65536,
    ensures
        0 <= comp_relax_run_spec(g, n) <= 65536,
        comp_relax_run_spec(g, n) >= if g + n < 65536 - 333 { g + n } else { (65536 - 333) as int },
    decreases n,
{
    if n > 0 {
        lemma_comp_relax_bound(g, (n - 1) as nat);
        lemma_comp_relax_step(comp_relax_run_spec(g, (n - 1) as nat));
    }
}

/// On near-silent input the strip compressor's step is exactly the relax
/// step, so `lemma_comp_gain_recovers` speaks about runs of silence.
pub proof fn lemma_comp_step_silent_is_relax(
    g: i64, l: i64, r: i64, thr_db: i64, ratio: i64, thr_lin: i64, sf_fast: i64, sf_slow: i64,
)
    requires
        peak_spec(l, r) < 66,
    ensures
        strip_comp_step_spec(g, l, r, thr_db, ratio, thr_lin, sf_fast, sf_slow)
            == comp_relax_spec(g),
{
}

/// The strip compressor's smoothed gain after one stereo sample:
/// near-silent input or a disengaged (non-negative) threshold relaxes the
/// gain toward unity; otherwise the gain moves toward the ratio target,
/// fast when falling and slow when recovering.
pub open spec fn strip_comp_step_spec(
    g: i64, l: i64, r: i64, thr_db: i64, ratio: i64, thr_lin: i64, sf_fast: i64, sf_slow: i64,
) -> i64 {
    let level = peak_spec(l, r);
    if level < 66 || thr_db >= 0 {
        comp_relax_spec(g)
    } else {
        let target = comp_gain_spec(level, thr_lin, ratio);
        let sf = if target < g { sf_fast } else { sf_slow };
        (g + mul_q_spec(sf as int, target - g)) as i64
    }
}

/// Law (envelope recovery at block level): with the equalizer disengaged
/// and compression on, a silent block relaxes the compressor gain by
/// exactly one relax step per sample, so `lemma_comp_gain_recovers`
/// applies to runs of silent blocks reaching the compressor.
pub proof fn lemma_strip_silent_run_relaxes(
    s: StripCore, xs: Seq<(i64, i64)>, thr_db: i64, ratio: i64, thr_lin: i64,
    sf_fast: i64, sf_slow: i64, gain: i64, pan: i64,
)
    requires
        forall|k: int| 0 <= k < xs.len() ==> #[trigger] xs[k] == (0i64, 0i64),
    ensures
        strip_run_spec(s, xs, false, true, thr_db, ratio, thr_lin, sf_fast, sf_slow,
            gain, pan).2 == comp_relax_run_spec(s.2, xs.len()),
    decreases xs.len(),
{
    if xs.len() > 0 {
        lemma_strip_silent_run_relaxes(s, xs.drop_last(), thr_db, ratio, thr_lin, sf_fast,
            sf_slow, gain, pan);
        let prev = strip_run_spec(s, xs.drop_last(), false, true, thr_db, ratio, thr_lin,
            sf_fast, sf_slow, gain, pan);
        assert(xs.last() == (0i64, 0i64));
        lemma_comp_step_silent_is_relax(prev.2, 0i64, 0i64, thr_db, ratio, thr_lin,
            sf_fast, sf_slow);
    }
}

/// Model of the strip's sample-by-sample core: the two equalizers, the
/// compressor gain, and the two peak meters.
pub type StripCore = (ThreeBandEQ, ThreeBandEQ, i64, i64, i64);

/// One core step: equalize (if engaged), compress (if engaged), apply the
/// combined gain and pan law, and track the output peaks.
pub open spec fn strip_step_spec(
    s: StripCore, l: i64, r: i64, eq_active: bool, comp_active: bool, thr_db: i64, ratio: i64,
    thr_lin: i64, sf_fast: i64, sf_slow: i64, gain: i64, pan: i64,
) -> (StripCore, (i64, i64)) {
    let l1 = if eq_active { eq_out_spec(s.0, l) } else { l };
    let r1 = if eq_active { eq_out_spec(s.1, r) } else { r };
    let eq_l2 = if eq_active { eq_step_spec(s.0, l) } else { s.0 };
    let eq_r2 = if eq_active { eq_step_spec(s.1, r) } else { s.1 };
    let g2 = if comp_active {
        strip_comp_step_spec(s.2, l1, r1, thr_db, ratio, thr_lin, sf_fast, sf_slow)
    } else {
        s.2
    };
    let l2 = if comp_active { mul_q_spec(l1 as int, g2 as int) as i64 } else { l1 };
    let r2 = if comp_active { mul_q_spec(r1 as int, g2 as int) as i64 } else { r1 };
    let pg = strip_pan_gains_spec(pan);
    let fgl = mul_q_spec(gain as int, pg.0 as int);
    let fgr = mul_q_spec(gain as int, pg.1 as int);
    let l3 = sat_i64(mul_q_spec(l2 as int, fgl));
    let r3 = sat_i64(mul_q_spec(r2 as int, fgr));
    let al = if l3 >= 0 { l3 as int } else { -(l3 as int) };
    let ar = if r3 >= 0 { r3 as int } else { -(r3 as int) };
    let pl2 = if al > s.3 { al as i64 } else { s.3 };
    let pr2 = if ar > s.4 { ar as i64 } else { s.4 };
    ((eq_l2, eq_r2, g2, pl2, pr2), (l3, r3))
}

/// The core after a whole block.
pub open spec fn strip_run_spec(
    s: StripCore, xs: Seq<(i64, i64)>, eq_active: bool, comp_active: bool, thr_db: i64,
    ratio: i64, thr_lin: i64, sf_fast: i64, sf_slow: i64, gain: i64, pan: i64,
) -> StripCore
    decreases xs.len(),
{
    if xs.len() == 0 {
        s
    } else {
        strip_step_spec(
            strip_run_spec(s, xs.drop_last(), eq_active, comp_active, thr_db, ratio, thr_lin,
                sf_fast, sf_slow, gain, pan),
            xs.last().0, xs.last().1, eq_active, comp_active, thr_db, ratio, thr_lin,
            sf_fast, sf_slow, gain, pan).0
    }
}

/// The core's output block.
pub open spec fn strip_outs_spec(
    s: StripCore, xs: Seq<(i64, i64)>, eq_active: bool, comp_active: bool, thr_db: i64,
    ratio: i64, thr_lin: i64, sf_fast: i64, sf_slow: i64, gain: i64, pan: i64,
) -> Seq<(i64, i64)>
    decreases xs.len(),
{
    if xs.len() == 0 {
        Seq::empty()
    } else {
        strip_outs_spec(s, xs.drop_last(), eq_active, comp_active, thr_db, ratio, thr_lin,
            sf_fast, sf_slow, gain, pan).push(
            strip_step_spec(
                strip_run_spec(s, xs.drop_last(), eq_active, comp_active, thr_db, ratio,
                    thr_lin, sf_fast, sf_slow, gain, pan),
                xs.last().0, xs.last().1, eq_active, comp_active, thr_db, ratio, thr_lin,
                sf_fast, sf_slow, gain, pan).1,
        )
    }
}

pub proof fn lemma_strip_outs_len(
    s: StripCore, xs: Seq<(i64, i64)>, eq_active: bool, comp_active: bool, thr_db: i64,
    ratio: i64, thr_lin: i64, sf_fast: i64, sf_slow: i64, gain: i64, pan: i64,
)
    ensures
        strip_outs_spec(s, xs, eq_active, comp_active, thr_db, ratio, thr_lin, sf_fast,
            sf_slow, gain, pan).len() == xs.len(),
    decreases xs.len(),
{
    if xs.len() > 0 {
        lemma_strip_outs_len(s, xs.drop_last(), eq_active, comp_active, thr_db, ratio,
            thr_lin, sf_fast, sf_slow, gain, pan);
    }
}

pub proof fn lemma_strip_outs_index(
    s: StripCore, xs: Seq<(i64, i64)>, eq_active: bool, comp_active: bool, thr_db: i64,
    ratio: i64, thr_lin: i64, sf_fast: i64, sf_slow: i64, gain: i64, pan: i64, k: int,
)
    requires
        0 <= k < xs.len(),
    ensures
        strip_outs_spec(s, xs, eq_active, comp_active, thr_db, ratio, thr_lin, sf_fast,
            sf_slow, gain, pan)[k] == strip_step_spec(
            strip_run_spec(s, xs.take(k), eq_active, comp_active, thr_db, ratio, thr_lin,
                sf_fast, sf_slow, gain, pan),
            xs[k].0, xs[k].1, eq_active, comp_active, thr_db, ratio, thr_lin, sf_fast,
            sf_slow, gain, pan).1,
    decreases xs.len(),
{
    lemma_strip_outs_len(s, xs, eq_active, comp_active, thr_db, ratio, thr_lin, sf_fast,
        sf_slow, gain, pan);
    if k == xs.len() - 1 {
        assert(xs.take(k) =~= xs.drop_last());
    } else {
        lemma_strip_outs_index(s, xs.drop_last(), eq_active, comp_active, thr_db, ratio,
            thr_lin, sf_fast, sf_slow, gain, pan, k);
        assert(xs.drop_last().take(k) =~= xs.take(k));
        assert(xs.drop_last()[k] == xs[k]);
    }
}

pub struct ChannelStrip {
    pub eq_l: ThreeBandEQ,
    pub eq_r: ThreeBandEQ,
    pub comp_gain: i64,
    pub gain: i64,
    pub pan: i64,
    pub mute: bool,
    pub solo: bool,
    pub eq_active: bool,
    pub comp_active: bool,
    pub comp_threshold: i64,
    pub comp_ratio: i64,
    pub peak_l: i64,
    pub peak_r: i64,
    pub inserts: Vec<InsertEffect>,
    pub sample_rate: i64,
}

impl ChannelStrip {
    pub open spec fn wf(self) -> bool {
        &&& self.eq_l.wf() && self.eq_r.wf()
        &&& 1 <= self.comp_gain <= 65536
        &&& -16777216 <= self.gain <= 16777216
        &&& -65536 <= self.pan <= 65536
        &&& -60 * 65536 <= self.comp_threshold <= 24 * 65536
        &&& 65536 <= self.comp_ratio <= 20 * 65536
        &&& 0 <= self.peak_l <= SAMPLE_LIMIT
        &&& 0 <= self.peak_r <= SAMPLE_LIMIT
        &&& forall|j: int| 0 <= j < self.inserts@.len() ==> (#[trigger] self.inserts@[j]).wf()
        &&& 1 <= self.sample_rate <= 1_000_000
    }

    /// The strip's sample-by-sample core state.
    pub open spec fn dsp_core(self) -> StripCore {
        (self.eq_l, self.eq_r, self.comp_gain, self.peak_l, self.peak_r)
    }

    pub fn new(sample_rate: i64) -> (r: ChannelStrip)
        requires
            1 <= sample_rate <= 1_000_000,
        ensures
            r.wf(),
            r.comp_gain == 65536 && r.gain == 65536 && r.pan == 0,
            !r.mute && !r.solo && !r.eq_active && !r.comp_active,
            r.comp_threshold == -12 * 65536 && r.comp_ratio == 4 * 65536,
            r.peak_l == 0 && r.peak_r == 0,
            r.inserts@.len() == 0,
            r.sample_rate == sample_rate,
            eq_state_cleared(r.eq_l) && eq_state_cleared(r.eq_r),
    {
        ChannelStrip {
            eq_l: ThreeBandEQ::new(sample_rate),
            eq_r: ThreeBandEQ::new(sample_rate),
            comp_gain: FRAC_ONE,
            gain: FRAC_ONE,
            pan: 0,
            mute: false,
            solo: false,
            eq_active: false,
            comp_active: false,
            comp_threshold: -12 * FRAC_ONE,
            comp_ratio: 4 * FRAC_ONE,
            peak_l: 0,
            peak_r: 0,
            inserts: Vec::new(),
            sample_rate,
        }
    }

    /// One core sample, after any inserts: equalize, compress, gain/pan,
    /// meter.
    #[verifier::rlimit(100)]
    fn core_sample(
        &mut self, l: i64, r: i64, thr_lin: i64, sf_fast: i64, sf_slow: i64,
        pgl: i64, pgr: i64,
    ) -> (out: (i64, i64))
        requires
            old(self).wf(),
            in_range(l as int),
            in_range(r as int),
            1 <= thr_lin <= 65536,
            is_unit(sf_fast as int),
            is_unit(sf_slow as int),
            (pgl, pgr) == strip_pan_gains_spec(old(self).pan),
            0 <= pgl <= 65536,
            0 <= pgr <= 65536,
        ensures
            final(self).wf(),
            ({
                let stepped = strip_step_spec(
                    old(self).dsp_core(), l, r, old(self).eq_active, old(self).comp_active,
                    old(self).comp_threshold, old(self).comp_ratio, thr_lin, sf_fast,
                    sf_slow, old(self).gain, old(self).pan);
                final(self).dsp_core() == stepped.0 && out == stepped.1
            }),
            in_range(out.0 as int),
            in_range(out.1 as int),
            *final(self) == (ChannelStrip {
                eq_l: final(self).eq_l,
                eq_r: final(self).eq_r,
                comp_gain: final(self).comp_gain,
                peak_l: final(self).peak_l,
                peak_r: final(self).peak_r,
                ..*old(self)
            }),
    {
        let (l1, r1) = if self.eq_active {
            let a = self.eq_l.process(l);
            let b = self.eq_r.process(r);
            (a, b)
        } else {
            (l, r)
        };
        let (l2, r2) = if self.comp_active {
            let level = if l1 >= 0 { l1 } else { -l1 };
            let level_r = if r1 >= 0 { r1 } else { -r1 };
            let level = if level >= level_r { level } else { level_r };
            let g2 = if level < 66 || self.comp_threshold >= 0 {
                proof {
                    lemma_mul_q_interp(197, 65536 - self.comp_gain as int);
                }
                self.comp_gain + mul_q(197, FRAC_ONE - self.comp_gain)
            } else {
                let target = comp_target(level, thr_lin, self.comp_ratio);
                let sf = if target < self.comp_gain { sf_fast } else { sf_slow };
                proof {
                    lemma_abs_mul_bound(sf as int, target - self.comp_gain, 65536, 65536);
                    lemma_mul_q_interp(sf as int, target - self.comp_gain);
                }
                self.comp_gain + mul_q(sf, target - self.comp_gain)
            };
            self.comp_gain = g2;
            proof {
                lemma_abs_mul_bound(l1 as int, g2 as int, SAMPLE_LIMIT as int, 65536);
                lemma_mul_q_bound(l1 as int, g2 as int, SAMPLE_LIMIT as int, 65536);
                lemma_abs_mul_bound(r1 as int, g2 as int, SAMPLE_LIMIT as int, 65536);
                lemma_mul_q_bound(r1 as int, g2 as int, SAMPLE_LIMIT as int, 65536);
            }
            (mul_q(l1, g2), mul_q(r1, g2))
        } else {
            (l1, r1)
        };
        proof {
            lemma_abs_mul_bound(self.gain as int, pgl as int, 16777216, 65536);
            lemma_mul_q_bound(self.gain as int, pgl as int, 16777216, 65536);
            lemma_abs_mul_bound(self.gain as int, pgr as int, 16777216, 65536);
            lemma_mul_q_bound(self.gain as int, pgr as int, 16777216, 65536);
        }
        let fgl = mul_q(self.gain, pgl);
        let fgr = mul_q(self.gain, pgr);
        proof {
            lemma_abs_mul_bound(l2 as int, fgl as int, SAMPLE_LIMIT as int, 16777216);
            lemma_abs_mul_bound(r2 as int, fgr as int, SAMPLE_LIMIT as int, 16777216);
        }
        let l3 = sat(mul_q(l2, fgl));
        let r3 = sat(mul_q(r2, fgr));
        let al = if l3 >= 0 { l3 } else { -l3 };
        let ar = if r3 >= 0 { r3 } else { -r3 };
        if al > self.peak_l {
            self.peak_l = al;
        }
        if ar > self.peak_r {
            self.peak_r = ar;
        }
        (l3, r3)
    }

    /// Process a stereo block through the strip. A muted strip writes exact
    /// silence and leaves every piece of state untouched, whatever the
    /// other settings. An unmuted strip runs the inserts in series and
    /// then the core; with no inserts the outputs are exactly the core
    /// fold over the inputs.
    pub fn process_block(&mut self, in_l: &Vec<i64>, in_r: &Vec<i64>, sample_rate: i64)
        -> (out: (Vec<i64>, Vec<i64>))
        requires
            old(self).wf(),
            1 <= sample_rate <= 1_000_000,
            forall|k: int| 0 <= k < in_l@.len() ==> in_range(#[trigger] in_l@[k] as int),
            forall|k: int| 0 <= k < in_r@.len() ==> in_range(#[trigger] in_r@[k] as int),
        ensures
            final(self).wf(),
            out.0@.len() == if in_l@.len() <= in_r@.len() { in_l@.len() } else { in_r@.len() },
            out.1@.len() == out.0@.len(),
            forall|k: int| 0 <= k < out.0@.len() ==> in_range(#[trigger] out.0@[k] as int),
            forall|k: int| 0 <= k < out.1@.len() ==> in_range(#[trigger] out.1@[k] as int),
            old(self).mute ==> ((forall|k: int| 0 <= k < out.0@.len()
                    ==> #[trigger] out.0@[k] == 0i64)
                && (forall|k: int| 0 <= k < out.1@.len() ==> #[trigger] out.1@[k] == 0i64)),
            old(self).mute ==> *final(self) == *old(self),
            final(self).gain == old(self).gain && final(self).pan == old(self).pan,
            final(self).mute == old(self).mute && final(self).solo == old(self).solo,
            final(self).eq_active == old(self).eq_active,
            final(self).comp_active == old(self).comp_active,
            final(self).comp_threshold == old(self).comp_threshold,
            final(self).comp_ratio == old(self).comp_ratio,
            final(self).sample_rate == old(self).sample_rate,
            final(self).inserts@.len() == old(self).inserts@.len(),
            !old(self).mute ==> ({
                let xs = insert_chain_spec(
                    old(self).inserts@, zip_spec(in_l@, in_r@), sample_rate);
                let thr_lin = db_to_linear_spec(
                    if old(self).comp_threshold > 0 { 0int } else { old(self).comp_threshold as int });
                let sf_fast = (65536 - smoothing_coef_spec(197, sample_rate)) as i64;
                let sf_slow = (65536 - smoothing_coef_spec(6554, sample_rate)) as i64;
                &&& final(self).dsp_core() == strip_run_spec(
                    old(self).dsp_core(), xs, old(self).eq_active, old(self).comp_active,
                    old(self).comp_threshold, old(self).comp_ratio, thr_lin as i64, sf_fast,
                    sf_slow, old(self).gain, old(self).pan)
                &&& forall|k: int| 0 <= k < xs.len()
                    ==> (#[trigger] out.0@[k], out.1@[k]) == strip_outs_spec(
                        old(self).dsp_core(), xs, old(self).eq_active, old(self).comp_active,
                        old(self).comp_threshold, old(self).comp_ratio, thr_lin as i64,
                        sf_fast, sf_slow, old(self).gain, old(self).pan)[k]
            }),
            !old(self).mute ==> (forall|m: int| 0 <= m < final(self).inserts@.len()
                ==> insert_params_preserved(
                    old(self).inserts@[m], #[trigger] final(self).inserts@[m])),
    {
        let len = if in_l.len() <= in_r.len() { in_l.len() } else { in_r.len() };
        if self.mute {
            let mut out_l: Vec<i64> = Vec::new();
            let mut out_r: Vec<i64> = Vec::new();
            let mut i: usize = 0;
            while i < len
                invariant
                    i <= len,
                    out_l@.len() == i && out_r@.len() == i,
                    forall|k: int| 0 <= k < i ==> #[trigger] out_l@[k] == 0i64,
                    forall|k: int| 0 <= k < i ==> #[trigger] out_r@[k] == 0i64,
                    forall|k: int| 0 <= k < i ==> in_range(#[trigger] out_l@[k] as int),
                    forall|k: int| 0 <= k < i ==> in_range(#[trigger] out_r@[k] as int),
                decreases len - i,
            {
                out_l.push(0);
                out_r.push(0);
                i += 1;
            }
            return (out_l, out_r);
        }

        // Copy the input, then let each insert read and overwrite it.
        let mut cur_l: Vec<i64> = Vec::new();
        let mut cur_r: Vec<i64> = Vec::new();
        let mut i: usize = 0;
        while i < len
            invariant
                i <= len,
                len <= in_l@.len() && len <= in_r@.len(),
                cur_l@.len() == i && cur_r@.len() == i,
                forall|k: int| 0 <= k < in_l@.len() ==> in_range(#[trigger] in_l@[k] as int),
                forall|k: int| 0 <= k < in_r@.len() ==> in_range(#[trigger] in_r@[k] as int),
                forall|k: int| 0 <= k < i ==> #[trigger] cur_l@[k] == in_l@[k],
                forall|k: int| 0 <= k < i ==> #[trigger] cur_r@[k] == in_r@[k],
            decreases len - i,
        {
            cur_l.push(in_l[i]);
            cur_r.push(in_r[i]);
            i += 1;
        }
        proof {
            assert forall|k: int| 0 <= k < cur_l@.len()
                implies in_range(#[trigger] cur_l@[k] as int) by {
                assert(cur_l@[k] == in_l@[k]);
            }
            assert forall|k: int| 0 <= k < cur_r@.len()
                implies in_range(#[trigger] cur_r@[k] as int) by {
                assert(cur_r@[k] == in_r@[k]);
            }
        }

        let ghost xs0 = zip_spec(in_l@, in_r@);
        let ghost ins0 = self.inserts@;
        proof {
            assert(zip_spec(cur_l@, cur_r@) =~= xs0);
        }
        let n_ins = self.inserts.len();
        let mut j: usize = 0;
        while j < n_ins
            invariant
                j <= n_ins,
                self.inserts@.len() == n_ins,
                ins0.len() == n_ins,
                ins0 == old(self).inserts@,
                xs0 == zip_spec(in_l@, in_r@),
                xs0.len() == len,
                forall|m: int| 0 <= m < n_ins ==> (#[trigger] self.inserts@[m]).wf(),
                forall|m: int| j <= m < n_ins ==> #[trigger] self.inserts@[m] == ins0[m],
                forall|m: int| 0 <= m < j
                    ==> insert_params_preserved(ins0[m], #[trigger] self.inserts@[m]),
                cur_l@.len() == len && cur_r@.len() == len,
                1 <= sample_rate <= 1_000_000,
                forall|k: int| 0 <= k < cur_l@.len() ==> in_range(#[trigger] cur_l@[k] as int),
                forall|k: int| 0 <= k < cur_r@.len() ==> in_range(#[trigger] cur_r@[k] as int),
                zip_spec(cur_l@, cur_r@) == insert_chain_spec(
                    ins0.take(j as int), xs0, sample_rate),
                self.eq_l == old(self).eq_l && self.eq_r == old(self).eq_r,
                self.comp_gain == old(self).comp_gain,
                self.gain == old(self).gain && self.pan == old(self).pan,
                self.mute == old(self).mute && self.solo == old(self).solo,
                self.eq_active == old(self).eq_active,
                self.comp_active == old(self).comp_active,
                self.comp_threshold == old(self).comp_threshold,
                self.comp_ratio == old(self).comp_ratio,
                self.peak_l == old(self).peak_l && self.peak_r == old(self).peak_r,
                self.sample_rate == old(self).sample_rate,
                self.wf(),
            decreases n_ins - j,
        {
            let ghost ins_pre = self.inserts@;
            let ghost prev = zip_spec(cur_l@, cur_r@);
            let mut e = self.inserts.remove(j);
            let (nl, nr) = e.process(&cur_l, &cur_r, sample_rate);
            cur_l = nl;
            cur_r = nr;
            self.inserts.insert(j, e);
            proof {
                assert(self.inserts@ =~= ins_pre.update(j as int, e));
                lemma_take_snoc(ins0, j as int);
                lemma_insert_outs_len(ins0[j as int], prev, sample_rate);
                assert(zip_spec(cur_l@, cur_r@) =~= insert_outs_spec(
                    ins0[j as int], prev, sample_rate));
            }
            j += 1;
        }
        proof {
            crate::chain::lemma_take_all(ins0);
        }

        let ghost core0 = self.dsp_core();
        let ghost xs = zip_spec(cur_l@, cur_r@);
        let ghost eq_active = self.eq_active;
        let ghost comp_active = self.comp_active;
        let ghost thr_db = self.comp_threshold;
        let ghost ratio = self.comp_ratio;
        let ghost gain = self.gain;
        let ghost pan = self.pan;

        let thr_arg = if self.comp_threshold > 0 { 0 } else { self.comp_threshold };
        let thr_lin = db_to_linear_q(thr_arg);
        let sf_fast = FRAC_ONE - smoothing_coef(197, sample_rate);
        let sf_slow = FRAC_ONE - smoothing_coef(6554, sample_rate);
        let pg = strip_pan_gains(self.pan);

        let mut out_l: Vec<i64> = Vec::new();
        let mut out_r: Vec<i64> = Vec::new();
        let mut i: usize = 0;
        while i < len
            invariant
                i <= len,
                len == xs.len(),
                xs == zip_spec(cur_l@, cur_r@),
                cur_l@.len() == len && cur_r@.len() == len,
                self.wf(),
                self.gain == gain && self.pan == pan,
                self.mute == old(self).mute && self.solo == old(self).solo,
                self.eq_active == eq_active,
                self.comp_active == comp_active,
                self.comp_threshold == thr_db,
                self.comp_ratio == ratio,
                self.sample_rate == old(self).sample_rate,
                self.inserts@.len() == old(self).inserts@.len(),
                forall|m: int| 0 <= m < self.inserts@.len()
                    ==> (#[trigger] self.inserts@[m]).wf(),
                forall|m: int| 0 <= m < self.inserts@.len()
                    ==> insert_params_preserved(
                        old(self).inserts@[m], #[trigger] self.inserts@[m]),
                self.gain == old(self).gain && self.pan == old(self).pan,
                self.eq_active == old(self).eq_active,
                self.comp_active == old(self).comp_active,
                self.comp_threshold == old(self).comp_threshold,
                self.comp_ratio == old(self).comp_ratio,
                thr_lin as int == db_to_linear_spec(
                    if thr_db > 0 { 0int } else { thr_db as int }),
                1 <= thr_lin <= 65536,
                sf_fast == 65536 - smoothing_coef_spec(197, sample_rate),
                sf_slow == 65536 - smoothing_coef_spec(6554, sample_rate),
                is_unit(sf_fast as int) && is_unit(sf_slow as int),
                pg == strip_pan_gains_spec(pan),
                0 <= pg.0 <= 65536 && 0 <= pg.1 <= 65536,
                forall|k: int| 0 <= k < cur_l@.len() ==> in_range(#[trigger] cur_l@[k] as int),
                forall|k: int| 0 <= k < cur_r@.len() ==> in_range(#[trigger] cur_r@[k] as int),
                self.dsp_core() == strip_run_spec(core0, xs.take(i as int), eq_active,
                    comp_active, thr_db, ratio, thr_lin, sf_fast, sf_slow, gain, pan),
                out_l@.len() == i && out_r@.len() == i,
                forall|k: int| 0 <= k < i
                    ==> (#[trigger] out_l@[k], out_r@[k]) == strip_outs_spec(
                        core0, xs, eq_active, comp_active, thr_db, ratio, thr_lin, sf_fast,
                        sf_slow, gain, pan)[k],
                forall|k: int| 0 <= k < i ==> in_range(#[trigger] out_l@[k] as int),
                forall|k: int| 0 <= k < i ==> in_range(#[trigger] out_r@[k] as int),
            decreases len - i,
        {
            proof {
                lemma_take_snoc(xs, i as int);
                lemma_strip_outs_len(core0, xs, eq_active, comp_active, thr_db, ratio,
                    thr_lin, sf_fast, sf_slow, gain, pan);
                lemma_strip_outs_index(core0, xs, eq_active, comp_active, thr_db, ratio,
                    thr_lin, sf_fast, sf_slow, gain, pan, i as int);
            }
            let o = self.core_sample(cur_l[i], cur_r[i], thr_lin, sf_fast, sf_slow, pg.0, pg.1);
            out_l.push(o.0);
            out_r.push(o.1);
            i += 1;
        }
        proof {
            lemma_take_all(xs);
            lemma_strip_outs_len(core0, xs, eq_active, comp_active, thr_db, ratio, thr_lin,
                sf_fast, sf_slow, gain, pan);
            assert(xs == insert_chain_spec(old(self).inserts@, xs0, sample_rate));
        }
        (out_l, out_r)
    }

    /// Clear the strip's DSP state: equalizer histories, compressor gain,
    /// every insert's state, and the peak meters. Parameters stay, the
    /// inserts keep their variants and settings.
    pub fn reset(&mut self)
        requires
            old(self).wf(),
        ensures
            final(self).wf(),
            eq_state_cleared(final(self).eq_l),
            eq_state_cleared(final(self).eq_r),
            final(self).comp_gain == 65536,
            final(self).peak_l == 0 && final(self).peak_r == 0,
            final(self).gain == old(self).gain && final(self).pan == old(self).pan,
            final(self).mute == old(self).mute && final(self).solo == old(self).solo,
            final(self).eq_active == old(self).eq_active,
            final(self).comp_active == old(self).comp_active,
            final(self).comp_threshold == old(self).comp_threshold,
            final(self).comp_ratio == old(self).comp_ratio,
            final(self).sample_rate == old(self).sample_rate,
            final(self).inserts@.len() == old(self).inserts@.len(),
            forall|m: int| 0 <= m < final(self).inserts@.len()
                ==> insert_state_cleared(#[trigger] final(self).inserts@[m]),
            forall|m: int| 0 <= m < final(self).inserts@.len()
                ==> insert_params_preserved(
                    old(self).inserts@[m], #[trigger] final(self).inserts@[m]),
    {
        self.eq_l.reset();
        self.eq_r.reset();
        self.comp_gain = FRAC_ONE;
        self.peak_l = 0;
        self.peak_r = 0;
        let ghost ins0 = self.inserts@;
        let n_ins = self.inserts.len();
        let mut j: usize = 0;
        while j < n_ins
            invariant
                j <= n_ins,
                self.inserts@.len() == n_ins,
                ins0.len() == n_ins,
                ins0 == old(self).inserts@,
                forall|m: int| 0 <= m < n_ins ==> (#[trigger] self.inserts@[m]).wf(),
                forall|m: int| j <= m < n_ins ==> #[trigger] self.inserts@[m] == ins0[m],
                forall|m: int| 0 <= m < j
                    ==> insert_state_cleared(#[trigger] self.inserts@[m]),
                forall|m: int| 0 <= m < j
                    ==> insert_params_preserved(ins0[m], #[trigger] self.inserts@[m]),
                eq_state_cleared(self.eq_l),
                eq_state_cleared(self.eq_r),
                self.eq_l.wf() && self.eq_r.wf(),
                self.comp_gain == 65536,
                self.peak_l == 0 && self.peak_r == 0,
                self.gain == old(self).gain && self.pan == old(self).pan,
                self.mute == old(self).mute && self.solo == old(self).solo,
                self.eq_active == old(self).eq_active,
                self.comp_active == old(self).comp_active,
                self.comp_threshold == old(self).comp_threshold,
                self.comp_ratio == old(self).comp_ratio,
                self.sample_rate == old(self).sample_rate,
                self.wf(),
            decreases n_ins - j,
        {
            let ghost ins_pre = self.inserts@;
            let mut e = self.inserts.remove(j);
            e.reset();
            self.inserts.insert(j, e);
            proof {
                assert(self.inserts@ =~= ins_pre.update(j as int, e));
            }
            j += 1;
        }
    }

    /// Hand out and clear the peak meters (consume-on-read).
    pub fn take_levels(&mut self) -> (r: (i64, i64))
        requires
            old(self).wf(),
        ensures
            final(self).wf(),
            r == (old(self).peak_l, old(self).peak_r),
            final(self).peak_l == 0 && final(self).peak_r == 0,
            *final(self) == (ChannelStrip { peak_l: 0i64, peak_r: 0i64, ..*old(self) }),
    {
        let r = (self.peak_l, self.peak_r);
        self.peak_l = 0;
        self.peak_r = 0;
        r
    }
}

/// The ratio target of the strip compressor for a level above the linear
/// threshold: `1 / (1 + excess / ratio)`.
fn comp_target(level: i64, thr_lin: i64, ratio: i64) -> (g: i64)
    requires
        0 <= level <= SAMPLE_LIMIT,
        1 <= thr_lin <= 65536,
        65536 <= ratio <= 20 * 65536,
    ensures
        g == comp_gain_spec(level, thr_lin, ratio),
        1 <= g <= 65536,
{
    if level <= thr_lin {
        FRAC_ONE
    } else {
        proof {
            vstd::arithmetic::div_mod::lemma_div_pos_is_pos((level - thr_lin) * 65536, thr_lin as int);
            vstd::arithmetic::div_mod::lemma_div_is_ordered_by_denominator(
                (level - thr_lin) * 65536, 1, thr_lin as int);
        }
        let excess = crate::fixed::div_q(level - thr_lin, thr_lin);
        proof {
            vstd::arithmetic::div_mod::lemma_div_pos_is_pos(excess as int * 65536, ratio as int);
        }
        let reduction = crate::fixed::div_q(excess, ratio);
        proof {
            vstd::arithmetic::div_mod::lemma_div_pos_is_pos(65536int * 65536, 65536 + reduction as int);
            vstd::arithmetic::div_mod::lemma_div_is_ordered_by_denominator(
                65536int * 65536, 65536, 65536 + reduction as int);
            vstd::arithmetic::div_mod::lemma_div_multiples_vanish(65536, 65536);
        }
        let t = crate::fixed::div_q(FRAC_ONE, FRAC_ONE + reduction);
        if t < 1 { 1 } else { t }
    }
}

} // verus!
