//! Schroeder-style reverb: pre-delay, early-reflection taps, a modulated
//! comb bank, and a series allpass diffusion chain per channel.

use vstd::prelude::*;
use crate::approx::{exp_neg_q, exp_neg_spec};
use crate::delay::{DelayLine, write_spec};
use crate::filters::{
    AllpassFilter, CombFilter, allpass_out_spec, allpass_step_spec, comb_mod_out_spec,
    comb_mod_step_spec, comb_quiet, lemma_allpass_quiet_step,
};
use crate::fixed::{
    FRAC_ONE, SAMPLE_LIMIT, div_q, div_q_spec, in_range, is_unit, lemma_abs_mul_bound,
    lemma_mul_q_bound, lemma_mul_q_interp, mul_q, mul_q_spec, sat, sat_i64,
};
use crate::modulation::{lfo_inc, wrap_phase, wrap_phase_spec};
use crate::trig::{PI_Q, TWO_PI_Q, sin_q, sin_q_spec};

verus! {

/// The comb feedback for a decay time (Q16 seconds): the Freeverb relation
/// `10^(-3 avg_delay / (decay * rate))` with the average comb delay of the
/// 44.1 kHz tunings, which makes the exponent `0.2193 / decay`, capped at
/// 0.999 so the loop can never self-amplify.
pub open spec fn reverb_feedback_spec(decay: i64) -> i64 {
    let e = exp_neg_spec(div_q_spec(14372, decay as int));
    if e > 65470 {
        65470i64
    } else {
        e as i64
    }
}

fn reverb_feedback(decay: i64) -> (r: i64)
    requires
        655 <= decay <= 20 * 65536,
    ensures
        r == reverb_feedback_spec(decay),
        0 <= r <= 65470,
{
    proof {
        vstd::arithmetic::div_mod::lemma_div_pos_is_pos(14372int * 65536, decay as int);
    }
    let e = exp_neg_q(div_q(14372, decay));
    if e > 65470 {
        65470
    } else {
        e
    }
}

/// The damping pole for a 0..1 damping control: the control maps to a
/// corner frequency in 2 kHz..20 kHz, and the pole is `e^(-omega)` at that
/// frequency (`damp2` uses one-and-a-half omega).
pub open spec fn damp_omega_spec(damping: i64, sample_rate: i64) -> int {
    let df = 2000 + ((65536 - damping) * 18000) / 65536;
    (411774 * df) / (sample_rate as int)
}

fn damp_coeffs(damping: i64, sample_rate: i64) -> (r: (i64, i64))
    requires
        is_unit(damping as int),
        1 <= sample_rate <= 1_000_000,
    ensures
        r.0 == exp_neg_spec(damp_omega_spec(damping, sample_rate)),
        r.1 == exp_neg_spec(mul_q_spec(damp_omega_spec(damping, sample_rate), 98304)),
        is_unit(r.0 as int),
        is_unit(r.1 as int),
{
    proof {
        assert(0 <= (65536 - damping as int) * 18000 <= 65536int * 18000) by (nonlinear_arith)
            requires 0 <= damping <= 65536;
        vstd::arithmetic::div_mod::lemma_div_pos_is_pos((65536 - damping as int) * 18000, 65536);
        vstd::arithmetic::div_mod::lemma_div_is_ordered(
            (65536 - damping as int) * 18000, 65536int * 18000, 65536);
        vstd::arithmetic::div_mod::lemma_div_multiples_vanish(18000, 65536);
    }
    let df = 2000 + ((FRAC_ONE - damping) * 18000) / FRAC_ONE;
    proof {
        assert(0 <= 411774int * df <= 411774int * 20000) by (nonlinear_arith)
            requires 0 <= df <= 20000;
        vstd::arithmetic::div_mod::lemma_div_pos_is_pos(411774 * df as int, sample_rate as int);
        vstd::arithmetic::div_mod::lemma_div_is_ordered(
            411774 * df as int, 411774int * 20000, sample_rate as int);
    }
    let omega = (TWO_PI_Q * df) / sample_rate;
    proof {
        lemma_abs_mul_bound(omega as int, 98304, 411774int * 20000, 98304);
        lemma_mul_q_bound(omega as int, 98304, 411774int * 20000, 98304);
        vstd::arithmetic::div_mod::lemma_div_pos_is_pos(omega as int * 98304, 65536);
    }
    (exp_neg_q(omega), exp_neg_q(mul_q(omega, 98304)))
}

/// The oscillator value for comb `j`: the shared phase offset by `j`
/// quarter-turns.
pub open spec fn rev_lfo_spec(ph2: i64, j: int) -> int {
    sin_q_spec(wrap_phase_spec(ph2 + (j * 205887) / 4) as int)
}

/// The modulated delay of a comb: its base length scaled by the size
/// control into `0.5..2` of nominal, plus up to five percent of that,
/// swung by the oscillator.
pub open spec fn rev_delay_spec(base_size: int, size: i64, depth: i64, ph2: i64, j: int) -> i64 {
    let scale = 32768 + mul_q_spec(size as int, 98304);
    let base_q = base_size * scale;
    let amt = mul_q_spec(depth as int, base_q) / 20;
    (base_q + mul_q_spec(rev_lfo_spec(ph2, j), amt)) as i64
}

/// The early-reflection sum: the first `n` taps, each read from the
/// reflection history and weighted by its decaying gain, accumulated with
/// saturation.
pub open spec fn early_sum_spec(h: Seq<i64>, ds: Seq<usize>, gs: Seq<i64>, n: int) -> i64
    decreases n,
{
    if n <= 0 {
        0i64
    } else {
        sat_i64(
            early_sum_spec(h, ds, gs, n - 1) as int
                + mul_q_spec(h[(ds[n - 1] as int) % (h.len() as int)] as int, gs[n - 1] as int),
        )
    }
}

/// The four comb models of one channel.
pub type RevBank = (crate::filters::CombModel, crate::filters::CombModel,
    crate::filters::CombModel, crate::filters::CombModel);

/// The four allpass histories of one channel.
pub type RevDiff = (Seq<i64>, Seq<i64>, Seq<i64>, Seq<i64>);

/// The whole reverb state as mathematical values: the two comb banks, the
/// two diffusion chains, the pre-delay and early-reflection histories, and
/// the oscillator phase.
pub type RevModel = (RevBank, RevBank, RevDiff, RevDiff, Seq<i64>, Seq<i64>, i64);

/// The nominal comb lengths of both banks.
pub type RevBases = (int, int, int, int, int, int, int, int);

/// One reverb step as a pure function of the model: the same signal path
/// `tick` walks, component by component.
pub open spec fn rev_step_spec(
    m: RevModel, l: i64, r: i64, inc: i64, size: i64, depth: i64, fb: i64, d1: i64, d2: i64,
    pds: usize, elm: i64, width: i64, wet: i64, bases: RevBases, dels: Seq<usize>,
    gains: Seq<i64>,
) -> (RevModel, (i64, i64)) {
    let ph2 = wrap_phase_spec(m.6 + inc);
    let mono = mul_q_spec(l + r, 32768) as i64;
    let pre2 = write_spec(m.4, mono);
    let delayed = pre2[(pds as int) % (pre2.len() as int)];
    let early2 = write_spec(m.5, delayed);
    let esum = early_sum_spec(early2, dels, gains, 12);
    let q0 = rev_delay_spec(bases.0, size, depth, ph2, 0);
    let q1 = rev_delay_spec(bases.1, size, depth, ph2, 1);
    let q2 = rev_delay_spec(bases.2, size, depth, ph2, 2);
    let q3 = rev_delay_spec(bases.3, size, depth, ph2, 3);
    let p0 = rev_delay_spec(bases.4, size, depth, ph2, 0);
    let p1 = rev_delay_spec(bases.5, size, depth, ph2, 1);
    let p2 = rev_delay_spec(bases.6, size, depth, ph2, 2);
    let p3 = rev_delay_spec(bases.7, size, depth, ph2, 3);
    let ol0 = comb_mod_out_spec(m.0.0, q0);
    let ol1 = comb_mod_out_spec(m.0.1, q1);
    let ol2 = comb_mod_out_spec(m.0.2, q2);
    let ol3 = comb_mod_out_spec(m.0.3, q3);
    let or0 = comb_mod_out_spec(m.1.0, p0);
    let or1 = comb_mod_out_spec(m.1.1, p1);
    let or2 = comb_mod_out_spec(m.1.2, p2);
    let or3 = comb_mod_out_spec(m.1.3, p3);
    let sum_l = sat_i64(sat_i64(sat_i64(ol0 as int + ol1 as int) as int + ol2 as int) as int + ol3 as int);
    let sum_r = sat_i64(sat_i64(sat_i64(or0 as int + or1 as int) as int + or2 as int) as int + or3 as int);
    let sc_l = mul_q_spec(sum_l as int, 16384) as i64;
    let sc_r = mul_q_spec(sum_r as int, 16384) as i64;
    let t1l = allpass_out_spec(m.2.0, sc_l);
    let t2l = allpass_out_spec(m.2.1, t1l);
    let t3l = allpass_out_spec(m.2.2, t2l);
    let late_l = allpass_out_spec(m.2.3, t3l);
    let t1r = allpass_out_spec(m.3.0, sc_r);
    let t2r = allpass_out_spec(m.3.1, t1r);
    let t3r = allpass_out_spec(m.3.2, t2r);
    let late_r = allpass_out_spec(m.3.3, t3r);
    let rl = sat_i64(mul_q_spec(esum as int, 65536 - elm) + mul_q_spec(late_l as int, elm as int));
    let rr = sat_i64(mul_q_spec(esum as int, 65536 - elm) + mul_q_spec(late_r as int, elm as int));
    let mid = mul_q_spec(rl as int + rr as int, 32768);
    let side = mul_q_spec(mul_q_spec(rl as int - rr as int, 32768), width as int);
    let wl = sat_i64(mid + side);
    let wr = sat_i64(mid - side);
    let out_l = sat_i64(
        mul_q_spec(l as int, 65536 - wet)
            + mul_q_spec(mul_q_spec(wl as int, wet as int), 32768));
    let out_r = sat_i64(
        mul_q_spec(r as int, 65536 - wet)
            + mul_q_spec(mul_q_spec(wr as int, wet as int), 32768));
    (
        (
            (
                comb_mod_step_spec(m.0.0, delayed, fb, d1, d2, q0),
                comb_mod_step_spec(m.0.1, delayed, fb, d1, d2, q1),
                comb_mod_step_spec(m.0.2, delayed, fb, d1, d2, q2),
                comb_mod_step_spec(m.0.3, delayed, fb, d1, d2, q3),
            ),
            (
                comb_mod_step_spec(m.1.0, delayed, fb, d1, d2, p0),
                comb_mod_step_spec(m.1.1, delayed, fb, d1, d2, p1),
                comb_mod_step_spec(m.1.2, delayed, fb, d1, d2, p2),
                comb_mod_step_spec(m.1.3, delayed, fb, d1, d2, p3),
            ),
            (
                allpass_step_spec(m.2.0, sc_l),
                allpass_step_spec(m.2.1, t1l),
                allpass_step_spec(m.2.2, t2l),
                allpass_step_spec(m.2.3, t3l),
            ),
            (
                allpass_step_spec(m.3.0, sc_r),
                allpass_step_spec(m.3.1, t1r),
                allpass_step_spec(m.3.2, t2r),
                allpass_step_spec(m.3.3, t3r),
            ),
            pre2,
            early2,
            ph2,
        ),
        (out_l, out_r),
    )
}

/// The reverb model after a whole block.
pub open spec fn rev_run_spec(
    m: RevModel, xs: Seq<(i64, i64)>, inc: i64, size: i64, depth: i64, fb: i64, d1: i64,
    d2: i64, pds: usize, elm: i64, width: i64, wet: i64, bases: RevBases, dels: Seq<usize>,
    gains: Seq<i64>,
) -> RevModel
    decreases xs.len(),
{
    if xs.len() == 0 {
        m
    } else {
        rev_step_spec(
            rev_run_spec(m, xs.drop_last(), inc, size, depth, fb, d1, d2, pds, elm, width,
                wet, bases, dels, gains),
            xs.last().0, xs.last().1, inc, size, depth, fb, d1, d2, pds, elm, width, wet,
            bases, dels, gains).0
    }
}

/// The reverb output block.
pub open spec fn rev_outs_spec(
    m: RevModel, xs: Seq<(i64, i64)>, inc: i64, size: i64, depth: i64, fb: i64, d1: i64,
    d2: i64, pds: usize, elm: i64, width: i64, wet: i64, bases: RevBases, dels: Seq<usize>,
    gains: Seq<i64>,
) -> Seq<(i64, i64)>
    decreases xs.len(),
{
    if xs.len() == 0 {
        Seq::empty()
    } else {
        rev_outs_spec(m, xs.drop_last(), inc, size, depth, fb, d1, d2, pds, elm, width, wet,
            bases, dels, gains).push(
            rev_step_spec(
                rev_run_spec(m, xs.drop_last(), inc, size, depth, fb, d1, d2, pds, elm,
                    width, wet, bases, dels, gains),
                xs.last().0, xs.last().1, inc, size, depth, fb, d1, d2, pds, elm, width,
                wet, bases, dels, gains).1,
        )
    }
}

pub proof fn lemma_rev_outs_len(
    m: RevModel, xs: Seq<(i64, i64)>, inc: i64, size: i64, depth: i64, fb: i64, d1: i64,
    d2: i64, pds: usize, elm: i64, width: i64, wet: i64, bases: RevBases, dels: Seq<usize>,
    gains: Seq<i64>,
)
    ensures
        rev_outs_spec(m, xs, inc, size, depth, fb, d1, d2, pds, elm, width, wet, bases,
            dels, gains).len() == xs.len(),
    decreases xs.len(),
{
    if xs.len() > 0 {
        lemma_rev_outs_len(m, xs.drop_last(), inc, size, depth, fb, d1, d2, pds, elm,
            width, wet, bases, dels, gains);
    }
}

pub proof fn lemma_rev_outs_index(
    m: RevModel, xs: Seq<(i64, i64)>, inc: i64, size: i64, depth: i64, fb: i64, d1: i64,
    d2: i64, pds: usize, elm: i64, width: i64, wet: i64, bases: RevBases, dels: Seq<usize>,
    gains: Seq<i64>, k: int,
)
    requires
        0 <= k < xs.len(),
    ensures
        rev_outs_spec(m, xs, inc, size, depth, fb, d1, d2, pds, elm, width, wet, bases,
            dels, gains)[k] == rev_step_spec(
            rev_run_spec(m, xs.take(k), inc, size, depth, fb, d1, d2, pds, elm, width, wet,
                bases, dels, gains),
            xs[k].0, xs[k].1, inc, size, depth, fb, d1, d2, pds, elm, width, wet, bases,
            dels, gains).1,
    decreases xs.len(),
{
    lemma_rev_outs_len(m, xs, inc, size, depth, fb, d1, d2, pds, elm, width, wet, bases,
        dels, gains);
    if k == xs.len() - 1 {
        assert(xs.take(k) =~= xs.drop_last());
    } else {
        lemma_rev_outs_index(m, xs.drop_last(), inc, size, depth, fb, d1, d2, pds, elm,
            width, wet, bases, dels, gains, k);
        assert(xs.drop_last().take(k) =~= xs.take(k));
        assert(xs.drop_last()[k] == xs[k]);
    }
}

/// The per-block coefficients the controls imply: the clamped size,
/// modulation depth, feedback, damping poles, pre-delay samples,
/// early/late mix, width, wet amount and oscillator increment.
pub open spec fn rev_coeffs_spec(
    sr: i64, size: i64, decay: i64, damping: i64, pdt: i64, wet: i64, elm: i64, width: i64,
    depth: i64, rate: i64,
) -> (i64, i64, i64, i64, i64, usize, i64, i64, i64, i64) {
    let size_c = crate::fixed::unit_clamp_spec(size as int);
    let depth_c = crate::fixed::unit_clamp_spec(depth as int);
    let wet_c = crate::fixed::unit_clamp_spec(wet as int);
    let elm_c = crate::fixed::unit_clamp_spec(elm as int);
    let damping_c = crate::fixed::unit_clamp_spec(damping as int);
    let decay_c = if decay < 655 { 655i64 } else if decay > 20 * 65536 { (20 * 65536) as i64 } else { decay };
    let width_c = if width < 0 { 0i64 } else if width > 2 * 65536 { (2 * 65536) as i64 } else { width };
    let rate_c = if rate < 0 { 0i64 } else if rate > 10 * 65536 { (10 * 65536) as i64 } else { rate };
    let pdt_c = if pdt < 0 { 0i64 } else if pdt > 32768 { 32768i64 } else { pdt };
    let fb = reverb_feedback_spec(decay_c);
    let d1 = exp_neg_spec(damp_omega_spec(damping_c, sr)) as i64;
    let d2 = exp_neg_spec(mul_q_spec(damp_omega_spec(damping_c, sr), 98304)) as i64;
    let pds = (((pdt_c as int * sr) / 65536) as int) as usize;
    let inc = crate::modulation::lfo_inc_spec(rate_c, sr);
    (size_c, depth_c, fb, d1, d2, pds, elm_c, width_c, wet_c, inc)
}

pub struct ReverbProcessor {
    pub sample_rate: i64,
    pub cl0: CombFilter,
    pub cl1: CombFilter,
    pub cl2: CombFilter,
    pub cl3: CombFilter,
    pub cr0: CombFilter,
    pub cr1: CombFilter,
    pub cr2: CombFilter,
    pub cr3: CombFilter,
    pub al0: AllpassFilter,
    pub al1: AllpassFilter,
    pub al2: AllpassFilter,
    pub al3: AllpassFilter,
    pub ar0: AllpassFilter,
    pub ar1: AllpassFilter,
    pub ar2: AllpassFilter,
    pub ar3: AllpassFilter,
    pub pre_delay: DelayLine,
    pub early_delays: Vec<usize>,
    pub early_gains: Vec<i64>,
    pub early_buffer: DelayLine,
    pub lfo_phase: i64,
}

/// A reverb with every delay line and filter state silent: after a flush
/// no audio from before the flush can reach the output.
pub open spec fn reverb_quiet(rv: ReverbProcessor) -> bool {
    &&& comb_quiet(rv.cl0.model()) && comb_quiet(rv.cl1.model())
    &&& comb_quiet(rv.cl2.model()) && comb_quiet(rv.cl3.model())
    &&& comb_quiet(rv.cr0.model()) && comb_quiet(rv.cr1.model())
    &&& comb_quiet(rv.cr2.model()) && comb_quiet(rv.cr3.model())
    &&& (forall|k: int| 0 <= k < rv.al0.hist().len() ==> #[trigger] rv.al0.hist()[k] == 0i64)
    &&& (forall|k: int| 0 <= k < rv.al1.hist().len() ==> #[trigger] rv.al1.hist()[k] == 0i64)
    &&& (forall|k: int| 0 <= k < rv.al2.hist().len() ==> #[trigger] rv.al2.hist()[k] == 0i64)
    &&& (forall|k: int| 0 <= k < rv.al3.hist().len() ==> #[trigger] rv.al3.hist()[k] == 0i64)
    &&& (forall|k: int| 0 <= k < rv.ar0.hist().len() ==> #[trigger] rv.ar0.hist()[k] == 0i64)
    &&& (forall|k: int| 0 <= k < rv.ar1.hist().len() ==> #[trigger] rv.ar1.hist()[k] == 0i64)
    &&& (forall|k: int| 0 <= k < rv.ar2.hist().len() ==> #[trigger] rv.ar2.hist()[k] == 0i64)
    &&& (forall|k: int| 0 <= k < rv.ar3.hist().len() ==> #[trigger] rv.ar3.hist()[k] == 0i64)
    &&& (forall|k: int| 0 <= k < rv.pre_delay.hist().len()
        ==> #[trigger] rv.pre_delay.hist()[k] == 0i64)
    &&& (forall|k: int| 0 <= k < rv.early_buffer.hist().len()
        ==> #[trigger] rv.early_buffer.hist()[k] == 0i64)
}

impl ReverbProcessor {
    /// The reverb's state as mathematical values.
    pub open spec fn rev_model(self) -> RevModel {
        (
            (self.cl0.model(), self.cl1.model(), self.cl2.model(), self.cl3.model()),
            (self.cr0.model(), self.cr1.model(), self.cr2.model(), self.cr3.model()),
            (self.al0.hist(), self.al1.hist(), self.al2.hist(), self.al3.hist()),
            (self.ar0.hist(), self.ar1.hist(), self.ar2.hist(), self.ar3.hist()),
            self.pre_delay.hist(),
            self.early_buffer.hist(),
            self.lfo_phase,
        )
    }

    /// The nominal comb lengths, left bank then right.
    pub open spec fn bases_spec(self) -> RevBases {
        (
            self.cl0.base_size_spec(), self.cl1.base_size_spec(),
            self.cl2.base_size_spec(), self.cl3.base_size_spec(),
            self.cr0.base_size_spec(), self.cr1.base_size_spec(),
            self.cr2.base_size_spec(), self.cr3.base_size_spec(),
        )
    }

    pub open spec fn wf(self) -> bool {
        &&& 1 <= self.sample_rate <= 1_000_000
        &&& self.cl0.wf() && self.cl1.wf() && self.cl2.wf() && self.cl3.wf()
        &&& self.cr0.wf() && self.cr1.wf() && self.cr2.wf() && self.cr3.wf()
        &&& 0 <= self.cl0.base_size_spec() <= 0x1_0000
        &&& 0 <= self.cl1.base_size_spec() <= 0x1_0000
        &&& 0 <= self.cl2.base_size_spec() <= 0x1_0000
        &&& 0 <= self.cl3.base_size_spec() <= 0x1_0000
        &&& 0 <= self.cr0.base_size_spec() <= 0x1_0000
        &&& 0 <= self.cr1.base_size_spec() <= 0x1_0000
        &&& 0 <= self.cr2.base_size_spec() <= 0x1_0000
        &&& 0 <= self.cr3.base_size_spec() <= 0x1_0000
        &&& self.al0.wf() && self.al1.wf() && self.al2.wf() && self.al3.wf()
        &&& self.ar0.wf() && self.ar1.wf() && self.ar2.wf() && self.ar3.wf()
        &&& self.pre_delay.wf()
        &&& self.early_buffer.wf()
        &&& self.early_delays@.len() == 12
        &&& self.early_gains@.len() == 12
        &&& forall|k: int| 0 <= k < 12 ==> is_unit(#[trigger] self.early_gains@[k] as int)
        &&& 0 <= self.lfo_phase <= 411774
    }

    /// Freeverb comb and allpass tunings scaled from the 44.1 kHz
    /// reference to the target rate, a half-second pre-delay line, and
    /// twelve early taps with exponentially decaying gains.
    pub fn new(sample_rate: i64) -> (rv: ReverbProcessor)
        requires
            1 <= sample_rate <= 1_000_000,
        ensures
            rv.wf(),
            rv.sample_rate == sample_rate,
            reverb_quiet(rv),
            rv.lfo_phase == 0,
    {
        let scale_q = (sample_rate * FRAC_ONE) / 44100;
        proof {
            vstd::arithmetic::div_mod::lemma_div_pos_is_pos(sample_rate as int * 65536, 44100);
            vstd::arithmetic::div_mod::lemma_div_is_ordered(
                sample_rate as int * 65536, 1_000_000int * 65536, 44100);
        }
        let cs0 = scaled_size(1557, scale_q);
        let cs1 = scaled_size(1617, scale_q);
        let cs2 = scaled_size(1491, scale_q);
        let cs3 = scaled_size(1422, scale_q);
        let cs0r = scaled_size(1557 + 23, scale_q);
        let cs1r = scaled_size(1617 + 23, scale_q);
        let cs2r = scaled_size(1491 + 23, scale_q);
        let cs3r = scaled_size(1422 + 23, scale_q);
        let as0 = scaled_size(225, scale_q);
        let as1 = scaled_size(341, scale_q);
        let as2 = scaled_size(441, scale_q);
        let as3 = scaled_size(556, scale_q);

        let mut early_delays: Vec<usize> = Vec::new();
        let mut early_gains: Vec<i64> = Vec::new();
        push_early_tap(&mut early_delays, &mut early_gains, 5, sample_rate);
        push_early_tap(&mut early_delays, &mut early_gains, 11, sample_rate);
        push_early_tap(&mut early_delays, &mut early_gains, 17, sample_rate);
        push_early_tap(&mut early_delays, &mut early_gains, 23, sample_rate);
        push_early_tap(&mut early_delays, &mut early_gains, 31, sample_rate);
        push_early_tap(&mut early_delays, &mut early_gains, 37, sample_rate);
        push_early_tap(&mut early_delays, &mut early_gains, 43, sample_rate);
        push_early_tap(&mut early_delays, &mut early_gains, 47, sample_rate);
        push_early_tap(&mut early_delays, &mut early_gains, 53, sample_rate);
        push_early_tap(&mut early_delays, &mut early_gains, 59, sample_rate);
        push_early_tap(&mut early_delays, &mut early_gains, 67, sample_rate);
        push_early_tap(&mut early_delays, &mut early_gains, 73, sample_rate);
        proof {
            vstd::arithmetic::div_mod::lemma_div_pos_is_pos(sample_rate as int, 2);
            vstd::arithmetic::div_mod::lemma_div_is_ordered(sample_rate as int, 1_000_000, 2);
            vstd::arithmetic::div_mod::lemma_div_pos_is_pos(sample_rate as int, 10);
            vstd::arithmetic::div_mod::lemma_div_is_ordered(sample_rate as int, 1_000_000, 10);
        }
        ReverbProcessor {
            sample_rate,
            cl0: CombFilter::new(cs0 + 100),
            cl1: CombFilter::new(cs1 + 100),
            cl2: CombFilter::new(cs2 + 100),
            cl3: CombFilter::new(cs3 + 100),
            cr0: CombFilter::new(cs0r + 100),
            cr1: CombFilter::new(cs1r + 100),
            cr2: CombFilter::new(cs2r + 100),
            cr3: CombFilter::new(cs3r + 100),
            al0: AllpassFilter::new(as0),
            al1: AllpassFilter::new(as1),
            al2: AllpassFilter::new(as2),
            al3: AllpassFilter::new(as3),
            ar0: AllpassFilter::new(as0),
            ar1: AllpassFilter::new(as1),
            ar2: AllpassFilter::new(as2),
            ar3: AllpassFilter::new(as3),
            pre_delay: DelayLine::new((sample_rate / 2) as usize),
            early_delays,
            early_gains,
            early_buffer: DelayLine::new((sample_rate / 10) as usize),
            lfo_phase: 0,
        }
    }

    /// What one reverb step leaves and emits, given the per-block
    /// coefficients: the whole signal path of the tick, component by
    /// component, over the state before the step.
    pub open spec fn tick_post(
        self, post: ReverbProcessor, out: (i64, i64), l: i64, r: i64, inc: i64, size: i64,
        depth: i64, fb: i64, d1: i64, d2: i64, pds: usize, elm: i64, width: i64, wet: i64,
    ) -> bool {
        let ph2 = wrap_phase_spec(self.lfo_phase + inc);
        let mono = mul_q_spec(l + r, 32768) as i64;
        let pre2 = write_spec(self.pre_delay.hist(), mono);
        let delayed = pre2[(pds as int) % (pre2.len() as int)];
        let early2 = write_spec(self.early_buffer.hist(), delayed);
        let esum = early_sum_spec(early2, self.early_delays@, self.early_gains@, 12);
        let q0 = rev_delay_spec(self.cl0.base_size_spec(), size, depth, ph2, 0);
        let q1 = rev_delay_spec(self.cl1.base_size_spec(), size, depth, ph2, 1);
        let q2 = rev_delay_spec(self.cl2.base_size_spec(), size, depth, ph2, 2);
        let q3 = rev_delay_spec(self.cl3.base_size_spec(), size, depth, ph2, 3);
        let p0 = rev_delay_spec(self.cr0.base_size_spec(), size, depth, ph2, 0);
        let p1 = rev_delay_spec(self.cr1.base_size_spec(), size, depth, ph2, 1);
        let p2 = rev_delay_spec(self.cr2.base_size_spec(), size, depth, ph2, 2);
        let p3 = rev_delay_spec(self.cr3.base_size_spec(), size, depth, ph2, 3);
        let ol0 = comb_mod_out_spec(self.cl0.model(), q0);
        let ol1 = comb_mod_out_spec(self.cl1.model(), q1);
        let ol2 = comb_mod_out_spec(self.cl2.model(), q2);
        let ol3 = comb_mod_out_spec(self.cl3.model(), q3);
        let or0 = comb_mod_out_spec(self.cr0.model(), p0);
        let or1 = comb_mod_out_spec(self.cr1.model(), p1);
        let or2 = comb_mod_out_spec(self.cr2.model(), p2);
        let or3 = comb_mod_out_spec(self.cr3.model(), p3);
        let sum_l = sat_i64(sat_i64(sat_i64(ol0 as int + ol1 as int) as int + ol2 as int) as int + ol3 as int);
        let sum_r = sat_i64(sat_i64(sat_i64(or0 as int + or1 as int) as int + or2 as int) as int + or3 as int);
        let sc_l = mul_q_spec(sum_l as int, 16384) as i64;
        let sc_r = mul_q_spec(sum_r as int, 16384) as i64;
        let t1l = allpass_out_spec(self.al0.hist(), sc_l);
        let t2l = allpass_out_spec(self.al1.hist(), t1l);
        let t3l = allpass_out_spec(self.al2.hist(), t2l);
        let late_l = allpass_out_spec(self.al3.hist(), t3l);
        let t1r = allpass_out_spec(self.ar0.hist(), sc_r);
        let t2r = allpass_out_spec(self.ar1.hist(), t1r);
        let t3r = allpass_out_spec(self.ar2.hist(), t2r);
        let late_r = allpass_out_spec(self.ar3.hist(), t3r);
        let rl = sat_i64(mul_q_spec(esum as int, 65536 - elm) + mul_q_spec(late_l as int, elm as int));
        let rr = sat_i64(mul_q_spec(esum as int, 65536 - elm) + mul_q_spec(late_r as int, elm as int));
        let mid = mul_q_spec(rl as int + rr as int, 32768);
        let side = mul_q_spec(mul_q_spec(rl as int - rr as int, 32768), width as int);
        let wl = sat_i64(mid + side);
        let wr = sat_i64(mid - side);
        &&& post.lfo_phase == ph2
        &&& post.pre_delay.hist() == pre2
        &&& post.early_buffer.hist() == early2
        &&& post.cl0.model() == comb_mod_step_spec(self.cl0.model(), delayed, fb, d1, d2, q0)
        &&& post.cl1.model() == comb_mod_step_spec(self.cl1.model(), delayed, fb, d1, d2, q1)
        &&& post.cl2.model() == comb_mod_step_spec(self.cl2.model(), delayed, fb, d1, d2, q2)
        &&& post.cl3.model() == comb_mod_step_spec(self.cl3.model(), delayed, fb, d1, d2, q3)
        &&& post.cr0.model() == comb_mod_step_spec(self.cr0.model(), delayed, fb, d1, d2, p0)
        &&& post.cr1.model() == comb_mod_step_spec(self.cr1.model(), delayed, fb, d1, d2, p1)
        &&& post.cr2.model() == comb_mod_step_spec(self.cr2.model(), delayed, fb, d1, d2, p2)
        &&& post.cr3.model() == comb_mod_step_spec(self.cr3.model(), delayed, fb, d1, d2, p3)
        &&& post.al0.hist() == allpass_step_spec(self.al0.hist(), sc_l)
        &&& post.al1.hist() == allpass_step_spec(self.al1.hist(), t1l)
        &&& post.al2.hist() == allpass_step_spec(self.al2.hist(), t2l)
        &&& post.al3.hist() == allpass_step_spec(self.al3.hist(), t3l)
        &&& post.ar0.hist() == allpass_step_spec(self.ar0.hist(), sc_r)
        &&& post.ar1.hist() == allpass_step_spec(self.ar1.hist(), t1r)
        &&& post.ar2.hist() == allpass_step_spec(self.ar2.hist(), t2r)
        &&& post.ar3.hist() == allpass_step_spec(self.ar3.hist(), t3r)
        &&& out.0 == sat_i64(
            mul_q_spec(l as int, 65536 - wet)
                + mul_q_spec(mul_q_spec(wl as int, wet as int), 32768))
        &&& out.1 == sat_i64(
            mul_q_spec(r as int, 65536 - wet)
                + mul_q_spec(mul_q_spec(wr as int, wet as int), 32768))
    }

    /// One sample through the whole reverb: mono-sum into the pre-delay,
    /// early taps, modulated comb bank, allpass diffusion, early/late mix,
    /// width, and the wet/dry crossfade.
    #[verifier::rlimit(100)]
    pub fn tick(
        &mut self, l: i64, r: i64, inc: i64, size: i64, depth: i64, fb: i64, d1: i64, d2: i64,
        pds: usize, elm: i64, width: i64, wet: i64,
    ) -> (out: (i64, i64))
        requires
            old(self).wf(),
            in_range(l as int),
            in_range(r as int),
            0 <= inc <= 411774,
            is_unit(size as int),
            is_unit(depth as int),
            0 <= fb <= 65470,
            is_unit(d1 as int),
            is_unit(d2 as int),
            is_unit(elm as int),
            0 <= width <= 131072,
            is_unit(wet as int),
        ensures
            final(self).wf(),
            final(self).sample_rate == old(self).sample_rate,
            final(self).early_delays == old(self).early_delays,
            final(self).early_gains == old(self).early_gains,
            old(self).tick_post(*final(self), out, l, r, inc, size, depth, fb, d1, d2, pds,
                elm, width, wet),
            in_range(out.0 as int),
            in_range(out.1 as int),
            final(self).cl0.base_size_spec() == old(self).cl0.base_size_spec(),
            final(self).cl1.base_size_spec() == old(self).cl1.base_size_spec(),
            final(self).cl2.base_size_spec() == old(self).cl2.base_size_spec(),
            final(self).cl3.base_size_spec() == old(self).cl3.base_size_spec(),
            final(self).cr0.base_size_spec() == old(self).cr0.base_size_spec(),
            final(self).cr1.base_size_spec() == old(self).cr1.base_size_spec(),
            final(self).cr2.base_size_spec() == old(self).cr2.base_size_spec(),
            final(self).cr3.base_size_spec() == old(self).cr3.base_size_spec(),
    {
        let ph2 = wrap_phase(self.lfo_phase + inc);
        self.lfo_phase = ph2;
        proof {
            lemma_abs_mul_bound(l + r as int, 32768, 2 * SAMPLE_LIMIT as int, 32768);
            lemma_mul_q_bound(l + r as int, 32768, 2 * SAMPLE_LIMIT as int, 32768);
        }
        let mono = mul_q(l + r, 32768);
        self.pre_delay.write(mono);
        let delayed = self.pre_delay.read_at(pds);
        self.early_buffer.write(delayed);
        let esum = self.early_taps(delayed);

        let q0 = self.comb_delay(self.cl0.base_size(), size, depth, ph2, 0);
        let q1 = self.comb_delay(self.cl1.base_size(), size, depth, ph2, 1);
        let q2 = self.comb_delay(self.cl2.base_size(), size, depth, ph2, 2);
        let q3 = self.comb_delay(self.cl3.base_size(), size, depth, ph2, 3);
        let p0 = self.comb_delay(self.cr0.base_size(), size, depth, ph2, 0);
        let p1 = self.comb_delay(self.cr1.base_size(), size, depth, ph2, 1);
        let p2 = self.comb_delay(self.cr2.base_size(), size, depth, ph2, 2);
        let p3 = self.comb_delay(self.cr3.base_size(), size, depth, ph2, 3);

        let ol0 = self.cl0.process_modulated(delayed, fb, d1, d2, q0);
        let ol1 = self.cl1.process_modulated(delayed, fb, d1, d2, q1);
        let ol2 = self.cl2.process_modulated(delayed, fb, d1, d2, q2);
        let ol3 = self.cl3.process_modulated(delayed, fb, d1, d2, q3);
        let or0 = self.cr0.process_modulated(delayed, fb, d1, d2, p0);
        let or1 = self.cr1.process_modulated(delayed, fb, d1, d2, p1);
        let or2 = self.cr2.process_modulated(delayed, fb, d1, d2, p2);
        let or3 = self.cr3.process_modulated(delayed, fb, d1, d2, p3);

        let sum_l = sat(sat(sat(ol0 + ol1) + ol2) + ol3);
        let sum_r = sat(sat(sat(or0 + or1) + or2) + or3);
        proof {
            lemma_abs_mul_bound(sum_l as int, 16384, SAMPLE_LIMIT as int, 16384);
            lemma_mul_q_bound(sum_l as int, 16384, SAMPLE_LIMIT as int, 16384);
            lemma_abs_mul_bound(sum_r as int, 16384, SAMPLE_LIMIT as int, 16384);
            lemma_mul_q_bound(sum_r as int, 16384, SAMPLE_LIMIT as int, 16384);
            self.al0.lemma_hist_in_range();
            self.al1.lemma_hist_in_range();
            self.al2.lemma_hist_in_range();
            self.al3.lemma_hist_in_range();
            self.ar0.lemma_hist_in_range();
            self.ar1.lemma_hist_in_range();
            self.ar2.lemma_hist_in_range();
            self.ar3.lemma_hist_in_range();
        }
        let sc_l = mul_q(sum_l, 16384);
        let sc_r = mul_q(sum_r, 16384);
        let t1l = self.al0.process(sc_l);
        let t2l = self.al1.process(t1l);
        let t3l = self.al2.process(t2l);
        let late_l = self.al3.process(t3l);
        let t1r = self.ar0.process(sc_r);
        let t2r = self.ar1.process(t1r);
        let t3r = self.ar2.process(t2r);
        let late_r = self.ar3.process(t3r);

        proof {
            lemma_abs_mul_bound(esum as int, 65536 - elm, SAMPLE_LIMIT as int, 65536);
            lemma_mul_q_bound(esum as int, 65536 - elm, SAMPLE_LIMIT as int, 65536);
            lemma_abs_mul_bound(late_l as int, elm as int, 6 * SAMPLE_LIMIT as int, 65536);
            lemma_mul_q_bound(late_l as int, elm as int, 6 * SAMPLE_LIMIT as int, 65536);
            lemma_abs_mul_bound(late_r as int, elm as int, 6 * SAMPLE_LIMIT as int, 65536);
            lemma_mul_q_bound(late_r as int, elm as int, 6 * SAMPLE_LIMIT as int, 65536);
        }
        let rl = sat(mul_q(esum, FRAC_ONE - elm) + mul_q(late_l, elm));
        let rr = sat(mul_q(esum, FRAC_ONE - elm) + mul_q(late_r, elm));

        proof {
            lemma_abs_mul_bound(rl + rr as int, 32768, 2 * SAMPLE_LIMIT as int, 32768);
            lemma_mul_q_bound(rl + rr as int, 32768, 2 * SAMPLE_LIMIT as int, 32768);
            lemma_abs_mul_bound(rl - rr as int, 32768, 2 * SAMPLE_LIMIT as int, 32768);
            lemma_mul_q_bound(rl - rr as int, 32768, 2 * SAMPLE_LIMIT as int, 32768);
        }
        let mid = mul_q(rl + rr, 32768);
        let pre_side = mul_q(rl - rr, 32768);
        proof {
            lemma_abs_mul_bound(pre_side as int, width as int, SAMPLE_LIMIT as int, 131072);
            lemma_mul_q_bound(pre_side as int, width as int, SAMPLE_LIMIT as int, 131072);
        }
        let side = mul_q(pre_side, width);
        let wl = sat(mid + side);
        let wr = sat(mid - side);

        proof {
            lemma_abs_mul_bound(l as int, 65536 - wet, SAMPLE_LIMIT as int, 65536);
            lemma_mul_q_bound(l as int, 65536 - wet, SAMPLE_LIMIT as int, 65536);
            lemma_abs_mul_bound(r as int, 65536 - wet, SAMPLE_LIMIT as int, 65536);
            lemma_mul_q_bound(r as int, 65536 - wet, SAMPLE_LIMIT as int, 65536);
            lemma_abs_mul_bound(wl as int, wet as int, SAMPLE_LIMIT as int, 65536);
            lemma_mul_q_bound(wl as int, wet as int, SAMPLE_LIMIT as int, 65536);
            lemma_abs_mul_bound(wr as int, wet as int, SAMPLE_LIMIT as int, 65536);
            lemma_mul_q_bound(wr as int, wet as int, SAMPLE_LIMIT as int, 65536);
            lemma_abs_mul_bound(mul_q_spec(wl as int, wet as int), 32768, SAMPLE_LIMIT as int, 32768);
            lemma_mul_q_bound(mul_q_spec(wl as int, wet as int), 32768, SAMPLE_LIMIT as int, 32768);
            lemma_abs_mul_bound(mul_q_spec(wr as int, wet as int), 32768, SAMPLE_LIMIT as int, 32768);
            lemma_mul_q_bound(mul_q_spec(wr as int, wet as int), 32768, SAMPLE_LIMIT as int, 32768);
        }
        let out_l = sat(mul_q(l, FRAC_ONE - wet) + mul_q(mul_q(wl, wet), 32768));
        let out_r = sat(mul_q(r, FRAC_ONE - wet) + mul_q(mul_q(wr, wet), 32768));
        (out_l, out_r)
    }

    /// The weighted sum of the twelve early-reflection taps.
    fn early_taps(&self, delayed_in_buffer: i64) -> (r: i64)
        requires
            self.wf(),
        ensures
            r == early_sum_spec(
                self.early_buffer.hist(), self.early_delays@, self.early_gains@, 12),
            in_range(r as int),
    {
        let mut acc: i64 = 0;
        let mut j: usize = 0;
        while j < 12
            invariant
                j <= 12,
                self.wf(),
                acc == early_sum_spec(
                    self.early_buffer.hist(), self.early_delays@, self.early_gains@, j as int),
                in_range(acc as int),
            decreases 12 - j,
        {
            let tap = self.early_buffer.read_at(self.early_delays[j]);
            proof {
                assert(is_unit(self.early_gains@[j as int] as int));
                lemma_abs_mul_bound(tap as int, self.early_gains@[j as int] as int,
                    SAMPLE_LIMIT as int, 65536);
                lemma_mul_q_bound(tap as int, self.early_gains@[j as int] as int,
                    SAMPLE_LIMIT as int, 65536);
            }
            acc = sat(acc + mul_q(tap, self.early_gains[j]));
            j += 1;
        }
        acc
    }

    /// The modulated delay of one comb for this step.
    fn comb_delay(&self, base_size: usize, size: i64, depth: i64, ph2: i64, j: u32) -> (r: i64)
        requires
            self.wf(),
            base_size <= 0x1_0000,
            is_unit(size as int),
            is_unit(depth as int),
            0 <= ph2 <= 411774,
            j <= 3,
        ensures
            r == rev_delay_spec(base_size as int, size, depth, ph2, j as int),
            0 <= r,
    {
        proof {
            lemma_abs_mul_bound(size as int, 98304, 65536, 98304);
            lemma_mul_q_bound(size as int, 98304, 65536, 98304);
            vstd::arithmetic::div_mod::lemma_div_pos_is_pos(size as int * 98304, 65536);
        }
        let scale = 32768 + mul_q(size, 98304);
        proof {
            assert(0 <= base_size as int * scale <= 0x1_0000int * 131072) by (nonlinear_arith)
                requires 0 <= base_size <= 0x1_0000, 0 <= scale <= 131072;
        }
        let base_q = (base_size as i64) * scale;
        proof {
            lemma_abs_mul_bound(depth as int, base_q as int, 65536, 0x1_0000int * 131072);
            lemma_mul_q_bound(depth as int, base_q as int, 65536, 0x1_0000int * 131072);
            lemma_mul_q_interp(depth as int, base_q as int);
            vstd::arithmetic::div_mod::lemma_div_pos_is_pos(mul_q_spec(depth as int, base_q as int), 20);
            vstd::arithmetic::div_mod::lemma_div_is_ordered(
                mul_q_spec(depth as int, base_q as int), base_q as int, 20);
            vstd::arithmetic::div_mod::lemma_div_nonincreasing(base_q as int, 20);
        }
        let amt = mul_q(depth, base_q) / 20;
        proof {
            vstd::arithmetic::div_mod::lemma_div_pos_is_pos((j as int) * 205887, 4);
            vstd::arithmetic::div_mod::lemma_div_is_ordered((j as int) * 205887, 3int * 205887, 4);
        }
        let lfo = sin_q(wrap_phase(ph2 + ((j as i64) * PI_Q) / 4));
        proof {
            lemma_abs_mul_bound(lfo as int, amt as int, 65536, amt as int);
            lemma_mul_q_bound(lfo as int, amt as int, 65536, amt as int);
            vstd::arithmetic::div_mod::lemma_div_multiples_vanish(amt as int, 65536);
            assert(65536 * (amt as int) == (amt as int) * 65536);
        }
        base_q + mul_q(lfo, amt)
    }

    /// Run a stereo block through the reverb with the given Q16 controls:
    /// room size, decay time (seconds), damping, pre-delay time (seconds),
    /// wet amount, early/late mix, stereo width and the comb modulation
    /// depth and rate. Out-of-range controls are clamped.
    ///
    /// Two laws ride on the contract: a flushed reverb fed silence emits
    /// silence and stays flushed (no tail bleeds across a seek), and a
    /// zero wet amount hands the dry input through unchanged.
    #[verifier::rlimit(100)]
    pub fn process(
        &mut self, in_l: &Vec<i64>, in_r: &Vec<i64>, size: i64, decay: i64, damping: i64,
        pre_delay_time: i64, wet: i64, early_late_mix: i64, width: i64, mod_depth: i64,
        mod_rate: i64,
    ) -> (out: (Vec<i64>, Vec<i64>))
        requires
            old(self).wf(),
            forall|k: int| 0 <= k < in_l@.len() ==> in_range(#[trigger] in_l@[k] as int),
            forall|k: int| 0 <= k < in_r@.len() ==> in_range(#[trigger] in_r@[k] as int),
        ensures
            final(self).wf(),
            final(self).sample_rate == old(self).sample_rate,
            out.0@.len() == if in_l@.len() <= in_r@.len() { in_l@.len() } else { in_r@.len() },
            out.1@.len() == out.0@.len(),
            forall|k: int| 0 <= k < out.0@.len() ==> in_range(#[trigger] out.0@[k] as int),
            forall|k: int| 0 <= k < out.1@.len() ==> in_range(#[trigger] out.1@[k] as int),
            (reverb_quiet(*old(self))
                && (forall|k: int| 0 <= k < in_l@.len() ==> #[trigger] in_l@[k] == 0i64)
                && (forall|k: int| 0 <= k < in_r@.len() ==> #[trigger] in_r@[k] == 0i64))
                ==> (reverb_quiet(*final(self))
                    && (forall|k: int| 0 <= k < out.0@.len() ==> #[trigger] out.0@[k] == 0i64)
                    && (forall|k: int| 0 <= k < out.1@.len() ==> #[trigger] out.1@[k] == 0i64)),
            crate::fixed::unit_clamp_spec(wet as int) == 0i64
                ==> ((forall|k: int| 0 <= k < out.0@.len()
                        ==> #[trigger] out.0@[k] == in_l@[k])
                    && (forall|k: int| 0 <= k < out.1@.len()
                        ==> #[trigger] out.1@[k] == in_r@[k])),
            // the state and output block are exactly the per-sample step
            // folded over the inputs, under the derived coefficients
            ({
                let xs = crate::chain::zip_spec(in_l@, in_r@);
                let c = rev_coeffs_spec(old(self).sample_rate, size, decay, damping,
                    pre_delay_time, wet, early_late_mix, width, mod_depth, mod_rate);
                let bases = old(self).bases_spec();
                let dels = old(self).early_delays@;
                let gains = old(self).early_gains@;
                &&& final(self).rev_model() == rev_run_spec(
                    old(self).rev_model(), xs, c.9, c.0, c.1, c.2, c.3, c.4, c.5, c.6,
                    c.7, c.8, bases, dels, gains)
                &&& forall|k: int| 0 <= k < xs.len()
                    ==> (#[trigger] out.0@[k], out.1@[k]) == rev_outs_spec(
                        old(self).rev_model(), xs, c.9, c.0, c.1, c.2, c.3, c.4, c.5,
                        c.6, c.7, c.8, bases, dels, gains)[k]
            }),
    {
        let ghost quiet0 = reverb_quiet(*self);
        let size_c = crate::fixed::unit_clamp(size);
        let damping_c = crate::fixed::unit_clamp(damping);
        let wet_c = crate::fixed::unit_clamp(wet);
        let elm_c = crate::fixed::unit_clamp(early_late_mix);
        let depth_c = crate::fixed::unit_clamp(mod_depth);
        let decay_c = if decay < 655 { 655 } else if decay > 20 * FRAC_ONE { 20 * FRAC_ONE } else { decay };
        let width_c = if width < 0 { 0 } else if width > 2 * FRAC_ONE { 2 * FRAC_ONE } else { width };
        let rate_c = if mod_rate < 0 { 0 } else if mod_rate > 10 * FRAC_ONE { 10 * FRAC_ONE } else { mod_rate };
        let pdt_c = if pre_delay_time < 0 { 0 } else if pre_delay_time > 32768 { 32768 } else { pre_delay_time };

        let fb = reverb_feedback(decay_c);
        let (d1, d2) = damp_coeffs(damping_c, self.sample_rate);
        let inc = lfo_inc(rate_c, self.sample_rate);
        proof {
            assert(0 <= pdt_c as int * self.sample_rate <= 32768int * 1_000_000)
                by (nonlinear_arith)
                requires 0 <= pdt_c <= 32768, 1 <= self.sample_rate <= 1_000_000;
            vstd::arithmetic::div_mod::lemma_div_pos_is_pos(
                pdt_c as int * self.sample_rate, 65536);
        }
        let pds = ((pdt_c * self.sample_rate) / FRAC_ONE) as usize;
        let ghost m0 = self.rev_model();
        let ghost bases = self.bases_spec();
        let ghost dels = self.early_delays@;
        let ghost gains = self.early_gains@;
        let ghost xs = crate::chain::zip_spec(in_l@, in_r@);
        proof {
            let c = rev_coeffs_spec(self.sample_rate, size, decay, damping, pre_delay_time,
                wet, early_late_mix, width, mod_depth, mod_rate);
            assert(c == (size_c, depth_c, fb, d1, d2, pds, elm_c, width_c, wet_c, inc));
        }

        let len = if in_l.len() <= in_r.len() { in_l.len() } else { in_r.len() };
        let mut out_l: Vec<i64> = Vec::new();
        let mut out_r: Vec<i64> = Vec::new();
        let mut i: usize = 0;
        while i < len
            invariant
                i <= len,
                len <= in_l@.len() && len <= in_r@.len(),
                self.wf(),
                self.sample_rate == old(self).sample_rate,
                quiet0 == reverb_quiet(*old(self)),
                is_unit(size_c as int) && is_unit(depth_c as int) && is_unit(wet_c as int),
                is_unit(elm_c as int),
                0 <= fb <= 65470,
                is_unit(d1 as int) && is_unit(d2 as int),
                0 <= inc <= 411774,
                0 <= width_c <= 131072,
                forall|k: int| 0 <= k < in_l@.len() ==> in_range(#[trigger] in_l@[k] as int),
                forall|k: int| 0 <= k < in_r@.len() ==> in_range(#[trigger] in_r@[k] as int),
                out_l@.len() == i && out_r@.len() == i,
                forall|k: int| 0 <= k < i ==> in_range(#[trigger] out_l@[k] as int),
                forall|k: int| 0 <= k < i ==> in_range(#[trigger] out_r@[k] as int),
                len == xs.len(),
                xs == crate::chain::zip_spec(in_l@, in_r@),
                m0 == old(self).rev_model(),
                bases == old(self).bases_spec(),
                dels == old(self).early_delays@,
                gains == old(self).early_gains@,
                self.bases_spec() == bases,
                self.early_delays@ == dels,
                self.early_gains@ == gains,
                self.rev_model() == rev_run_spec(m0, xs.take(i as int), inc, size_c,
                    depth_c, fb, d1, d2, pds, elm_c, width_c, wet_c, bases, dels, gains),
                forall|k: int| 0 <= k < i
                    ==> (#[trigger] out_l@[k], out_r@[k]) == rev_outs_spec(m0, xs, inc,
                        size_c, depth_c, fb, d1, d2, pds, elm_c, width_c, wet_c, bases,
                        dels, gains)[k],
                (quiet0
                    && (forall|k: int| 0 <= k < in_l@.len() ==> #[trigger] in_l@[k] == 0i64)
                    && (forall|k: int| 0 <= k < in_r@.len() ==> #[trigger] in_r@[k] == 0i64))
                    ==> (reverb_quiet(*self)
                        && (forall|k: int| 0 <= k < i ==> #[trigger] out_l@[k] == 0i64)
                        && (forall|k: int| 0 <= k < i ==> #[trigger] out_r@[k] == 0i64)),
                wet_c == 0 ==> ((forall|k: int| 0 <= k < i
                        ==> #[trigger] out_l@[k] == in_l@[k])
                    && (forall|k: int| 0 <= k < i ==> #[trigger] out_r@[k] == in_r@[k])),
            decreases len - i,
        {
            let ghost pre_state = *self;
            proof {
                crate::chain::lemma_take_snoc(xs, i as int);
                lemma_rev_outs_len(m0, xs, inc, size_c, depth_c, fb, d1, d2, pds, elm_c,
                    width_c, wet_c, bases, dels, gains);
                lemma_rev_outs_index(m0, xs, inc, size_c, depth_c, fb, d1, d2, pds, elm_c,
                    width_c, wet_c, bases, dels, gains, i as int);
            }
            let l = in_l[i];
            let r = in_r[i];
            let o = self.tick(l, r, inc, size_c, depth_c, fb, d1, d2, pds, elm_c, width_c,
                wet_c);
            proof {
                lemma_tick_post_is_step(pre_state, *self, o, l, r, inc, size_c, depth_c,
                    fb, d1, d2, pds, elm_c, width_c, wet_c);
                if quiet0
                    && (forall|k: int| 0 <= k < in_l@.len() ==> #[trigger] in_l@[k] == 0i64)
                    && (forall|k: int| 0 <= k < in_r@.len() ==> #[trigger] in_r@[k] == 0i64) {
                    lemma_reverb_tick_quiet(pre_state, *self, o, inc, size_c, depth_c, fb,
                        d1, d2, pds, elm_c, width_c, wet_c);
                }
                if wet_c == 0 {
                    lemma_reverb_tick_dry(pre_state, *self, o, l, r, inc, size_c, depth_c,
                        fb, d1, d2, pds, elm_c, width_c);
                }
            }
            out_l.push(o.0);
            out_r.push(o.1);
            i += 1;
        }
        proof {
            crate::chain::lemma_take_all(xs);
            lemma_rev_outs_len(m0, xs, inc, size_c, depth_c, fb, d1, d2, pds, elm_c,
                width_c, wet_c, bases, dels, gains);
        }
        (out_l, out_r)
    }

    /// Zero every internal delay line and filter state.
    pub fn reset(&mut self)
        requires
            old(self).wf(),
        ensures
            final(self).wf(),
            reverb_quiet(*final(self)),
            final(self).sample_rate == old(self).sample_rate,
            final(self).lfo_phase == old(self).lfo_phase,
    {
        self.cl0.reset();
        self.cl1.reset();
        self.cl2.reset();
        self.cl3.reset();
        self.cr0.reset();
        self.cr1.reset();
        self.cr2.reset();
        self.cr3.reset();
        self.al0.reset();
        self.al1.reset();
        self.al2.reset();
        self.al3.reset();
        self.ar0.reset();
        self.ar1.reset();
        self.ar2.reset();
        self.ar3.reset();
        self.pre_delay.reset();
        self.early_buffer.reset();
    }
}

/// `tick`'s relational postcondition is exactly one application of the
/// pure step function to the model.
pub proof fn lemma_tick_post_is_step(
    pre: ReverbProcessor, post: ReverbProcessor, out: (i64, i64), l: i64, r: i64, inc: i64,
    size: i64, depth: i64, fb: i64, d1: i64, d2: i64, pds: usize, elm: i64, width: i64,
    wet: i64,
)
    requires
        pre.tick_post(post, out, l, r, inc, size, depth, fb, d1, d2, pds, elm, width, wet),
    ensures
        (post.rev_model(), out) == rev_step_spec(
            pre.rev_model(), l, r, inc, size, depth, fb, d1, d2, pds, elm, width, wet,
            pre.bases_spec(), pre.early_delays@, pre.early_gains@),
{
}

/// The early sum over an all-silent reflection history is silent.
proof fn lemma_early_sum_zero(h: Seq<i64>, ds: Seq<usize>, gs: Seq<i64>, n: int)
    requires
        h.len() > 0,
        forall|k: int| 0 <= k < h.len() ==> h[k] == 0i64,
        0 <= n <= ds.len(),
        n <= gs.len(),
    ensures
        early_sum_spec(h, ds, gs, n) == 0i64,
    decreases n,
{
    if n > 0 {
        lemma_early_sum_zero(h, ds, gs, n - 1);
        vstd::arithmetic::div_mod::lemma_mod_bound(ds[n - 1] as int, h.len() as int);
        assert(0 * (gs[n - 1] as int) == 0) by (nonlinear_arith);
    }
}

/// Law (no bleed after a flush): a silent reverb fed one silent sample
/// stays silent and emits silence, whatever the parameters.
pub proof fn lemma_reverb_tick_quiet(
    pre: ReverbProcessor, post: ReverbProcessor, out: (i64, i64), inc: i64, size: i64,
    depth: i64, fb: i64, d1: i64, d2: i64, pds: usize, elm: i64, width: i64, wet: i64,
)
    requires
        pre.wf(),
        reverb_quiet(pre),
        0 <= inc <= 411774,
        is_unit(size as int),
        is_unit(depth as int),
        pre.tick_post(post, out, 0i64, 0i64, inc, size, depth, fb, d1, d2, pds, elm, width, wet),
    ensures
        reverb_quiet(post),
        out == (0i64, 0i64),
{
    pre.pre_delay.lemma_hist_in_range();
    pre.early_buffer.lemma_hist_in_range();
    pre.cl0.lemma_model_in_range();
    pre.cl1.lemma_model_in_range();
    pre.cl2.lemma_model_in_range();
    pre.cl3.lemma_model_in_range();
    pre.cr0.lemma_model_in_range();
    pre.cr1.lemma_model_in_range();
    pre.cr2.lemma_model_in_range();
    pre.cr3.lemma_model_in_range();
    pre.al0.lemma_hist_in_range();
    pre.al1.lemma_hist_in_range();
    pre.al2.lemma_hist_in_range();
    pre.al3.lemma_hist_in_range();
    pre.ar0.lemma_hist_in_range();
    pre.ar1.lemma_hist_in_range();
    pre.ar2.lemma_hist_in_range();
    pre.ar3.lemma_hist_in_range();

    assert(0int * 32768 == 0) by (nonlinear_arith);
    let mono = mul_q_spec(0int + 0, 32768) as i64;
    assert(mono == 0i64);
    let pre2 = write_spec(pre.pre_delay.hist(), mono);
    assert forall|k: int| 0 <= k < pre2.len() implies pre2[k] == 0i64 by {
    }
    vstd::arithmetic::div_mod::lemma_mod_bound(pds as int, pre2.len() as int);
    let delayed = pre2[(pds as int) % (pre2.len() as int)];
    assert(delayed == 0i64);
    let early2 = write_spec(pre.early_buffer.hist(), delayed);
    assert forall|k: int| 0 <= k < early2.len() implies early2[k] == 0i64 by {
    }
    lemma_early_sum_zero(early2, pre.early_delays@, pre.early_gains@, 12);

    let ph2 = wrap_phase_spec(pre.lfo_phase + inc);
    let q0 = rev_delay_spec(pre.cl0.base_size_spec(), size, depth, ph2, 0);
    let q1 = rev_delay_spec(pre.cl1.base_size_spec(), size, depth, ph2, 1);
    let q2 = rev_delay_spec(pre.cl2.base_size_spec(), size, depth, ph2, 2);
    let q3 = rev_delay_spec(pre.cl3.base_size_spec(), size, depth, ph2, 3);
    let p0 = rev_delay_spec(pre.cr0.base_size_spec(), size, depth, ph2, 0);
    let p1 = rev_delay_spec(pre.cr1.base_size_spec(), size, depth, ph2, 1);
    let p2 = rev_delay_spec(pre.cr2.base_size_spec(), size, depth, ph2, 2);
    let p3 = rev_delay_spec(pre.cr3.base_size_spec(), size, depth, ph2, 3);
    lemma_rev_delay_nonneg(pre.cl0.base_size_spec(), size, depth, ph2, 0);
    lemma_rev_delay_nonneg(pre.cl1.base_size_spec(), size, depth, ph2, 1);
    lemma_rev_delay_nonneg(pre.cl2.base_size_spec(), size, depth, ph2, 2);
    lemma_rev_delay_nonneg(pre.cl3.base_size_spec(), size, depth, ph2, 3);
    lemma_rev_delay_nonneg(pre.cr0.base_size_spec(), size, depth, ph2, 0);
    lemma_rev_delay_nonneg(pre.cr1.base_size_spec(), size, depth, ph2, 1);
    lemma_rev_delay_nonneg(pre.cr2.base_size_spec(), size, depth, ph2, 2);
    lemma_rev_delay_nonneg(pre.cr3.base_size_spec(), size, depth, ph2, 3);
    crate::filters::lemma_comb_mod_quiet_step(pre.cl0.model(), fb, d1, d2, q0);
    crate::filters::lemma_comb_mod_quiet_step(pre.cl1.model(), fb, d1, d2, q1);
    crate::filters::lemma_comb_mod_quiet_step(pre.cl2.model(), fb, d1, d2, q2);
    crate::filters::lemma_comb_mod_quiet_step(pre.cl3.model(), fb, d1, d2, q3);
    crate::filters::lemma_comb_mod_quiet_step(pre.cr0.model(), fb, d1, d2, p0);
    crate::filters::lemma_comb_mod_quiet_step(pre.cr1.model(), fb, d1, d2, p1);
    crate::filters::lemma_comb_mod_quiet_step(pre.cr2.model(), fb, d1, d2, p2);
    crate::filters::lemma_comb_mod_quiet_step(pre.cr3.model(), fb, d1, d2, p3);

    assert(0int * 16384 == 0) by (nonlinear_arith);
    lemma_allpass_quiet_step(pre.al0.hist());
    lemma_allpass_quiet_step(pre.al1.hist());
    lemma_allpass_quiet_step(pre.al2.hist());
    lemma_allpass_quiet_step(pre.al3.hist());
    lemma_allpass_quiet_step(pre.ar0.hist());
    lemma_allpass_quiet_step(pre.ar1.hist());
    lemma_allpass_quiet_step(pre.ar2.hist());
    lemma_allpass_quiet_step(pre.ar3.hist());

    assert(0int * (65536 - elm as int) == 0) by (nonlinear_arith);
    assert(0int * (elm as int) == 0) by (nonlinear_arith);
    assert(0int * (width as int) == 0) by (nonlinear_arith);
    assert(0int * (65536 - wet as int) == 0) by (nonlinear_arith);
    assert(0int * (wet as int) == 0) by (nonlinear_arith);
}

/// The modulated comb delay is never negative: the swing is at most a
/// twentieth of the scaled base length.
proof fn lemma_rev_delay_nonneg(base_size: int, size: i64, depth: i64, ph2: i64, j: int)
    requires
        0 <= base_size <= 0x1_0000,
        is_unit(size as int),
        is_unit(depth as int),
        0 <= ph2 <= 411774,
        0 <= j <= 3,
    ensures
        0 <= rev_delay_spec(base_size, size, depth, ph2, j),
{
    let scale = 32768 + mul_q_spec(size as int, 98304);
    lemma_abs_mul_bound(size as int, 98304, 65536, 98304);
    lemma_mul_q_bound(size as int, 98304, 65536, 98304);
    vstd::arithmetic::div_mod::lemma_div_pos_is_pos(size as int * 98304, 65536);
    assert(0 <= base_size * (32768 + mul_q_spec(size as int, 98304))
        <= 0x1_0000int * 131072) by (nonlinear_arith)
        requires
            0 <= base_size <= 0x1_0000,
            0 <= 32768 + mul_q_spec(size as int, 98304) <= 131072;
    let base_q = base_size * scale;
    lemma_abs_mul_bound(depth as int, base_q, 65536, base_q);
    lemma_mul_q_bound(depth as int, base_q, 65536, base_q);
    vstd::arithmetic::div_mod::lemma_div_multiples_vanish(base_q, 65536);
    assert(65536 * base_q == base_q * 65536);
    lemma_mul_q_interp(depth as int, base_q);
    let amt = mul_q_spec(depth as int, base_q) / 20;
    vstd::arithmetic::div_mod::lemma_div_pos_is_pos(mul_q_spec(depth as int, base_q), 20);
    vstd::arithmetic::div_mod::lemma_div_is_ordered(mul_q_spec(depth as int, base_q), base_q, 20);
    vstd::arithmetic::div_mod::lemma_div_nonincreasing(base_q, 20);
    let lf = rev_lfo_spec(ph2, j);
    vstd::arithmetic::div_mod::lemma_div_pos_is_pos(j * 205887, 4);
    vstd::arithmetic::div_mod::lemma_div_is_ordered(j * 205887, 3int * 205887, 4);
    crate::trig::lemma_sin_q_range(wrap_phase_spec(ph2 + (j * 205887) / 4) as int);
    lemma_abs_mul_bound(lf, amt, 65536, amt);
    lemma_mul_q_bound(lf, amt, 65536, amt);
    vstd::arithmetic::div_mod::lemma_div_multiples_vanish(amt, 65536);
    assert(65536 * amt == amt * 65536);
}

/// Law (dry bypass): with the wet control at zero a reverb step hands the
/// dry input through unchanged.
pub proof fn lemma_reverb_tick_dry(
    pre: ReverbProcessor, post: ReverbProcessor, out: (i64, i64), l: i64, r: i64, inc: i64,
    size: i64, depth: i64, fb: i64, d1: i64, d2: i64, pds: usize, elm: i64, width: i64,
)
    requires
        pre.wf(),
        crate::fixed::in_range(l as int),
        crate::fixed::in_range(r as int),
        pre.tick_post(post, out, l, r, inc, size, depth, fb, d1, d2, pds, elm, width, 0i64),
    ensures
        out == (l, r),
{
    crate::fixed::lemma_mul_q_one(l as int);
    crate::fixed::lemma_mul_q_one(r as int);
    let ph2 = wrap_phase_spec(pre.lfo_phase + inc);
    let mono = mul_q_spec(l + r, 32768) as i64;
    let pre2 = write_spec(pre.pre_delay.hist(), mono);
    let delayed = pre2[(pds as int) % (pre2.len() as int)];
    let early2 = write_spec(pre.early_buffer.hist(), delayed);
    let esum = early_sum_spec(early2, pre.early_delays@, pre.early_gains@, 12);
    assert forall|a: int| true implies #[trigger] mul_q_spec(a, 0int) == 0 by {
        assert(a * 0 == 0) by (nonlinear_arith);
    }
    assert(0int * 32768 == 0) by (nonlinear_arith);
}

/// Append one early-reflection tap: `ms` milliseconds at the sample rate,
/// with the decaying gain `e^(-ms / 80)`.
fn push_early_tap(dels: &mut Vec<usize>, gains: &mut Vec<i64>, ms: i64, sample_rate: i64)
    requires
        1 <= ms <= 73,
        1 <= sample_rate <= 1_000_000,
    ensures
        final(dels)@ == old(dels)@.push((((ms * sample_rate) / 1000) as int) as usize),
        final(gains)@ == old(gains)@.push(exp_neg_spec(((ms * 65536) / 80) as int) as i64),
        final(dels)@.len() == old(dels)@.len() + 1,
        final(gains)@.len() == old(gains)@.len() + 1,
        is_unit(final(gains)@.last() as int),
{
    proof {
        assert(0 <= ms * sample_rate as int <= 73int * 1_000_000) by (nonlinear_arith)
            requires 1 <= sample_rate <= 1_000_000, 0 <= ms <= 73;
        vstd::arithmetic::div_mod::lemma_div_pos_is_pos(ms as int * sample_rate as int, 1000);
        vstd::arithmetic::div_mod::lemma_div_pos_is_pos(ms as int * 65536, 80);
    }
    dels.push(((ms * sample_rate) / 1000) as usize);
    gains.push(exp_neg_q((ms * FRAC_ONE) / 80));
}

/// A Freeverb tuning scaled by the Q16 rate factor.
fn scaled_size(tuning: i64, scale_q: i64) -> (r: usize)
    requires
        0 <= tuning <= 2000,
        0 <= scale_q <= (1_000_000int * 65536) / 44100 + 1,
    ensures
        r as int == (tuning * scale_q) / 65536,
        r <= 0xffff - 100,
{
    proof {
        assert(0 <= tuning * scale_q <= 2000int * ((1_000_000int * 65536) / 44100 + 1))
            by (nonlinear_arith)
            requires 0 <= tuning <= 2000, 0 <= scale_q <= (1_000_000int * 65536) / 44100 + 1;
        vstd::arithmetic::div_mod::lemma_div_pos_is_pos(tuning as int * scale_q, 65536);
        vstd::arithmetic::div_mod::lemma_div_is_ordered(
            tuning as int * scale_q, 2000int * ((1_000_000int * 65536) / 44100 + 1), 65536);
    }
    ((tuning * scale_q) / FRAC_ONE) as usize
}

} // verus!
