//! The standalone stereo bus processor: three-band equalization, the
//! smoothed compressor, output gain, constant-power pan of the mono sum
//! when panned off center, and an optional mono fold-down, over whole
//! buffers.

use vstd::prelude::*;
use crate::approx::{db_to_linear_q, db_to_linear_spec};
use crate::biquad::{ThreeBandEQ, eq_out_spec, eq_state_cleared, eq_step_spec, eq_updated};
use crate::chain::{lemma_take_all, lemma_take_snoc, zip_spec};
use crate::dynamics::{comp_gain_spec, peak_spec, smoothing_coef, smoothing_coef_spec};
use crate::fixed::{
    FRAC_ONE, SAMPLE_LIMIT, in_range, is_unit, lemma_abs_mul_bound, lemma_mul_q_bound,
    lemma_mul_q_interp, mul_q, mul_q_spec, sat, sat_i64,
};
use crate::strip::comp_relax_spec;
use crate::trig::{pan_gain_l_spec, pan_gain_r_spec, pan_gains};

verus! {

/// The bus compressor's smoothed gain and cached linear threshold after
/// one stereo sample: near-silence or a disengaged threshold relaxes the
/// gain toward unity and leaves the cache; otherwise the cache takes the
/// threshold's linear value and the gain moves toward the ratio target,
/// fast when falling, slow when recovering.
pub open spec fn bus_comp_step_spec(
    g: i64, cache: i64, l: i64, r: i64, thr_db: i64, ratio: i64, thr_lin: i64,
    sf_fast: i64, sf_slow: i64,
) -> (i64, i64) {
    let level = peak_spec(l, r);
    if level < 66 || thr_db >= 0 {
        (comp_relax_spec(g), cache)
    } else {
        let target = comp_gain_spec(level, thr_lin, ratio);
        let sf = if target < g { sf_fast } else { sf_slow };
        ((g + mul_q_spec(sf as int, target - g)) as i64, thr_lin)
    }
}

/// Model of the bus processor's per-sample state: the two equalizers, the
/// smoothed compressor gain, and the cached linear threshold.
pub type BusCore = (ThreeBandEQ, ThreeBandEQ, i64, i64);

/// One bus step: equalize (if engaged), compress (if engaged), apply the
/// output gain; a pan off center replaces the stereo pair with the
/// constant-power-weighted mono sum, a centered pan passes stereo through;
/// then optionally fold to mono.
pub open spec fn bus_step_spec(
    s: BusCore, l: i64, r: i64, eq_active: bool, comp_active: bool, gain: i64, pan: i64,
    mono: bool, thr_db: i64, ratio: i64, thr_lin: i64, sf_fast: i64, sf_slow: i64,
) -> (BusCore, (i64, i64)) {
    let l1 = if eq_active { eq_out_spec(s.0, l) } else { l };
    let r1 = if eq_active { eq_out_spec(s.1, r) } else { r };
    let eq_l2 = if eq_active { eq_step_spec(s.0, l) } else { s.0 };
    let eq_r2 = if eq_active { eq_step_spec(s.1, r) } else { s.1 };
    let stepped = bus_comp_step_spec(s.2, s.3, l1, r1, thr_db, ratio, thr_lin, sf_fast, sf_slow);
    let g2 = if comp_active { stepped.0 } else { s.2 };
    let cache2 = if comp_active { stepped.1 } else { s.3 };
    let l2 = if comp_active { mul_q_spec(l1 as int, g2 as int) as i64 } else { l1 };
    let r2 = if comp_active { mul_q_spec(r1 as int, g2 as int) as i64 } else { r1 };
    let l3 = sat_i64(mul_q_spec(l2 as int, gain as int));
    let r3 = sat_i64(mul_q_spec(r2 as int, gain as int));
    let panned = if pan != 0 {
        let ms = mul_q_spec(l3 as int + r3 as int, 32768);
        (
            mul_q_spec(ms, pan_gain_l_spec(pan as int)) as i64,
            mul_q_spec(ms, pan_gain_r_spec(pan as int)) as i64,
        )
    } else {
        (l3, r3)
    };
    let out = if mono {
        let folded = mul_q_spec(panned.0 as int + panned.1 as int, 32768) as i64;
        (folded, folded)
    } else {
        panned
    };
    ((eq_l2, eq_r2, g2, cache2), out)
}

/// The bus core after a whole block.
pub open spec fn bus_run_spec(
    s: BusCore, xs: Seq<(i64, i64)>, eq_active: bool, comp_active: bool, gain: i64, pan: i64,
    mono: bool, thr_db: i64, ratio: i64, thr_lin: i64, sf_fast: i64, sf_slow: i64,
) -> BusCore
    decreases xs.len(),
{
    if xs.len() == 0 {
        s
    } else {
        bus_step_spec(
            bus_run_spec(s, xs.drop_last(), eq_active, comp_active, gain, pan, mono, thr_db,
                ratio, thr_lin, sf_fast, sf_slow),
            xs.last().0, xs.last().1, eq_active, comp_active, gain, pan, mono, thr_db, ratio,
            thr_lin, sf_fast, sf_slow).0
    }
}

/// The bus output block.
pub open spec fn bus_outs_spec(
    s: BusCore, xs: Seq<(i64, i64)>, eq_active: bool, comp_active: bool, gain: i64, pan: i64,
    mono: bool, thr_db: i64, ratio: i64, thr_lin: i64, sf_fast: i64, sf_slow: i64,
) -> Seq<(i64, i64)>
    decreases xs.len(),
{
    if xs.len() == 0 {
        Seq::empty()
    } else {
        bus_outs_spec(s, xs.drop_last(), eq_active, comp_active, gain, pan, mono, thr_db,
            ratio, thr_lin, sf_fast, sf_slow).push(
            bus_step_spec(
                bus_run_spec(s, xs.drop_last(), eq_active, comp_active, gain, pan, mono,
                    thr_db, ratio, thr_lin, sf_fast, sf_slow),
                xs.last().0, xs.last().1, eq_active, comp_active, gain, pan, mono, thr_db,
                ratio, thr_lin, sf_fast, sf_slow).1,
        )
    }
}

pub proof fn lemma_bus_outs_len(
    s: BusCore, xs: Seq<(i64, i64)>, eq_active: bool, comp_active: bool, gain: i64, pan: i64,
    mono: bool, thr_db: i64, ratio: i64, thr_lin: i64, sf_fast: i64, sf_slow: i64,
)
    ensures
        bus_outs_spec(s, xs, eq_active, comp_active, gain, pan, mono, thr_db, ratio, thr_lin,
            sf_fast, sf_slow).len() == xs.len(),
    decreases xs.len(),
{
    if xs.len() > 0 {
        lemma_bus_outs_len(s, xs.drop_last(), eq_active, comp_active, gain, pan, mono,
            thr_db, ratio, thr_lin, sf_fast, sf_slow);
    }
}

pub proof fn lemma_bus_outs_index(
    s: BusCore, xs: Seq<(i64, i64)>, eq_active: bool, comp_active: bool, gain: i64, pan: i64,
    mono: bool, thr_db: i64, ratio: i64, thr_lin: i64, sf_fast: i64, sf_slow: i64, k: int,
)
    requires
        0 <= k < xs.len(),
    ensures
        bus_outs_spec(s, xs, eq_active, comp_active, gain, pan, mono, thr_db, ratio, thr_lin,
            sf_fast, sf_slow)[k] == bus_step_spec(
            bus_run_spec(s, xs.take(k), eq_active, comp_active, gain, pan, mono, thr_db,
                ratio, thr_lin, sf_fast, sf_slow),
            xs[k].0, xs[k].1, eq_active, comp_active, gain, pan, mono, thr_db, ratio,
            thr_lin, sf_fast, sf_slow).1,
    decreases xs.len(),
{
    lemma_bus_outs_len(s, xs, eq_active, comp_active, gain, pan, mono, thr_db, ratio,
        thr_lin, sf_fast, sf_slow);
    if k == xs.len() - 1 {
        assert(xs.take(k) =~= xs.drop_last());
    } else {
        lemma_bus_outs_index(s, xs.drop_last(), eq_active, comp_active, gain, pan, mono,
            thr_db, ratio, thr_lin, sf_fast, sf_slow, k);
        assert(xs.drop_last().take(k) =~= xs.take(k));
        assert(xs.drop_last()[k] == xs[k]);
    }
}

pub struct WasmAudioProcessor {
    pub eq_l: ThreeBandEQ,
    pub eq_r: ThreeBandEQ,
    pub sample_rate: i64,
    pub comp_gain: i64,
    pub comp_threshold_linear: i64,
}

impl WasmAudioProcessor {
    pub open spec fn wf(self) -> bool {
        &&& self.eq_l.wf() && self.eq_r.wf()
        &&& 1 <= self.sample_rate <= 1_000_000
        &&& 1 <= self.comp_gain <= 65536
        &&& 1 <= self.comp_threshold_linear <= 65536
    }

    pub open spec fn bus_core(self) -> BusCore {
        (self.eq_l, self.eq_r, self.comp_gain, self.comp_threshold_linear)
    }

    pub fn new(sample_rate: i64) -> (r: WasmAudioProcessor)
        requires
            1 <= sample_rate <= 1_000_000,
        ensures
            r.wf(),
            r.sample_rate == sample_rate,
            r.comp_gain == 65536 && r.comp_threshold_linear == 65536,
            eq_state_cleared(r.eq_l) && eq_state_cleared(r.eq_r),
    {
        WasmAudioProcessor {
            eq_l: ThreeBandEQ::new(sample_rate),
            eq_r: ThreeBandEQ::new(sample_rate),
            sample_rate,
            comp_gain: FRAC_ONE,
            comp_threshold_linear: FRAC_ONE,
        }
    }

    /// Recompute both channels' equalizer coefficients from the cookbook
    /// formulas; filter state and the compressor are untouched.
    pub fn update_eq_coefficients(
        &mut self, low_gain: i64, mid_gain: i64, high_gain: i64, low_freq: i64, high_freq: i64,
    )
        requires
            old(self).wf(),
        ensures
            final(self).wf(),
            final(self).sample_rate == old(self).sample_rate,
            final(self).comp_gain == old(self).comp_gain,
            final(self).comp_threshold_linear == old(self).comp_threshold_linear,
            eq_updated(old(self).eq_l, final(self).eq_l, low_gain, mid_gain, high_gain,
                low_freq, high_freq),
            eq_updated(old(self).eq_r, final(self).eq_r, low_gain, mid_gain, high_gain,
                low_freq, high_freq),
    {
        self.eq_l.update_coefficients(low_gain, mid_gain, high_gain, low_freq, high_freq);
        self.eq_r.update_coefficients(low_gain, mid_gain, high_gain, low_freq, high_freq);
    }

    /// One sample of the bus chain.
    #[verifier::rlimit(100)]
    fn bus_sample(
        &mut self, l: i64, r: i64, eq_active: bool, comp_active: bool, gain: i64, pan: i64,
        mono: bool, thr_db: i64, ratio: i64, thr_lin: i64, sf_fast: i64, sf_slow: i64,
        pgl: i64, pgr: i64,
    ) -> (out: (i64, i64))
        requires
            old(self).wf(),
            in_range(l as int),
            in_range(r as int),
            -16777216 <= gain <= 16777216,
            -65536 <= pan <= 65536,
            65536 <= ratio <= 20 * 65536,
            1 <= thr_lin <= 65536,
            is_unit(sf_fast as int),
            is_unit(sf_slow as int),
            pgl == pan_gain_l_spec(pan as int) && 0 <= pgl <= 65536,
            pgr == pan_gain_r_spec(pan as int) && 0 <= pgr <= 65536,
        ensures
            final(self).wf(),
            final(self).sample_rate == old(self).sample_rate,
            ({
                let stepped = bus_step_spec(
                    old(self).bus_core(), l, r, eq_active, comp_active, gain, pan, mono,
                    thr_db, ratio, thr_lin, sf_fast, sf_slow);
                final(self).bus_core() == stepped.0 && out == stepped.1
            }),
            in_range(out.0 as int),
            in_range(out.1 as int),
    {
        let (l1, r1) = if eq_active {
            let a = self.eq_l.process(l);
            let b = self.eq_r.process(r);
            (a, b)
        } else {
            (l, r)
        };
        let (l2, r2) = if comp_active {
            let level = if l1 >= 0 { l1 } else { -l1 };
            let level_r = if r1 >= 0 { r1 } else { -r1 };
            let level = if level >= level_r { level } else { level_r };
            let g2 = if level < 66 || thr_db >= 0 {
                proof {
                    lemma_mul_q_interp(197, 65536 - self.comp_gain as int);
                }
                self.comp_gain + mul_q(197, FRAC_ONE - self.comp_gain)
            } else {
                self.comp_threshold_linear = thr_lin;
                let target = bus_comp_target(level, thr_lin, ratio);
                let sf = if target < self.comp_gain { sf_fast } else { sf_slow };
                proof {
                    lemma_abs_mul_bound(sf as int, target - self.comp_gain, 65536, 65536);
                    lemma_mul_q_interp(sf as int, target - self.comp_gain);
                }
                self.comp_gain + mul_q(sf, target - self.comp_gain)
            };
            self.comp_gain = g2;
            proof {
                lemma_abs_mul_bound(l1 as int, g2 as int, SAMPLE_LIMIT as int, 65536);
                lemma_mul_q_bound(l1 as int, g2 as int, SAMPLE_LIMIT as int, 65536);
                lemma_abs_mul_bound(r1 as int, g2 as int, SAMPLE_LIMIT as int, 65536);
                lemma_mul_q_bound(r1 as int, g2 as int, SAMPLE_LIMIT as int, 65536);
            }
            (mul_q(l1, g2), mul_q(r1, g2))
        } else {
            (l1, r1)
        };
        proof {
            lemma_abs_mul_bound(l2 as int, gain as int, SAMPLE_LIMIT as int, 16777216);
            lemma_abs_mul_bound(r2 as int, gain as int, SAMPLE_LIMIT as int, 16777216);
        }
        let l3 = sat(mul_q(l2, gain));
        let r3 = sat(mul_q(r2, gain));
        let (l4, r4) = if pan != 0 {
            proof {
                lemma_abs_mul_bound(l3 + r3 as int, 32768, 2 * SAMPLE_LIMIT as int, 32768);
                lemma_mul_q_bound(l3 + r3 as int, 32768, 2 * SAMPLE_LIMIT as int, 32768);
            }
            let ms = mul_q(l3 + r3, 32768);
            proof {
                lemma_abs_mul_bound(ms as int, pgl as int, SAMPLE_LIMIT as int, 65536);
                lemma_mul_q_bound(ms as int, pgl as int, SAMPLE_LIMIT as int, 65536);
                lemma_abs_mul_bound(ms as int, pgr as int, SAMPLE_LIMIT as int, 65536);
                lemma_mul_q_bound(ms as int, pgr as int, SAMPLE_LIMIT as int, 65536);
            }
            (mul_q(ms, pgl), mul_q(ms, pgr))
        } else {
            (l3, r3)
        };
        if mono {
            proof {
                lemma_abs_mul_bound(l4 + r4 as int, 32768, 2 * SAMPLE_LIMIT as int, 32768);
                lemma_mul_q_bound(l4 + r4 as int, 32768, 2 * SAMPLE_LIMIT as int, 32768);
            }
            let ms = mul_q(l4 + r4, 32768);
            (ms, ms)
        } else {
            (l4, r4)
        }
    }

    /// Process a stereo buffer: equalization and compression where engaged,
    /// then gain, the pan law over the mono sum, and an optional mono
    /// fold-down. The outputs are exactly the per-sample chain folded over
    /// the inputs (truncated to the shortest buffer).
    #[verifier::rlimit(100)]
    pub fn process_buffer(
        &mut self, input_l: &Vec<i64>, input_r: &Vec<i64>, eq_active: bool, comp_active: bool,
        gain: i64, pan: i64, mono: bool, threshold: i64, ratio: i64,
    ) -> (out: (Vec<i64>, Vec<i64>))
        requires
            old(self).wf(),
            forall|k: int| 0 <= k < input_l@.len() ==> in_range(#[trigger] input_l@[k] as int),
            forall|k: int| 0 <= k < input_r@.len() ==> in_range(#[trigger] input_r@[k] as int),
        ensures
            final(self).wf(),
            final(self).sample_rate == old(self).sample_rate,
            out.0@.len() == if input_l@.len() <= input_r@.len() { input_l@.len() } else { input_r@.len() },
            out.1@.len() == out.0@.len(),
            forall|k: int| 0 <= k < out.0@.len() ==> in_range(#[trigger] out.0@[k] as int),
            forall|k: int| 0 <= k < out.1@.len() ==> in_range(#[trigger] out.1@[k] as int),
            ({
                let xs = zip_spec(input_l@, input_r@);
                let gain_c = if gain < -16777216 { (-16777216) as i64 } else if gain > 16777216 { 16777216i64 } else { gain };
                let pan_c = if pan < -65536 { (-65536) as i64 } else if pan > 65536 { 65536i64 } else { pan };
                let ratio_c = if ratio < 65536 { 65536i64 } else if ratio > 20 * 65536 { (20 * 65536) as i64 } else { ratio };
                let thr_lin = db_to_linear_spec(
                    if threshold > 0 { 0int } else if threshold < -100 * 65536 { (-100 * 65536) as int } else { threshold as int });
                let sf_fast = (65536 - smoothing_coef_spec(197, old(self).sample_rate)) as i64;
                let sf_slow = (65536 - smoothing_coef_spec(6554, old(self).sample_rate)) as i64;
                &&& final(self).bus_core() == bus_run_spec(
                    old(self).bus_core(), xs, eq_active, comp_active, gain_c, pan_c, mono,
                    threshold, ratio_c, thr_lin as i64, sf_fast, sf_slow)
                &&& forall|k: int| 0 <= k < xs.len()
                    ==> (#[trigger] out.0@[k], out.1@[k]) == bus_outs_spec(
                        old(self).bus_core(), xs, eq_active, comp_active, gain_c, pan_c,
                        mono, threshold, ratio_c, thr_lin as i64, sf_fast, sf_slow)[k]
            }),
    {
        let ghost core0 = self.bus_core();
        let ghost xs = zip_spec(input_l@, input_r@);
        let gain_c = if gain < -16777216 { -16777216 } else if gain > 16777216 { 16777216 } else { gain };
        let pan_c = if pan < -FRAC_ONE { -FRAC_ONE } else if pan > FRAC_ONE { FRAC_ONE } else { pan };
        let ratio_c = if ratio < FRAC_ONE { FRAC_ONE } else if ratio > 20 * FRAC_ONE { 20 * FRAC_ONE } else { ratio };
        let thr_arg = if threshold > 0 {
            0
        } else if threshold < -100 * FRAC_ONE {
            -100 * FRAC_ONE
        } else {
            threshold
        };
        let thr_lin = db_to_linear_q(thr_arg);
        let sf_fast = FRAC_ONE - smoothing_coef(197, self.sample_rate);
        let sf_slow = FRAC_ONE - smoothing_coef(6554, self.sample_rate);
        let pg = pan_gains(pan_c);

        let len = if input_l.len() <= input_r.len() { input_l.len() } else { input_r.len() };
        let mut out_l: Vec<i64> = Vec::new();
        let mut out_r: Vec<i64> = Vec::new();
        let mut i: usize = 0;
        while i < len
            invariant
                i <= len,
                len == xs.len(),
                xs == zip_spec(input_l@, input_r@),
                len <= input_l@.len() && len <= input_r@.len(),
                self.wf(),
                self.sample_rate == old(self).sample_rate,
                core0 == old(self).bus_core(),
                -16777216 <= gain_c <= 16777216,
                -65536 <= pan_c <= 65536,
                65536 <= ratio_c <= 20 * 65536,
                gain_c == (if gain < -16777216 { (-16777216) as i64 } else if gain > 16777216 { 16777216i64 } else { gain }),
                pan_c == (if pan < -65536 { (-65536) as i64 } else if pan > 65536 { 65536i64 } else { pan }),
                ratio_c == (if ratio < 65536 { 65536i64 } else if ratio > 20 * 65536 { (20 * 65536) as i64 } else { ratio }),
                thr_lin as int == db_to_linear_spec(
                    if threshold > 0 { 0int } else if threshold < -100 * 65536 { (-100 * 65536) as int } else { threshold as int }),
                1 <= thr_lin <= 65536,
                sf_fast == 65536 - smoothing_coef_spec(197, self.sample_rate),
                sf_slow == 65536 - smoothing_coef_spec(6554, self.sample_rate),
                is_unit(sf_fast as int) && is_unit(sf_slow as int),
                pg.0 == pan_gain_l_spec(pan_c as int) && 0 <= pg.0 <= 65536,
                pg.1 == pan_gain_r_spec(pan_c as int) && 0 <= pg.1 <= 65536,
                forall|k: int| 0 <= k < input_l@.len() ==> in_range(#[trigger] input_l@[k] as int),
                forall|k: int| 0 <= k < input_r@.len() ==> in_range(#[trigger] input_r@[k] as int),
                self.bus_core() == bus_run_spec(core0, xs.take(i as int), eq_active,
                    comp_active, gain_c, pan_c, mono, threshold, ratio_c, thr_lin, sf_fast,
                    sf_slow),
                out_l@.len() == i && out_r@.len() == i,
                forall|k: int| 0 <= k < i
                    ==> (#[trigger] out_l@[k], out_r@[k]) == bus_outs_spec(
                        core0, xs, eq_active, comp_active, gain_c, pan_c, mono, threshold,
                        ratio_c, thr_lin, sf_fast, sf_slow)[k],
                forall|k: int| 0 <= k < i ==> in_range(#[trigger] out_l@[k] as int),
                forall|k: int| 0 <= k < i ==> in_range(#[trigger] out_r@[k] as int),
            decreases len - i,
        {
            proof {
                lemma_take_snoc(xs, i as int);
                lemma_bus_outs_len(core0, xs, eq_active, comp_active, gain_c, pan_c, mono,
                    threshold, ratio_c, thr_lin, sf_fast, sf_slow);
                lemma_bus_outs_index(core0, xs, eq_active, comp_active, gain_c, pan_c, mono,
                    threshold, ratio_c, thr_lin, sf_fast, sf_slow, i as int);
            }
            let o = self.bus_sample(input_l[i], input_r[i], eq_active, comp_active, gain_c,
                pan_c, mono, threshold, ratio_c, thr_lin, sf_fast, sf_slow, pg.0, pg.1);
            out_l.push(o.0);
            out_r.push(o.1);
            i += 1;
        }
        proof {
            lemma_take_all(xs);
            lemma_bus_outs_len(core0, xs, eq_active, comp_active, gain_c, pan_c, mono,
                threshold, ratio_c, thr_lin, sf_fast, sf_slow);
        }
        (out_l, out_r)
    }

    /// Clear the equalizer histories and the compressor gain.
    pub fn reset(&mut self)
        requires
            old(self).wf(),
        ensures
            final(self).wf(),
            eq_state_cleared(final(self).eq_l),
            eq_state_cleared(final(self).eq_r),
            final(self).comp_gain == 65536,
            final(self).sample_rate == old(self).sample_rate,
    {
        self.eq_l.reset();
        self.eq_r.reset();
        self.comp_gain = FRAC_ONE;
    }
}

/// The ratio target above the linear threshold, shared shape with the
/// channel strip's dynamics.
fn bus_comp_target(level: i64, thr_lin: i64, ratio: i64) -> (g: i64)
    requires
        0 <= level <= SAMPLE_LIMIT,
        1 <= thr_lin <= 65536,
        65536 <= ratio <= 20 * 65536,
    ensures
        g == comp_gain_spec(level, thr_lin, ratio),
        1 <= g <= 65536,
{
    if level <= thr_lin {
        FRAC_ONE
    } else {
        proof {
            vstd::arithmetic::div_mod::lemma_div_pos_is_pos((level - thr_lin) * 65536, thr_lin as int);
            vstd::arithmetic::div_mod::lemma_div_is_ordered_by_denominator(
                (level - thr_lin) * 65536, 1, thr_lin as int);
        }
        let excess = crate::fixed::div_q(level - thr_lin, thr_lin);
        proof {
            vstd::arithmetic::div_mod::lemma_div_pos_is_pos(excess as int * 65536, ratio as int);
        }
        let reduction = crate::fixed::div_q(excess, ratio);
        proof {
            vstd::arithmetic::div_mod::lemma_div_pos_is_pos(65536int * 65536, 65536 + reduction as int);
            vstd::arithmetic::div_mod::lemma_div_is_ordered_by_denominator(
                65536int * 65536, 65536, 65536 + reduction as int);
            vstd::arithmetic::div_mod::lemma_div_multiples_vanish(65536, 65536);
        }
        let t = crate::fixed::div_q(FRAC_ONE, FRAC_ONE + reduction);
        if t < 1 { 1 } else { t }
    }
}

} // verus!
