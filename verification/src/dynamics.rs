//! Dynamics processors: the compressor and the brick-wall limiter, both
//! driven by a one-pole envelope follower.
//!
//! The insert compressor evaluates its gain in the decibel domain: the
//! envelope's level over the threshold in dB (through the Q16 logarithm),
//! scaled by `1 - 1/ratio` above the knee with a squared blend inside it,
//! then converted back to a linear gain. The channel strip's and bus
//! processor's dynamics use the engine's linear law
//! `1 / (1 + excess / ratio)` instead (`comp_gain_spec`).

use vstd::prelude::*;
use crate::approx::{
    db_of_ratio, db_of_ratio_spec, db_to_linear_q, db_to_linear_spec, exp_neg_q, exp_neg_spec,
};
use crate::chain::{lemma_take_all, lemma_take_snoc, zip_spec};
use crate::fixed::{
    FRAC_ONE, SAMPLE_LIMIT, in_range, is_unit, lemma_abs_mul_bound, lemma_mul_q_bound,
    lemma_mul_q_interp, mul_q, mul_q_spec, div_q, div_q_spec, sat, sat_i64,
};

verus! {

/// Peak of a stereo pair: the larger magnitude of the two sides.
pub open spec fn peak_spec(l: i64, r: i64) -> i64 {
    let al = if l >= 0 { l as int } else { -(l as int) };
    let ar = if r >= 0 { r as int } else { -(r as int) };
    if al >= ar {
        al as i64
    } else {
        ar as i64
    }
}

fn peak_of(l: i64, r: i64) -> (p: i64)
    requires
        in_range(l as int),
        in_range(r as int),
    ensures
        p == peak_spec(l, r),
        0 <= p <= SAMPLE_LIMIT,
{
    let al = if l >= 0 { l } else { -l };
    let ar = if r >= 0 { r } else { -r };
    if al >= ar { al } else { ar }
}

/// One-pole move from `env` toward `peak` by coefficient `c`
/// (`c * env + (1 - c) * peak`, written as an interpolation).
pub open spec fn env_step_spec(env: i64, peak: i64, c: i64) -> i64 {
    (peak + mul_q_spec(c as int, env - peak)) as i64
}

fn env_step(env: i64, peak: i64, c: i64) -> (r: i64)
    requires
        0 <= env <= SAMPLE_LIMIT,
        0 <= peak <= SAMPLE_LIMIT,
        is_unit(c as int),
    ensures
        r == env_step_spec(env, peak, c),
        0 <= r <= SAMPLE_LIMIT,
{
    proof {
        lemma_abs_mul_bound(c as int, env - peak, 65536, SAMPLE_LIMIT as int);
        lemma_mul_q_interp(c as int, env - peak);
    }
    peak + mul_q(c, env - peak)
}

/// The smoothing coefficient for a time constant: `e^(-1 / (seconds *
/// sample_rate))` with the sample count floored at one.
pub open spec fn smoothing_coef_spec(seconds: i64, sample_rate: i64) -> i64 {
    let n = mul_q_spec(seconds as int, sample_rate as int * 65536) / 65536;
    let n1 = if n < 1 { 1int } else { n };
    exp_neg_spec(div_q_spec(65536, n1)) as i64
}

pub fn smoothing_coef(seconds: i64, sample_rate: i64) -> (r: i64)
    requires
        0 <= seconds <= 10 * 65536,
        1 <= sample_rate <= 1_000_000,
    ensures
        r == smoothing_coef_spec(seconds, sample_rate),
        is_unit(r as int),
{
    proof {
        lemma_abs_mul_bound(seconds as int, sample_rate as int * 65536,
            10int * 65536, 1_000_000int * 65536);
        lemma_mul_q_bound(seconds as int, sample_rate as int * 65536,
            10int * 65536, 1_000_000int * 65536);
        vstd::arithmetic::div_mod::lemma_div_pos_is_pos(
            mul_q_spec(seconds as int, sample_rate as int * 65536), 65536);
        vstd::arithmetic::div_mod::lemma_div_is_ordered(
            mul_q_spec(seconds as int, sample_rate as int * 65536),
            (10int * 65536 * (1_000_000 * 65536)) / 65536, 65536);
    }
    let n = mul_q(seconds, sample_rate * FRAC_ONE) / FRAC_ONE;
    let n1 = if n < 1 { 1 } else { n };
    exp_neg_q(div_q(FRAC_ONE, n1))
}

// ---------------------------------------------------------------------
// Limiter
// ---------------------------------------------------------------------

/// The limiter's envelope after one stereo sample: instant attack, smoothed
/// release.
pub open spec fn limiter_env_spec(env: i64, l: i64, r: i64, rc: i64) -> i64 {
    let p = peak_spec(l, r);
    if p > env {
        p
    } else {
        env_step_spec(env, p, rc)
    }
}

/// What the limiter emits for one stereo sample: gain the signal down to
/// the threshold when the envelope exceeds it, then clamp at the ceiling.
pub open spec fn limiter_out_spec(env: i64, l: i64, r: i64, thr: i64, ceil: i64, rc: i64)
    -> (i64, i64) {
    let e = limiter_env_spec(env, l, r, rc);
    let gain = if e > thr { div_q_spec(thr as int, e as int) } else { 65536int };
    let ol = mul_q_spec(l as int, gain);
    let or_ = mul_q_spec(r as int, gain);
    (
        if ol > ceil as int { ceil } else if ol < -(ceil as int) { (-ceil) as i64 } else { ol as i64 },
        if or_ > ceil as int { ceil } else if or_ < -(ceil as int) { (-ceil) as i64 } else { or_ as i64 },
    )
}

/// The limiter's envelope after a whole block.
pub open spec fn limiter_run_spec(env: i64, xs: Seq<(i64, i64)>, rc: i64) -> i64
    decreases xs.len(),
{
    if xs.len() == 0 {
        env
    } else {
        limiter_env_spec(limiter_run_spec(env, xs.drop_last(), rc), xs.last().0, xs.last().1, rc)
    }
}

/// The limiter's output block.
pub open spec fn limiter_outs_spec(env: i64, xs: Seq<(i64, i64)>, thr: i64, ceil: i64, rc: i64)
    -> Seq<(i64, i64)>
    decreases xs.len(),
{
    if xs.len() == 0 {
        Seq::empty()
    } else {
        limiter_outs_spec(env, xs.drop_last(), thr, ceil, rc).push(
            limiter_out_spec(
                limiter_run_spec(env, xs.drop_last(), rc), xs.last().0, xs.last().1,
                thr, ceil, rc),
        )
    }
}

pub struct Limiter {
    pub sample_rate: i64,
    pub threshold: i64,
    pub release: i64,
    pub ceiling: i64,
    pub envelope: i64,
}

impl Limiter {
    pub open spec fn wf(self) -> bool {
        &&& 1 <= self.sample_rate <= 1_000_000
        &&& -20 * 65536 <= self.threshold <= 0
        &&& 655 <= self.release <= 65536
        &&& -6 * 65536 <= self.ceiling <= 0
        &&& 0 <= self.envelope <= SAMPLE_LIMIT
    }

    pub fn new(sample_rate: i64) -> (r: Limiter)
        requires
            1 <= sample_rate <= 1_000_000,
        ensures
            r.wf(),
            r.threshold == -65536 && r.ceiling == -19661 && r.envelope == 0,
            r.release == 6554,
            r.sample_rate == sample_rate,
    {
        Limiter {
            sample_rate,
            threshold: -FRAC_ONE,
            release: 6554,
            ceiling: -19661,
            envelope: 0,
        }
    }

    /// Limit threshold in Q16 decibels, clamped to -20..0 dB.
    pub fn set_threshold(&mut self, db: i64)
        requires
            old(self).wf(),
        ensures
            final(self).wf(),
            final(self).threshold == if db < -20 * 65536 { (-20 * 65536) as i64 } else if db > 0 { 0i64 } else { db },
            final(self).release == old(self).release && final(self).ceiling == old(self).ceiling,
            final(self).envelope == old(self).envelope,
            final(self).sample_rate == old(self).sample_rate,
    {
        self.threshold = if db < -20 * FRAC_ONE {
            -20 * FRAC_ONE
        } else if db > 0 {
            0
        } else {
            db
        };
    }

    /// Release time in Q16 seconds, clamped to 0.01..1 s.
    pub fn set_release(&mut self, seconds: i64)
        requires
            old(self).wf(),
        ensures
            final(self).wf(),
            final(self).release == if seconds < 655 { 655i64 } else if seconds > 65536 { 65536i64 } else { seconds },
            final(self).threshold == old(self).threshold && final(self).ceiling == old(self).ceiling,
            final(self).envelope == old(self).envelope,
            final(self).sample_rate == old(self).sample_rate,
    {
        self.release = if seconds < 655 { 655 } else if seconds > FRAC_ONE { FRAC_ONE } else { seconds };
    }

    /// Output ceiling in Q16 decibels, clamped to -6..0 dB.
    pub fn set_ceiling(&mut self, db: i64)
        requires
            old(self).wf(),
        ensures
            final(self).wf(),
            final(self).ceiling == if db < -6 * 65536 { (-6 * 65536) as i64 } else if db > 0 { 0i64 } else { db },
            final(self).threshold == old(self).threshold && final(self).release == old(self).release,
            final(self).envelope == old(self).envelope,
            final(self).sample_rate == old(self).sample_rate,
    {
        self.ceiling = if db < -6 * FRAC_ONE { -6 * FRAC_ONE } else if db > 0 { 0 } else { db };
    }

    /// The linear threshold, ceiling, and release coefficient used by a
    /// block, derived from the decibel parameters.
    pub open spec fn coeffs_spec(self) -> (i64, i64, i64) {
        (
            db_to_linear_spec(self.threshold as int) as i64,
            db_to_linear_spec(self.ceiling as int) as i64,
            smoothing_coef_spec(self.release, self.sample_rate),
        )
    }

    /// Limit a stereo block: instant attack, smoothed release, and a hard
    /// ceiling on every output sample.
    pub fn process(&mut self, in_l: &Vec<i64>, in_r: &Vec<i64>) -> (out: (Vec<i64>, Vec<i64>))
        requires
            old(self).wf(),
            forall|k: int| 0 <= k < in_l@.len() ==> in_range(#[trigger] in_l@[k] as int),
            forall|k: int| 0 <= k < in_r@.len() ==> in_range(#[trigger] in_r@[k] as int),
        ensures
            final(self).wf(),
            final(self).threshold == old(self).threshold,
            final(self).release == old(self).release,
            final(self).ceiling == old(self).ceiling,
            final(self).sample_rate == old(self).sample_rate,
            ({
                let xs = zip_spec(in_l@, in_r@);
                let (thr, ceil, rc) = old(self).coeffs_spec();
                &&& final(self).envelope == limiter_run_spec(old(self).envelope, xs, rc)
                &&& out.0@.len() == xs.len() && out.1@.len() == xs.len()
                &&& forall|k: int| 0 <= k < xs.len()
                    ==> (#[trigger] out.0@[k], out.1@[k])
                        == limiter_outs_spec(old(self).envelope, xs, thr, ceil, rc)[k]
            }),
            forall|k: int| 0 <= k < out.0@.len() ==> in_range(#[trigger] out.0@[k] as int),
            forall|k: int| 0 <= k < out.1@.len() ==> in_range(#[trigger] out.1@[k] as int),
    {
        let ghost xs = zip_spec(in_l@, in_r@);
        let ghost env0 = self.envelope;
        let thr = db_to_linear_q(self.threshold);
        let ceil = db_to_linear_q(self.ceiling);
        let rc = smoothing_coef(self.release, self.sample_rate);

        let len = if in_l.len() <= in_r.len() { in_l.len() } else { in_r.len() };
        let mut out_l: Vec<i64> = Vec::new();
        let mut out_r: Vec<i64> = Vec::new();
        let mut i: usize = 0;
        while i < len
            invariant
                i <= len,
                len == xs.len(),
                xs == zip_spec(in_l@, in_r@),
                len <= in_l@.len() && len <= in_r@.len(),
                self.threshold == old(self).threshold,
                self.release == old(self).release,
                self.ceiling == old(self).ceiling,
                self.sample_rate == old(self).sample_rate,
                self.wf(),
                env0 == old(self).envelope,
                thr as int == db_to_linear_spec(self.threshold as int),
                ceil as int == db_to_linear_spec(self.ceiling as int),
                rc == smoothing_coef_spec(self.release, self.sample_rate),
                1 <= thr <= 65536,
                1 <= ceil <= 65536,
                is_unit(rc as int),
                forall|k: int| 0 <= k < in_l@.len() ==> in_range(#[trigger] in_l@[k] as int),
                forall|k: int| 0 <= k < in_r@.len() ==> in_range(#[trigger] in_r@[k] as int),
                self.envelope == limiter_run_spec(env0, xs.take(i as int), rc),
                out_l@.len() == i && out_r@.len() == i,
                forall|k: int| 0 <= k < i
                    ==> (#[trigger] out_l@[k], out_r@[k])
                        == limiter_outs_spec(env0, xs, thr, ceil, rc)[k],
                forall|k: int| 0 <= k < i ==> in_range(#[trigger] out_l@[k] as int),
                forall|k: int| 0 <= k < i ==> in_range(#[trigger] out_r@[k] as int),
            decreases len - i,
        {
            proof {
                lemma_take_snoc(xs, i as int);
                lemma_limiter_outs_len(env0, xs, thr, ceil, rc);
                lemma_limiter_outs_index(env0, xs, thr, ceil, rc, i as int);
            }
            let l = in_l[i];
            let r = in_r[i];
            let p = peak_of(l, r);
            let e = if p > self.envelope {
                p
            } else {
                env_step(self.envelope, p, rc)
            };
            self.envelope = e;
            let gain = if e > thr {
                proof {
                    vstd::arithmetic::div_mod::lemma_div_pos_is_pos(thr as int * 65536, e as int);
                    vstd::arithmetic::div_mod::lemma_div_is_ordered_by_denominator(
                        thr as int * 65536, thr as int, e as int);
                    vstd::arithmetic::div_mod::lemma_div_multiples_vanish(65536, thr as int);
                    assert(thr as int * 65536 == 65536 * thr);
                }
                div_q(thr, e)
            } else {
                FRAC_ONE
            };
            proof {
                lemma_abs_mul_bound(l as int, gain as int, SAMPLE_LIMIT as int, 65536);
                lemma_mul_q_bound(l as int, gain as int, SAMPLE_LIMIT as int, 65536);
                lemma_abs_mul_bound(r as int, gain as int, SAMPLE_LIMIT as int, 65536);
                lemma_mul_q_bound(r as int, gain as int, SAMPLE_LIMIT as int, 65536);
            }
            let ol = mul_q(l, gain);
            let or_ = mul_q(r, gain);
            let ol = if ol > ceil { ceil } else if ol < -ceil { -ceil } else { ol };
            let or_ = if or_ > ceil { ceil } else if or_ < -ceil { -ceil } else { or_ };
            out_l.push(ol);
            out_r.push(or_);
            i += 1;
        }
        proof {
            lemma_take_all(xs);
            lemma_limiter_outs_len(env0, xs, thr, ceil, rc);
        }
        (out_l, out_r)
    }

    /// Clear the envelope follower.
    pub fn reset(&mut self)
        requires
            old(self).wf(),
        ensures
            final(self).wf(),
            final(self).envelope == 0,
            final(self).threshold == old(self).threshold,
            final(self).release == old(self).release,
            final(self).ceiling == old(self).ceiling,
            final(self).sample_rate == old(self).sample_rate,
    {
        self.envelope = 0;
    }
}

// ---------------------------------------------------------------------
// Compressor
// ---------------------------------------------------------------------

/// The compressor's envelope after one stereo sample: the attack
/// coefficient while the peak rises, the release coefficient while it
/// falls.
pub open spec fn comp_env_spec(env: i64, l: i64, r: i64, ac: i64, rc: i64) -> i64 {
    let p = peak_spec(l, r);
    env_step_spec(env, p, if p > env { ac } else { rc })
}

/// The linear-domain gain law of the strip's and the bus processor's
/// dynamics: unity below the linear threshold, else
/// `1 / (1 + excess / ratio)` with the excess measured relative to the
/// threshold; floored at one Q16 step, so it is strictly positive however
/// extreme the excess.
pub open spec fn comp_gain_spec(e: i64, thr: i64, ratio: i64) -> i64 {
    if e <= thr {
        65536i64
    } else {
        let excess = div_q_spec(e - thr, thr as int);
        let reduction = div_q_spec(excess, ratio as int);
        let t = div_q_spec(65536, 65536 + reduction);
        if t < 1 {
            1i64
        } else {
            t as i64
        }
    }
}

/// What the compressor emits for one stereo sample.
pub open spec fn comp_out_spec(
    env: i64, l: i64, r: i64, thr: i64, ratio: i64, knee_db: i64, makeup: i64, ac: i64, rc: i64,
) -> (i64, i64) {
    let e = comp_env_spec(env, l, r, ac, rc);
    let g = mul_q_spec(comp_db_gain_spec(e, thr, ratio, knee_db) as int, makeup as int);
    (sat_i64(mul_q_spec(l as int, g)), sat_i64(mul_q_spec(r as int, g)))
}

/// The compressor's envelope after a whole block.
pub open spec fn comp_run_spec(env: i64, xs: Seq<(i64, i64)>, ac: i64, rc: i64) -> i64
    decreases xs.len(),
{
    if xs.len() == 0 {
        env
    } else {
        comp_env_spec(comp_run_spec(env, xs.drop_last(), ac, rc), xs.last().0, xs.last().1, ac, rc)
    }
}

/// The compressor's output block.
pub open spec fn comp_outs_spec(
    env: i64, xs: Seq<(i64, i64)>, thr: i64, ratio: i64, knee_db: i64, makeup: i64,
    ac: i64, rc: i64,
) -> Seq<(i64, i64)>
    decreases xs.len(),
{
    if xs.len() == 0 {
        Seq::empty()
    } else {
        comp_outs_spec(env, xs.drop_last(), thr, ratio, knee_db, makeup, ac, rc).push(
            comp_out_spec(
                comp_run_spec(env, xs.drop_last(), ac, rc), xs.last().0, xs.last().1,
                thr, ratio, knee_db, makeup, ac, rc),
        )
    }
}

/// The makeup gain in linear Q16, capped at 16.
pub open spec fn makeup_lin_spec(db: int) -> i64 {
    let g = db_to_linear_spec(db);
    if g > 1048576 {
        1048576i64
    } else {
        g as i64
    }
}

/// The insert compressor's gain for an envelope value, in the decibel
/// domain: the level over the linear threshold in dB, zero reduction below
/// the knee, `db_over * (1 - 1/ratio)` above it, and a squared blend
/// through the knee zone; the reduction (clamped into +-100 dB) converts
/// back to a linear gain, capped at 16.
pub open spec fn comp_db_gain_spec(e: i64, thr: i64, ratio: i64, knee: i64) -> i64 {
    let dbo = db_of_ratio_spec(e as int, thr as int) as int;
    let kh = (knee as int) / 2;
    let slope = 65536 - div_q_spec(65536, ratio as int);
    let gdb = if dbo <= -kh {
        0int
    } else if dbo >= kh {
        mul_q_spec(dbo, slope)
    } else {
        let kf = div_q_spec(dbo + kh, knee as int);
        mul_q_spec(mul_q_spec(dbo, slope), mul_q_spec(kf, kf))
    };
    let gc = if gdb > 100 * 65536 {
        100int * 65536
    } else if gdb < -100 * 65536 {
        (-100) * 65536
    } else {
        gdb
    };
    makeup_lin_spec(-gc)
}

fn db_gain_for(e: i64, thr: i64, ratio: i64, knee: i64) -> (g: i64)
    requires
        0 <= e <= SAMPLE_LIMIT,
        1 <= thr <= 65536,
        65536 <= ratio <= 20 * 65536,
        0 <= knee <= 24 * 65536,
    ensures
        g == comp_db_gain_spec(e, thr, ratio, knee),
        1 <= g <= 1048576,
{
    let dbo = db_of_ratio(e, thr);
    let kh = knee / 2;
    proof {
        vstd::arithmetic::div_mod::lemma_div_pos_is_pos(65536int * 65536, ratio as int);
        vstd::arithmetic::div_mod::lemma_div_is_ordered_by_denominator(
            65536int * 65536, 65536, ratio as int);
        vstd::arithmetic::div_mod::lemma_div_multiples_vanish(65536, 65536);
    }
    let inv_r = div_q(FRAC_ONE, ratio);
    let slope = FRAC_ONE - inv_r;
    let gdb = if dbo <= -kh {
        0
    } else if dbo >= kh {
        proof {
            lemma_abs_mul_bound(dbo as int, slope as int, 400int * 65536, 65536);
            lemma_mul_q_bound(dbo as int, slope as int, 400int * 65536, 65536);
            assert(400int * 65536 * 65536 == 65536int * (400 * 65536));
            vstd::arithmetic::div_mod::lemma_div_multiples_vanish(400int * 65536, 65536);
        }
        mul_q(dbo, slope)
    } else {
        proof {
            assert(kh >= 1);
            assert(dbo + kh < knee);
            vstd::arithmetic::div_mod::lemma_div_pos_is_pos((dbo + kh) * 65536, knee as int);
            vstd::arithmetic::div_mod::lemma_div_is_ordered(
                (dbo + kh) * 65536, knee as int * 65536, knee as int);
            vstd::arithmetic::div_mod::lemma_div_multiples_vanish(65536, knee as int);
            assert(knee as int * 65536 == 65536 * (knee as int));
        }
        let kf = div_q(dbo + kh, knee);
        proof {
            lemma_abs_mul_bound(kf as int, kf as int, 65536, 65536);
            lemma_mul_q_bound(kf as int, kf as int, 65536, 65536);
            vstd::arithmetic::div_mod::lemma_div_multiples_vanish(65536, 65536);
            lemma_abs_mul_bound(dbo as int, slope as int, 400int * 65536, 65536);
            lemma_mul_q_bound(dbo as int, slope as int, 400int * 65536, 65536);
            assert(400int * 65536 * 65536 == 65536int * (400 * 65536));
            vstd::arithmetic::div_mod::lemma_div_multiples_vanish(400int * 65536, 65536);
        }
        let kf2 = mul_q(kf, kf);
        let ds = mul_q(dbo, slope);
        proof {
            lemma_abs_mul_bound(ds as int, kf2 as int, 400int * 65536, 65536);
            lemma_mul_q_bound(ds as int, kf2 as int, 400int * 65536, 65536);
        }
        mul_q(ds, kf2)
    };
    let gc = if gdb > 100 * FRAC_ONE {
        100 * FRAC_ONE
    } else if gdb < -100 * FRAC_ONE {
        -100 * FRAC_ONE
    } else {
        gdb
    };
    let red = db_to_linear_q(-gc);
    if red > 1048576 { 1048576 } else { red }
}

pub struct Compressor {
    pub sample_rate: i64,
    pub threshold: i64,
    pub ratio: i64,
    pub attack: i64,
    pub release: i64,
    pub knee: i64,
    pub makeup_gain: i64,
    pub envelope: i64,
    pub gain_reduction: i64,
}

impl Compressor {
    pub open spec fn wf(self) -> bool {
        &&& 1 <= self.sample_rate <= 1_000_000
        &&& -60 * 65536 <= self.threshold <= 0
        &&& 65536 <= self.ratio <= 20 * 65536
        &&& 7 <= self.attack <= 65536
        &&& 655 <= self.release <= 5 * 65536
        &&& 0 <= self.knee <= 24 * 65536
        &&& 0 <= self.makeup_gain <= 24 * 65536
        &&& 0 <= self.envelope <= SAMPLE_LIMIT
        &&& 1 <= self.gain_reduction <= 1048576
    }

    pub fn new(sample_rate: i64) -> (r: Compressor)
        requires
            1 <= sample_rate <= 1_000_000,
        ensures
            r.wf(),
            r.threshold == -18 * 65536 && r.ratio == 4 * 65536,
            r.attack == 655 && r.release == 6554,
            r.knee == 6 * 65536 && r.makeup_gain == 0,
            r.envelope == 0 && r.gain_reduction == 65536,
            r.sample_rate == sample_rate,
    {
        Compressor {
            sample_rate,
            threshold: -18 * FRAC_ONE,
            ratio: 4 * FRAC_ONE,
            attack: 655,
            release: 6554,
            knee: 6 * FRAC_ONE,
            makeup_gain: 0,
            envelope: 0,
            gain_reduction: FRAC_ONE,
        }
    }

    /// Threshold in Q16 decibels, clamped to -60..0 dB.
    pub fn set_threshold(&mut self, db: i64)
        requires
            old(self).wf(),
        ensures
            final(self).wf(),
            final(self).threshold == if db < -60 * 65536 { (-60 * 65536) as i64 } else if db > 0 { 0i64 } else { db },
            *final(self) == (Compressor { threshold: final(self).threshold, ..*old(self) }),
    {
        self.threshold = if db < -60 * FRAC_ONE { -60 * FRAC_ONE } else if db > 0 { 0 } else { db };
    }

    /// Ratio in Q16, clamped to 1..20.
    pub fn set_ratio(&mut self, ratio: i64)
        requires
            old(self).wf(),
        ensures
            final(self).wf(),
            final(self).ratio == if ratio < 65536 { 65536i64 } else if ratio > 20 * 65536 { (20 * 65536) as i64 } else { ratio },
            *final(self) == (Compressor { ratio: final(self).ratio, ..*old(self) }),
    {
        self.ratio = if ratio < FRAC_ONE { FRAC_ONE } else if ratio > 20 * FRAC_ONE { 20 * FRAC_ONE } else { ratio };
    }

    /// Attack time in Q16 seconds, clamped to 0.0001..1 s.
    pub fn set_attack(&mut self, seconds: i64)
        requires
            old(self).wf(),
        ensures
            final(self).wf(),
            final(self).attack == if seconds < 7 { 7i64 } else if seconds > 65536 { 65536i64 } else { seconds },
            *final(self) == (Compressor { attack: final(self).attack, ..*old(self) }),
    {
        self.attack = if seconds < 7 { 7 } else if seconds > FRAC_ONE { FRAC_ONE } else { seconds };
    }

    /// Release time in Q16 seconds, clamped to 0.01..5 s.
    pub fn set_release(&mut self, seconds: i64)
        requires
            old(self).wf(),
        ensures
            final(self).wf(),
            final(self).release == if seconds < 655 { 655i64 } else if seconds > 5 * 65536 { (5 * 65536) as i64 } else { seconds },
            *final(self) == (Compressor { release: final(self).release, ..*old(self) }),
    {
        self.release = if seconds < 655 { 655 } else if seconds > 5 * FRAC_ONE { 5 * FRAC_ONE } else { seconds };
    }

    /// Knee width in Q16 decibels, clamped to 0..24 dB (0 is a hard knee).
    pub fn set_knee(&mut self, db: i64)
        requires
            old(self).wf(),
        ensures
            final(self).wf(),
            final(self).knee == if db < 0 { 0i64 } else if db > 24 * 65536 { (24 * 65536) as i64 } else { db },
            *final(self) == (Compressor { knee: final(self).knee, ..*old(self) }),
    {
        self.knee = if db < 0 { 0 } else if db > 24 * FRAC_ONE { 24 * FRAC_ONE } else { db };
    }

    /// Makeup gain in Q16 decibels, clamped to 0..24 dB.
    pub fn set_makeup_gain(&mut self, db: i64)
        requires
            old(self).wf(),
        ensures
            final(self).wf(),
            final(self).makeup_gain == if db < 0 { 0i64 } else if db > 24 * 65536 { (24 * 65536) as i64 } else { db },
            *final(self) == (Compressor { makeup_gain: final(self).makeup_gain, ..*old(self) }),
    {
        self.makeup_gain = if db < 0 { 0 } else if db > 24 * FRAC_ONE { 24 * FRAC_ONE } else { db };
    }

    /// The linear threshold, attack and release coefficients, knee width and
    /// makeup gain a block runs with.
    pub open spec fn coeffs_spec(self) -> (i64, i64, i64, i64, i64) {
        (
            db_to_linear_spec(self.threshold as int) as i64,
            smoothing_coef_spec(self.attack, self.sample_rate),
            smoothing_coef_spec(self.release, self.sample_rate),
            self.knee,
            makeup_lin_spec(self.makeup_gain as int),
        )
    }

    /// Compress a stereo block.
    pub fn process(&mut self, in_l: &Vec<i64>, in_r: &Vec<i64>) -> (out: (Vec<i64>, Vec<i64>))
        requires
            old(self).wf(),
            forall|k: int| 0 <= k < in_l@.len() ==> in_range(#[trigger] in_l@[k] as int),
            forall|k: int| 0 <= k < in_r@.len() ==> in_range(#[trigger] in_r@[k] as int),
        ensures
            final(self).wf(),
            final(self).threshold == old(self).threshold,
            final(self).ratio == old(self).ratio,
            final(self).attack == old(self).attack,
            final(self).release == old(self).release,
            final(self).knee == old(self).knee,
            final(self).makeup_gain == old(self).makeup_gain,
            final(self).sample_rate == old(self).sample_rate,
            ({
                let xs = zip_spec(in_l@, in_r@);
                let (thr, ac, rc, knee_db, makeup) = old(self).coeffs_spec();
                &&& final(self).envelope == comp_run_spec(old(self).envelope, xs, ac, rc)
                &&& (xs.len() == 0 ==> final(self).gain_reduction == old(self).gain_reduction)
                &&& (xs.len() > 0 ==> final(self).gain_reduction == comp_db_gain_spec(
                    comp_run_spec(old(self).envelope, xs, ac, rc),
                    thr, old(self).ratio, knee_db))
                &&& out.0@.len() == xs.len() && out.1@.len() == xs.len()
                &&& forall|k: int| 0 <= k < xs.len()
                    ==> (#[trigger] out.0@[k], out.1@[k]) == comp_outs_spec(
                        old(self).envelope, xs, thr, old(self).ratio, knee_db, makeup, ac, rc)[k]
            }),
            forall|k: int| 0 <= k < out.0@.len() ==> in_range(#[trigger] out.0@[k] as int),
            forall|k: int| 0 <= k < out.1@.len() ==> in_range(#[trigger] out.1@[k] as int),
    {
        let ghost xs = zip_spec(in_l@, in_r@);
        let ghost env0 = self.envelope;
        let thr = db_to_linear_q(self.threshold);
        let ac = smoothing_coef(self.attack, self.sample_rate);
        let rc = smoothing_coef(self.release, self.sample_rate);
        let knee_db = self.knee;
        let makeup_raw = db_to_linear_q(self.makeup_gain);
        let makeup = if makeup_raw > 1048576 { 1048576 } else { makeup_raw };
        let ratio = self.ratio;

        let len = if in_l.len() <= in_r.len() { in_l.len() } else { in_r.len() };
        let mut out_l: Vec<i64> = Vec::new();
        let mut out_r: Vec<i64> = Vec::new();
        let mut i: usize = 0;
        while i < len
            invariant
                i <= len,
                len == xs.len(),
                xs == zip_spec(in_l@, in_r@),
                len <= in_l@.len() && len <= in_r@.len(),
                self.threshold == old(self).threshold,
                self.ratio == old(self).ratio && ratio == self.ratio,
                self.attack == old(self).attack,
                self.release == old(self).release,
                self.knee == old(self).knee,
                self.makeup_gain == old(self).makeup_gain,
                self.sample_rate == old(self).sample_rate,
                self.wf(),
                env0 == old(self).envelope,
                thr as int == db_to_linear_spec(self.threshold as int),
                ac == smoothing_coef_spec(self.attack, self.sample_rate),
                rc == smoothing_coef_spec(self.release, self.sample_rate),
                knee_db == self.knee,
                makeup == makeup_lin_spec(self.makeup_gain as int),
                1 <= thr <= 65536,
                0 <= knee_db <= 24 * 65536,
                65536 <= makeup <= 1048576,
                is_unit(ac as int) && is_unit(rc as int),
                forall|k: int| 0 <= k < in_l@.len() ==> in_range(#[trigger] in_l@[k] as int),
                forall|k: int| 0 <= k < in_r@.len() ==> in_range(#[trigger] in_r@[k] as int),
                self.envelope == comp_run_spec(env0, xs.take(i as int), ac, rc),
                i == 0 ==> self.gain_reduction == old(self).gain_reduction,
                i > 0 ==> self.gain_reduction == comp_db_gain_spec(
                    self.envelope, thr, ratio, knee_db),
                out_l@.len() == i && out_r@.len() == i,
                forall|k: int| 0 <= k < i
                    ==> (#[trigger] out_l@[k], out_r@[k]) == comp_outs_spec(
                        env0, xs, thr, ratio, knee_db, makeup, ac, rc)[k],
                forall|k: int| 0 <= k < i ==> in_range(#[trigger] out_l@[k] as int),
                forall|k: int| 0 <= k < i ==> in_range(#[trigger] out_r@[k] as int),
            decreases len - i,
        {
            proof {
                lemma_take_snoc(xs, i as int);
                lemma_comp_outs_len(env0, xs, thr, ratio, knee_db, makeup, ac, rc);
                lemma_comp_outs_index(env0, xs, thr, ratio, knee_db, makeup, ac, rc, i as int);
            }
            let l = in_l[i];
            let r = in_r[i];
            let p = peak_of(l, r);
            let c = if p > self.envelope { ac } else { rc };
            let e = env_step(self.envelope, p, c);
            self.envelope = e;
            let g = db_gain_for(e, thr, ratio, knee_db);
            self.gain_reduction = g;
            proof {
                lemma_abs_mul_bound(g as int, makeup as int, 1048576, 1048576);
                lemma_mul_q_bound(g as int, makeup as int, 1048576, 1048576);
                assert((1048576int * 1048576) / 65536 == 16777216);
            }
            let fg = mul_q(g, makeup);
            proof {
                lemma_abs_mul_bound(l as int, fg as int, SAMPLE_LIMIT as int, 16777216);
                lemma_abs_mul_bound(r as int, fg as int, SAMPLE_LIMIT as int, 16777216);
            }
            let ol = sat(mul_q(l, fg));
            let or_ = sat(mul_q(r, fg));
            out_l.push(ol);
            out_r.push(or_);
            i += 1;
        }
        proof {
            lemma_take_all(xs);
            lemma_comp_outs_len(env0, xs, thr, ratio, knee_db, makeup, ac, rc);
        }
        (out_l, out_r)
    }

    /// Clear the envelope follower and the reported gain reduction.
    pub fn reset(&mut self)
        requires
            old(self).wf(),
        ensures
            final(self).wf(),
            final(self).envelope == 0,
            final(self).gain_reduction == 65536,
            *final(self) == (Compressor {
                envelope: 0i64,
                gain_reduction: 65536i64,
                ..*old(self)
            }),
    {
        self.envelope = 0;
        self.gain_reduction = FRAC_ONE;
    }
}

pub proof fn lemma_comp_outs_len(
    env: i64, xs: Seq<(i64, i64)>, thr: i64, ratio: i64, knee_db: i64, makeup: i64,
    ac: i64, rc: i64,
)
    ensures
        comp_outs_spec(env, xs, thr, ratio, knee_db, makeup, ac, rc).len() == xs.len(),
    decreases xs.len(),
{
    if xs.len() > 0 {
        lemma_comp_outs_len(env, xs.drop_last(), thr, ratio, knee_db, makeup, ac, rc);
    }
}

/// Output `k` of a compressed block reads the envelope after the first `k`
/// steps.
pub proof fn lemma_comp_outs_index(
    env: i64, xs: Seq<(i64, i64)>, thr: i64, ratio: i64, knee_db: i64, makeup: i64,
    ac: i64, rc: i64, k: int,
)
    requires
        0 <= k < xs.len(),
    ensures
        comp_outs_spec(env, xs, thr, ratio, knee_db, makeup, ac, rc)[k] == comp_out_spec(
            comp_run_spec(env, xs.take(k), ac, rc), xs[k].0, xs[k].1,
            thr, ratio, knee_db, makeup, ac, rc),
    decreases xs.len(),
{
    lemma_comp_outs_len(env, xs, thr, ratio, knee_db, makeup, ac, rc);
    if k == xs.len() - 1 {
        assert(xs.take(k) =~= xs.drop_last());
    } else {
        lemma_comp_outs_index(env, xs.drop_last(), thr, ratio, knee_db, makeup, ac, rc, k);
        assert(xs.drop_last().take(k) =~= xs.take(k));
    }
}

pub proof fn lemma_limiter_outs_len(env: i64, xs: Seq<(i64, i64)>, thr: i64, ceil: i64, rc: i64)
    ensures
        limiter_outs_spec(env, xs, thr, ceil, rc).len() == xs.len(),
    decreases xs.len(),
{
    if xs.len() > 0 {
        lemma_limiter_outs_len(env, xs.drop_last(), thr, ceil, rc);
    }
}

/// Output `k` of a limited block reads the envelope after the first `k`
/// steps.
pub proof fn lemma_limiter_outs_index(
    env: i64, xs: Seq<(i64, i64)>, thr: i64, ceil: i64, rc: i64, k: int,
)
    requires
        0 <= k < xs.len(),
    ensures
        limiter_outs_spec(env, xs, thr, ceil, rc)[k] == limiter_out_spec(
            limiter_run_spec(env, xs.take(k), rc), xs[k].0, xs[k].1, thr, ceil, rc),
    decreases xs.len(),
{
    lemma_limiter_outs_len(env, xs, thr, ceil, rc);
    if k == xs.len() - 1 {
        assert(xs.take(k) =~= xs.drop_last());
    } else {
        lemma_limiter_outs_index(env, xs.drop_last(), thr, ceil, rc, k);
        assert(xs.drop_last().take(k) =~= xs.take(k));
    }
}

} // verus!
