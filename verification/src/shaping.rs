//! Memoryless waveshapers: the saturator (tape, tube and hard-clip curves)
//! and the soft/hard clipper.

use vstd::prelude::*;
use crate::approx::{db_to_linear_q, db_to_linear_spec, exp_neg_q, exp_neg_spec};
use crate::fixed::{
    FRAC_ONE, SAMPLE_LIMIT, in_range, is_unit, lemma_abs_mul_bound, lemma_mul_q_bound,
    lemma_mul_q_interp, mul_q, mul_q_spec, div_q, div_q_spec, sat, sat_i64,
};

verus! {

/// Clamp a driven sample to +-16.0, the working range of the shaper curves.
pub open spec fn drive_sat_spec(x: int) -> i64 {
    if x > 1048576 {
        1048576i64
    } else if x < -1048576 {
        (-1048576) as i64
    } else {
        x as i64
    }
}

fn drive_sat(x: i64) -> (r: i64)
    ensures
        r == drive_sat_spec(x as int),
        -1048576 <= r <= 1048576,
{
    if x > 1048576 {
        1048576
    } else if x < -1048576 {
        -1048576
    } else {
        x
    }
}

/// The soft "tape" curve `x (27 + x^2) / (27 + 9 x^2)`, a rational
/// approximation of the hyperbolic tangent, on the clamped drive range.
pub open spec fn tape_curve_spec(x: int) -> i64 {
    let t = mul_q_spec(x, x);
    let num = mul_q_spec(x, 27 * 65536 + t);
    let den = 27 * 65536 + 9 * t;
    div_q_spec(num as int, den) as i64
}

fn tape_curve(x: i64) -> (r: i64)
    requires
        -1048576 <= x <= 1048576,
    ensures
        r == tape_curve_spec(x as int),
        in_range(r as int),
{
    proof {
        lemma_abs_mul_bound(x as int, x as int, 1048576, 1048576);
        lemma_mul_q_bound(x as int, x as int, 1048576, 1048576);
    }
    let t = mul_q(x, x);
    proof {
        lemma_abs_mul_bound(x as int, 27 * 65536 + t as int, 1048576, 27int * 65536 + 16777216);
        lemma_mul_q_bound(x as int, 27 * 65536 + t as int, 1048576, 27int * 65536 + 16777216);
        assert(0 <= t) by {
            assert(0 <= x as int * x) by (nonlinear_arith);
            vstd::arithmetic::div_mod::lemma_div_pos_is_pos(x as int * x, 65536);
        }
    }
    let num = mul_q(x, 27 * FRAC_ONE + t);
    let den = 27 * FRAC_ONE + 9 * t;
    let r = div_q(num, den);
    proof {
        let nv = num as int;
        if nv >= 0 {
            vstd::arithmetic::div_mod::lemma_div_is_ordered(
                nv * 65536, nv * 65536, den as int);
            vstd::arithmetic::div_mod::lemma_div_is_ordered_by_denominator(
                nv * 65536, 27int * 65536, den as int);
            vstd::arithmetic::div_mod::lemma_div_pos_is_pos(nv * 65536, den as int);
        } else {
            vstd::arithmetic::div_mod::lemma_div_is_ordered_by_denominator(
                -nv * 65536, 27int * 65536, den as int);
            vstd::arithmetic::div_mod::lemma_div_pos_is_pos(-nv * 65536, den as int);
        }
    }
    r
}

/// The asymmetric "tube" curve `1 - e^(-x)` for positive input,
/// `-(1 - e^x)` for negative.
pub open spec fn tube_curve_spec(x: int) -> i64 {
    if x >= 0 {
        (65536 - exp_neg_spec(x)) as i64
    } else {
        (-(65536 - exp_neg_spec(-x))) as i64
    }
}

fn tube_curve(x: i64) -> (r: i64)
    requires
        -1048576 <= x <= 1048576,
    ensures
        r == tube_curve_spec(x as int),
        -65536 <= r <= 65536,
{
    if x >= 0 {
        FRAC_ONE - exp_neg_q(x)
    } else {
        -(FRAC_ONE - exp_neg_q(-x))
    }
}

/// Hard clip to full scale.
pub open spec fn hard_clip_spec(x: int) -> i64 {
    if x > 65536 {
        65536i64
    } else if x < -65536 {
        (-65536) as i64
    } else {
        x as i64
    }
}

fn hard_clip(x: i64) -> (r: i64)
    ensures
        r == hard_clip_spec(x as int),
        -65536 <= r <= 65536,
{
    if x > FRAC_ONE {
        FRAC_ONE
    } else if x < -FRAC_ONE {
        -FRAC_ONE
    } else {
        x
    }
}

/// What the saturator makes of one sample: drive, shape by mode, blend with
/// the dry signal, and apply the output gain.
pub open spec fn saturator_sample_spec(
    drive: i64, mix: i64, mode: u32, output_gain: i64, x: i64,
) -> i64 {
    let drive_amount = 65536 + 10 * drive;
    let driven = drive_sat_spec(mul_q_spec(drive_amount as int, x as int));
    let shaped = if mode == 0 {
        tape_curve_spec(driven as int)
    } else if mode == 1 {
        tube_curve_spec(driven as int)
    } else {
        hard_clip_spec(driven as int)
    };
    let blended = mul_q_spec(x as int, 65536 - mix) + mul_q_spec(shaped as int, mix as int);
    sat_i64(mul_q_spec(blended, output_gain as int))
}

pub struct Saturator {
    pub drive: i64,
    pub mix: i64,
    pub mode: u32,
    pub output_gain: i64,
}

impl Saturator {
    pub open spec fn wf(self) -> bool {
        &&& is_unit(self.drive as int)
        &&& is_unit(self.mix as int)
        &&& self.mode <= 2
        &&& 0 <= self.output_gain <= 262144
    }

    pub fn new() -> (r: Saturator)
        ensures
            r.wf(),
            r.drive == 32768 && r.mix == 65536 && r.mode == 0 && r.output_gain == 65536,
    {
        Saturator { drive: 32768, mix: FRAC_ONE, mode: 0, output_gain: FRAC_ONE }
    }

    /// Drive amount in `[0, 1]` (clamped).
    pub fn set_drive(&mut self, val: i64)
        requires
            old(self).wf(),
        ensures
            final(self).wf(),
            final(self).drive == if val < 0 { 0i64 } else if val > 65536 { 65536i64 } else { val },
            final(self).mix == old(self).mix && final(self).mode == old(self).mode,
            final(self).output_gain == old(self).output_gain,
    {
        self.drive = if val < 0 { 0 } else if val > FRAC_ONE { FRAC_ONE } else { val };
    }

    /// Dry/wet blend in `[0, 1]` (clamped).
    pub fn set_mix(&mut self, val: i64)
        requires
            old(self).wf(),
        ensures
            final(self).wf(),
            final(self).mix == if val < 0 { 0i64 } else if val > 65536 { 65536i64 } else { val },
            final(self).drive == old(self).drive && final(self).mode == old(self).mode,
            final(self).output_gain == old(self).output_gain,
    {
        self.mix = if val < 0 { 0 } else if val > FRAC_ONE { FRAC_ONE } else { val };
    }

    /// Curve selector: 0 tape, 1 tube, anything else hard clip (capped at 2).
    pub fn set_mode(&mut self, mode: u32)
        requires
            old(self).wf(),
        ensures
            final(self).wf(),
            final(self).mode == if mode > 2 { 2u32 } else { mode },
            final(self).drive == old(self).drive && final(self).mix == old(self).mix,
            final(self).output_gain == old(self).output_gain,
    {
        self.mode = if mode > 2 { 2 } else { mode };
    }

    /// Output gain from Q16 decibels, clamped to +-12 dB.
    pub fn set_output_gain(&mut self, db: i64)
        requires
            old(self).wf(),
        ensures
            final(self).wf(),
            ({
                let c = if db < -786432 { -786432int } else if db > 786432 { 786432int } else { db as int };
                final(self).output_gain == db_to_linear_spec(c)
                    || (final(self).output_gain == 262144 && db_to_linear_spec(c) > 262144)
            }),
            final(self).drive == old(self).drive && final(self).mix == old(self).mix,
            final(self).mode == old(self).mode,
    {
        let c = if db < -786432 { -786432 } else if db > 786432 { 786432 } else { db };
        let g = db_to_linear_q(c);
        self.output_gain = if g > 262144 { 262144 } else { g };
    }

    /// Shape a stereo block; the output blocks are exactly the per-sample
    /// curve applied to the inputs (truncated to the shorter channel).
    pub fn process(&mut self, in_l: &Vec<i64>, in_r: &Vec<i64>) -> (r: (Vec<i64>, Vec<i64>))
        requires
            old(self).wf(),
            forall|k: int| 0 <= k < in_l@.len() ==> in_range(#[trigger] in_l@[k] as int),
            forall|k: int| 0 <= k < in_r@.len() ==> in_range(#[trigger] in_r@[k] as int),
        ensures
            *final(self) == *old(self),
            final(self).wf(),
            r.0@.len() == if in_l@.len() <= in_r@.len() { in_l@.len() } else { in_r@.len() },
            r.1@.len() == r.0@.len(),
            forall|k: int| 0 <= k < r.0@.len() ==> #[trigger] r.0@[k] == saturator_sample_spec(
                old(self).drive, old(self).mix, old(self).mode, old(self).output_gain, in_l@[k]),
            forall|k: int| 0 <= k < r.1@.len() ==> #[trigger] r.1@[k] == saturator_sample_spec(
                old(self).drive, old(self).mix, old(self).mode, old(self).output_gain, in_r@[k]),
            forall|k: int| 0 <= k < r.0@.len() ==> in_range(#[trigger] r.0@[k] as int),
            forall|k: int| 0 <= k < r.1@.len() ==> in_range(#[trigger] r.1@[k] as int),
    {
        let len = if in_l.len() <= in_r.len() { in_l.len() } else { in_r.len() };
        let mut out_l: Vec<i64> = Vec::new();
        let mut out_r: Vec<i64> = Vec::new();
        let mut i: usize = 0;
        while i < len
            invariant
                i <= len,
                len <= in_l@.len() && len <= in_r@.len(),
                self == old(self),
                self.wf(),
                forall|k: int| 0 <= k < in_l@.len() ==> in_range(#[trigger] in_l@[k] as int),
                forall|k: int| 0 <= k < in_r@.len() ==> in_range(#[trigger] in_r@[k] as int),
                out_l@.len() == i && out_r@.len() == i,
                forall|k: int| 0 <= k < i ==> #[trigger] out_l@[k] == saturator_sample_spec(
                    self.drive, self.mix, self.mode, self.output_gain, in_l@[k]),
                forall|k: int| 0 <= k < i ==> #[trigger] out_r@[k] == saturator_sample_spec(
                    self.drive, self.mix, self.mode, self.output_gain, in_r@[k]),
            decreases len - i,
        {
            let l = self.shape_sample(in_l[i]);
            let rr = self.shape_sample(in_r[i]);
            out_l.push(l);
            out_r.push(rr);
            i += 1;
        }
        (out_l, out_r)
    }

    fn shape_sample(&self, x: i64) -> (r: i64)
        requires
            self.wf(),
            in_range(x as int),
        ensures
            r == saturator_sample_spec(self.drive, self.mix, self.mode, self.output_gain, x),
            in_range(r as int),
    {
        let drive_amount = FRAC_ONE + 10 * self.drive;
        proof {
            lemma_abs_mul_bound(drive_amount as int, x as int, 721056, SAMPLE_LIMIT as int);
            lemma_mul_q_bound(drive_amount as int, x as int, 721056, SAMPLE_LIMIT as int);
        }
        let driven = drive_sat(mul_q(drive_amount, x));
        let shaped = if self.mode == 0 {
            tape_curve(driven)
        } else if self.mode == 1 {
            tube_curve(driven)
        } else {
            hard_clip(driven)
        };
        proof {
            lemma_abs_mul_bound(x as int, 65536 - self.mix, SAMPLE_LIMIT as int, 65536);
            lemma_mul_q_bound(x as int, 65536 - self.mix, SAMPLE_LIMIT as int, 65536);
            lemma_abs_mul_bound(shaped as int, self.mix as int, SAMPLE_LIMIT as int, 65536);
            lemma_mul_q_bound(shaped as int, self.mix as int, SAMPLE_LIMIT as int, 65536);
        }
        let blended = mul_q(x, FRAC_ONE - self.mix) + mul_q(shaped, self.mix);
        proof {
            lemma_abs_mul_bound(blended as int, self.output_gain as int,
                2 * SAMPLE_LIMIT as int, 262144);
        }
        sat(mul_q(blended, self.output_gain))
    }
}

/// What the clipper makes of one sample: pass below the threshold, fold the
/// excess by the softness, and never exceed full scale.
pub open spec fn clip_sample_spec(threshold: i64, softness: i64, x: i64) -> i64 {
    let ax = if x >= 0 { x as int } else { -(x as int) };
    if ax <= threshold as int {
        x
    } else {
        let over = ax - threshold;
        let soft = threshold + mul_q_spec(over, 65536 - softness);
        let mag = if soft > 65536 { 65536int } else { soft };
        if x >= 0 {
            mag as i64
        } else {
            (-mag) as i64
        }
    }
}

pub struct Clipper {
    pub threshold: i64,
    pub softness: i64,
}

impl Clipper {
    pub open spec fn wf(self) -> bool {
        &&& 6554 <= self.threshold <= 65536
        &&& is_unit(self.softness as int)
    }

    pub fn new() -> (r: Clipper)
        ensures
            r.wf(),
            r.threshold == 52429 && r.softness == 32768,
    {
        Clipper { threshold: 52429, softness: 32768 }
    }

    /// Clip threshold in `[0.1, 1]` (clamped).
    pub fn set_threshold(&mut self, val: i64)
        requires
            old(self).wf(),
        ensures
            final(self).wf(),
            final(self).threshold == if val < 6554 { 6554i64 } else if val > 65536 { 65536i64 } else { val },
            final(self).softness == old(self).softness,
    {
        self.threshold = if val < 6554 { 6554 } else if val > FRAC_ONE { FRAC_ONE } else { val };
    }

    /// Softness in `[0, 1]` (clamped): 0 is a hard edge, 1 flattens the
    /// excess entirely.
    pub fn set_softness(&mut self, val: i64)
        requires
            old(self).wf(),
        ensures
            final(self).wf(),
            final(self).softness == if val < 0 { 0i64 } else if val > 65536 { 65536i64 } else { val },
            final(self).threshold == old(self).threshold,
    {
        self.softness = if val < 0 { 0 } else if val > FRAC_ONE { FRAC_ONE } else { val };
    }

    fn clip_sample(&self, x: i64) -> (r: i64)
        requires
            self.wf(),
            in_range(x as int),
        ensures
            r == clip_sample_spec(self.threshold, self.softness, x),
            -65536 <= r <= 65536 || r == x,
            in_range(r as int),
    {
        let ax = if x >= 0 { x } else { -x };
        if ax <= self.threshold {
            x
        } else {
            let over = ax - self.threshold;
            proof {
                lemma_abs_mul_bound(over as int, 65536 - self.softness,
                    2 * SAMPLE_LIMIT as int, 65536);
                lemma_mul_q_interp(65536 - self.softness as int, over as int);
            }
            let soft = self.threshold + mul_q(over, FRAC_ONE - self.softness);
            let mag = if soft > FRAC_ONE { FRAC_ONE } else { soft };
            if x >= 0 { mag } else { -mag }
        }
    }

    /// Clip a stereo block sample by sample.
    pub fn process(&mut self, in_l: &Vec<i64>, in_r: &Vec<i64>) -> (r: (Vec<i64>, Vec<i64>))
        requires
            old(self).wf(),
            forall|k: int| 0 <= k < in_l@.len() ==> in_range(#[trigger] in_l@[k] as int),
            forall|k: int| 0 <= k < in_r@.len() ==> in_range(#[trigger] in_r@[k] as int),
        ensures
            *final(self) == *old(self),
            final(self).wf(),
            r.0@.len() == if in_l@.len() <= in_r@.len() { in_l@.len() } else { in_r@.len() },
            r.1@.len() == r.0@.len(),
            forall|k: int| 0 <= k < r.0@.len() ==> #[trigger] r.0@[k] == clip_sample_spec(
                old(self).threshold, old(self).softness, in_l@[k]),
            forall|k: int| 0 <= k < r.1@.len() ==> #[trigger] r.1@[k] == clip_sample_spec(
                old(self).threshold, old(self).softness, in_r@[k]),
            forall|k: int| 0 <= k < r.0@.len() ==> in_range(#[trigger] r.0@[k] as int),
            forall|k: int| 0 <= k < r.1@.len() ==> in_range(#[trigger] r.1@[k] as int),
    {
        let len = if in_l.len() <= in_r.len() { in_l.len() } else { in_r.len() };
        let mut out_l: Vec<i64> = Vec::new();
        let mut out_r: Vec<i64> = Vec::new();
        let mut i: usize = 0;
        while i < len
            invariant
                i <= len,
                len <= in_l@.len() && len <= in_r@.len(),
                self == old(self),
                self.wf(),
                forall|k: int| 0 <= k < in_l@.len() ==> in_range(#[trigger] in_l@[k] as int),
                forall|k: int| 0 <= k < in_r@.len() ==> in_range(#[trigger] in_r@[k] as int),
                out_l@.len() == i && out_r@.len() == i,
                forall|k: int| 0 <= k < i ==> #[trigger] out_l@[k] == clip_sample_spec(
                    self.threshold, self.softness, in_l@[k]),
                forall|k: int| 0 <= k < i ==> #[trigger] out_r@[k] == clip_sample_spec(
                    self.threshold, self.softness, in_r@[k]),
            decreases len - i,
        {
            let l = self.clip_sample(in_l[i]);
            let rr = self.clip_sample(in_r[i]);
            out_l.push(l);
            out_r.push(rr);
            i += 1;
        }
        (out_l, out_r)
    }
}

} // verus!
