//! Comb and allpass filters over the delay line: the building blocks of the
//! reverb's late-diffusion network.
//!
//! Each filter is modelled by the delay history plus its damping state; every
//! processing step is specified exactly by a step function over that model.

use vstd::prelude::*;
use crate::delay::{DelayLine, interp_read_spec, write_spec};
use crate::fixed::{
    FRAC_ONE, SAMPLE_LIMIT, in_range, is_unit, mul_q, mul_q_spec, sat, sat_i64,
    lemma_abs_mul_bound, lemma_mul_q_bound, lemma_mul_q_interp,
};

verus! {

/// Model of a comb filter: delay history (newest first) and the two
/// single-pole damping states.
pub type CombModel = (Seq<i64>, i64, i64);

/// One pole of the damping shelf: move from `x` toward the previous state
/// `prev` by the Q16 factor `d` (`x + d * (prev - x)`).
pub open spec fn damp_step(prev: i64, x: i64, d: i64) -> i64 {
    (x + mul_q_spec(d as int, prev - x)) as i64
}

/// The sample a comb step emits: the oldest slot of its delay history.
pub open spec fn comb_out_spec(m: CombModel) -> i64 {
    m.0[m.0.len() - 1]
}

/// The sample written back into the comb's delay: input plus damped feedback,
/// saturated so instability can never propagate.
pub open spec fn comb_write_spec(f2: i64, x: i64, fb: i64) -> i64 {
    sat_i64(x as int + mul_q_spec(f2 as int, fb as int))
}

/// One comb step: read the oldest slot, run it through the two damping
/// poles, feed input plus damped-output-times-feedback back into the line.
pub open spec fn comb_step_spec(m: CombModel, x: i64, fb: i64, d1: i64, d2: i64) -> CombModel {
    let out = comb_out_spec(m);
    let f1 = damp_step(m.1, out, d1);
    let f2 = damp_step(m.2, f1, d2);
    (write_spec(m.0, comb_write_spec(f2, x, fb)), f1, f2)
}

/// One modulated comb step: as `comb_step_spec`, but the emitted sample is an
/// interpolated read at the caller-supplied fractional delay `delay_q`.
pub open spec fn comb_mod_out_spec(m: CombModel, delay_q: i64) -> i64 {
    interp_read_spec(m.0, delay_q)
}

pub open spec fn comb_mod_step_spec(
    m: CombModel, x: i64, fb: i64, d1: i64, d2: i64, delay_q: i64,
) -> CombModel {
    let out = comb_mod_out_spec(m, delay_q);
    let f1 = damp_step(m.1, out, d1);
    let f2 = damp_step(m.2, f1, d2);
    (write_spec(m.0, comb_write_spec(f2, x, fb)), f1, f2)
}

/// A comb model at rest: silent history and cleared damping states.
pub open spec fn comb_quiet(m: CombModel) -> bool {
    &&& m.1 == 0
    &&& m.2 == 0
    &&& forall|k: int| 0 <= k < m.0.len() ==> m.0[k] == 0i64
}

/// All of a comb model within magnitude `b`.
pub open spec fn comb_bounded(m: CombModel, b: int) -> bool {
    &&& -b <= m.1 <= b
    &&& -b <= m.2 <= b
    &&& forall|k: int| 0 <= k < m.0.len() ==> -b <= #[trigger] m.0[k] <= b
}

pub struct CombFilter {
    delay: DelayLine,
    filter_state: i64,
    filter_state2: i64,
    base_size: usize,
}

impl CombFilter {
    pub closed spec fn model(self) -> CombModel {
        (self.delay.hist(), self.filter_state, self.filter_state2)
    }

    pub closed spec fn wf(self) -> bool {
        &&& self.delay.wf()
        &&& in_range(self.filter_state as int)
        &&& in_range(self.filter_state2 as int)
    }

    pub closed spec fn base_size_spec(self) -> int {
        self.base_size as int
    }

    pub open spec fn capacity_spec(self) -> int {
        self.model().0.len() as int
    }

    pub proof fn lemma_model_in_range(self)
        requires
            self.wf(),
        ensures
            comb_bounded(self.model(), SAMPLE_LIMIT as int),
            self.capacity_spec() >= 16,
    {
        self.delay.lemma_hist_in_range();
    }

    /// The nominal (untouched) delay length recorded at construction, used
    /// to compute modulation offsets.
    pub fn base_size(&self) -> (r: usize)
        ensures
            r as int == self.base_size_spec(),
    {
        self.base_size
    }

    pub fn new(size: usize) -> (r: CombFilter)
        requires
            size <= 0x1000_0000,
        ensures
            r.wf(),
            r.base_size_spec() == size as int,
            r.capacity_spec() == if size >= 16 { size as int } else { 16int },
            comb_quiet(r.model()),
    {
        CombFilter {
            delay: DelayLine::new(size),
            filter_state: 0,
            filter_state2: 0,
            base_size: size,
        }
    }

    /// Read the delayed value, damp it, feed input plus damped value times
    /// feedback back into the line; the emitted sample is the delayed value.
    pub fn process(&mut self, input: i64, feedback: i64, damp1: i64, damp2: i64) -> (r: i64)
        requires
            old(self).wf(),
            in_range(input as int),
            is_unit(feedback as int),
            is_unit(damp1 as int),
            is_unit(damp2 as int),
        ensures
            final(self).wf(),
            final(self).model() == comb_step_spec(
                old(self).model(), input, feedback, damp1, damp2),
            r == comb_out_spec(old(self).model()),
            in_range(r as int),
            final(self).base_size_spec() == old(self).base_size_spec(),
            final(self).capacity_spec() == old(self).capacity_spec(),
    {
        let output = self.delay.read();
        let (f1, f2) = damp_pair(self.filter_state, self.filter_state2, output, damp1, damp2);
        self.filter_state = f1;
        self.filter_state2 = f2;

        proof {
            lemma_abs_mul_bound(
                f2 as int, feedback as int, SAMPLE_LIMIT as int, FRAC_ONE as int);
            lemma_mul_q_bound(
                f2 as int, feedback as int, SAMPLE_LIMIT as int, FRAC_ONE as int);
        }
        let fed_back = sat(input + mul_q(f2, feedback));
        self.delay.write(fed_back);
        output
    }

    /// As `process`, but read at the caller-supplied fractional delay,
    /// enabling chorus-style modulation of the comb's delay time.
    pub fn process_modulated(
        &mut self, input: i64, feedback: i64, damp1: i64, damp2: i64, mod_delay: i64,
    ) -> (r: i64)
        requires
            old(self).wf(),
            in_range(input as int),
            is_unit(feedback as int),
            is_unit(damp1 as int),
            is_unit(damp2 as int),
            0 <= mod_delay,
        ensures
            final(self).wf(),
            final(self).model() == comb_mod_step_spec(
                old(self).model(), input, feedback, damp1, damp2, mod_delay),
            r == comb_mod_out_spec(old(self).model(), mod_delay),
            in_range(r as int),
            final(self).base_size_spec() == old(self).base_size_spec(),
            final(self).capacity_spec() == old(self).capacity_spec(),
    {
        let output = self.delay.read_interpolated(mod_delay);
        let (f1, f2) = damp_pair(self.filter_state, self.filter_state2, output, damp1, damp2);
        self.filter_state = f1;
        self.filter_state2 = f2;

        proof {
            lemma_abs_mul_bound(
                f2 as int, feedback as int, SAMPLE_LIMIT as int, FRAC_ONE as int);
            lemma_mul_q_bound(
                f2 as int, feedback as int, SAMPLE_LIMIT as int, FRAC_ONE as int);
        }
        let fed_back = sat(input + mul_q(f2, feedback));
        self.delay.write(fed_back);
        output
    }

    pub fn reset(&mut self)
        requires
            old(self).wf(),
        ensures
            final(self).wf(),
            comb_quiet(final(self).model()),
            final(self).base_size_spec() == old(self).base_size_spec(),
            final(self).capacity_spec() == old(self).capacity_spec(),
    {
        self.delay.reset();
        self.filter_state = 0;
        self.filter_state2 = 0;
    }
}

/// The two damping poles, each an exact interpolation, so the results stay
/// in range whenever their inputs do.
fn damp_pair(fs1: i64, fs2: i64, x: i64, d1: i64, d2: i64) -> (r: (i64, i64))
    requires
        in_range(fs1 as int),
        in_range(fs2 as int),
        in_range(x as int),
        is_unit(d1 as int),
        is_unit(d2 as int),
    ensures
        r.0 == damp_step(fs1, x, d1),
        r.1 == damp_step(fs2, r.0, d2),
        in_range(r.0 as int),
        in_range(r.1 as int),
{
    proof {
        lemma_abs_mul_bound(d1 as int, fs1 - x, FRAC_ONE as int, 2 * SAMPLE_LIMIT as int);
        lemma_mul_q_interp(d1 as int, fs1 - x);
    }
    let f1 = x + mul_q(d1, fs1 - x);
    proof {
        lemma_abs_mul_bound(d2 as int, fs2 - f1, FRAC_ONE as int, 2 * SAMPLE_LIMIT as int);
        lemma_mul_q_interp(d2 as int, fs2 - f1);
    }
    let f2 = f1 + mul_q(d2, fs2 - f1);
    (f1, f2)
}

/// Law: a comb at rest fed silence stays at rest and emits silence — after a
/// state flush no old audio can bleed out of the filter.
pub proof fn lemma_comb_quiet_step(m: CombModel, fb: i64, d1: i64, d2: i64)
    requires
        comb_quiet(m),
        m.0.len() > 0,
    ensures
        comb_out_spec(m) == 0i64,
        comb_quiet(comb_step_spec(m, 0i64, fb, d1, d2)),
{
    assert(d1 as int * 0 == 0) by (nonlinear_arith);
    assert(d2 as int * 0 == 0) by (nonlinear_arith);
    assert(0 * (fb as int) == 0) by (nonlinear_arith);
    let stepped = comb_step_spec(m, 0i64, fb, d1, d2);
    assert forall|k: int| 0 <= k < stepped.0.len() implies stepped.0[k] == 0i64 by {
    }
}

/// Law (stability): if every stored value is within `b`, the input within
/// `margin`, the feedback below one, and `margin` absorbs the feedback's
/// contribution, then one comb step keeps the whole state within `b`.
pub proof fn lemma_comb_step_bounded(
    m: CombModel, x: i64, fb: i64, d1: i64, d2: i64, b: int, margin: int,
)
    requires
        comb_bounded(m, b),
        m.0.len() > 0,
        0 <= b <= SAMPLE_LIMIT as int,
        is_unit(fb as int),
        is_unit(d1 as int),
        is_unit(d2 as int),
        -margin <= x <= margin,
        0 <= margin,
        margin + (b * fb) / 65536 <= b,
    ensures
        comb_bounded(comb_step_spec(m, x, fb, d1, d2), b),
        -b <= comb_out_spec(m) <= b,
{
    let out = comb_out_spec(m);
    let f1 = damp_step(m.1, out, d1);
    lemma_mul_q_interp(d1 as int, m.1 - out);
    let f2 = damp_step(m.2, f1, d2);
    lemma_mul_q_interp(d2 as int, m.2 - f1);
    lemma_mul_q_bound(f2 as int, fb as int, b, fb as int);
    assert(b * fb >= 0) by (nonlinear_arith)
        requires b >= 0, fb >= 0;
    let w = comb_write_spec(f2, x, fb);
    assert(-b <= w <= b);
    let stepped = comb_step_spec(m, x, fb, d1, d2);
    assert forall|k: int| 0 <= k < stepped.0.len() implies -b <= #[trigger] stepped.0[k] <= b by {
    }
}

/// Law: a comb at rest fed silence stays at rest and emits silence, at
/// whatever modulated read position.
pub proof fn lemma_comb_mod_quiet_step(m: CombModel, fb: i64, d1: i64, d2: i64, dq: i64)
    requires
        comb_quiet(m),
        m.0.len() > 0,
        0 <= dq,
    ensures
        comb_mod_out_spec(m, dq) == 0i64,
        comb_quiet(comb_mod_step_spec(m, 0i64, fb, d1, d2, dq)),
{
    crate::delay::lemma_interp_zero(m.0, dq);
    assert(d1 as int * 0 == 0) by (nonlinear_arith);
    assert(d2 as int * 0 == 0) by (nonlinear_arith);
    assert(0 * (fb as int) == 0) by (nonlinear_arith);
    let stepped = comb_mod_step_spec(m, 0i64, fb, d1, d2, dq);
    assert forall|k: int| 0 <= k < stepped.0.len() implies stepped.0[k] == 0i64 by {
    }
}

pub struct AllpassFilter {
    delay: DelayLine,
}

/// What an allpass step emits: the delayed sample minus the input.
pub open spec fn allpass_out_spec(h: Seq<i64>, x: i64) -> i64 {
    (h[h.len() - 1] - x) as i64
}

/// The history after an allpass step: input plus half the delayed sample is
/// written back, saturated.
pub open spec fn allpass_step_spec(h: Seq<i64>, x: i64) -> Seq<i64> {
    write_spec(h, sat_i64(x + mul_q_spec(h[h.len() - 1] as int, 32768)))
}

impl AllpassFilter {
    pub closed spec fn hist(self) -> Seq<i64> {
        self.delay.hist()
    }

    pub closed spec fn wf(self) -> bool {
        self.delay.wf()
    }

    pub open spec fn capacity_spec(self) -> int {
        self.hist().len() as int
    }

    /// Every stored sample is in range and the line is at least 16 long.
    pub proof fn lemma_hist_in_range(self)
        requires
            self.wf(),
        ensures
            forall|k: int| 0 <= k < self.hist().len()
                ==> crate::fixed::in_range(#[trigger] self.hist()[k] as int),
            16 <= self.hist().len() <= 0x1000_0000,
    {
        self.delay.lemma_hist_in_range();
    }

    pub fn new(size: usize) -> (r: AllpassFilter)
        requires
            size <= 0x1000_0000,
        ensures
            r.wf(),
            r.capacity_spec() == if size >= 16 { size as int } else { 16int },
            forall|k: int| 0 <= k < r.hist().len() ==> #[trigger] r.hist()[k] == 0i64,
    {
        AllpassFilter { delay: DelayLine::new(size) }
    }

    /// Diffusion step: emit `delayed - input`, write back
    /// `input + delayed / 2`.
    pub fn process(&mut self, input: i64) -> (r: i64)
        requires
            old(self).wf(),
            -5 * SAMPLE_LIMIT as int <= input <= 5 * SAMPLE_LIMIT as int,
        ensures
            final(self).wf(),
            r == allpass_out_spec(old(self).hist(), input),
            final(self).hist() == allpass_step_spec(old(self).hist(), input),
            final(self).capacity_spec() == old(self).capacity_spec(),
            -6 * SAMPLE_LIMIT as int <= r <= 6 * SAMPLE_LIMIT as int,
    {
        let delayed = self.delay.read();
        let output = delayed - input;
        proof {
            lemma_abs_mul_bound(delayed as int, 32768, SAMPLE_LIMIT as int, 32768);
            lemma_mul_q_bound(delayed as int, 32768, SAMPLE_LIMIT as int, 32768);
        }
        let fed_back = sat(input + mul_q(delayed, 32768));
        self.delay.write(fed_back);
        output
    }

    pub fn reset(&mut self)
        requires
            old(self).wf(),
        ensures
            final(self).wf(),
            forall|k: int| 0 <= k < final(self).hist().len() ==> #[trigger] final(self).hist()[k] == 0i64,
            final(self).capacity_spec() == old(self).capacity_spec(),
    {
        self.delay.reset();
    }
}

#[derive(Clone, Copy, PartialEq, Eq, Structural, Debug)]
pub enum FilterType {
    LowPass,
    HighPass,
    BandPass,
    Notch,
}

/// Chamberlin state-variable filter: one integrator pair that yields
/// low-pass, high-pass, band-pass and notch responses from shared state.
pub struct StateVariableFilter {
    pub cutoff: i64,
    pub q: i64,
    pub sample_rate: i64,
    pub filter_type: FilterType,
    pub z1: i64,
    pub z2: i64,
}

/// The filter's frequency coefficient: `2 sin(pi cutoff / sample_rate)` in
/// Q16, with the angle clamped to a half turn.
pub open spec fn svf_f_spec(cutoff: i64, sample_rate: i64) -> int {
    let ang = (205887 * (cutoff as int)) / (sample_rate as int);
    let ang_c = if ang > 205887 { 205887int } else { ang };
    2 * crate::trig::sin_q_spec(ang_c)
}

/// One state-variable step: the four responses and the two new states.
pub open spec fn svf_step_spec(s: StateVariableFilter, x: i64) -> (StateVariableFilter, i64) {
    let f = svf_f_spec(s.cutoff, s.sample_rate);
    let q_inv = crate::fixed::div_q_spec(65536, s.q as int);
    let low = sat_i64(s.z2 + mul_q_spec(f, s.z1 as int));
    let high = sat_i64(x - low - mul_q_spec(q_inv, s.z1 as int));
    let band = sat_i64(mul_q_spec(f, high as int) + s.z1);
    let notch = sat_i64(high as int + low as int);
    let out = match s.filter_type {
        FilterType::LowPass => low,
        FilterType::HighPass => high,
        FilterType::BandPass => band,
        FilterType::Notch => notch,
    };
    (StateVariableFilter { z1: band, z2: low, ..s }, out)
}

impl StateVariableFilter {
    pub open spec fn wf(self) -> bool {
        &&& 20 <= self.cutoff <= 20000
        &&& 6554 <= self.q <= 0x100_0000
        &&& 1 <= self.sample_rate <= 1_000_000
        &&& in_range(self.z1 as int)
        &&& in_range(self.z2 as int)
    }

    pub fn new(sample_rate: i64) -> (r: StateVariableFilter)
        requires
            1 <= sample_rate <= 1_000_000,
        ensures
            r.wf(),
            r.cutoff == 1000 && r.q == 46334,
            r.sample_rate == sample_rate,
            r.filter_type == FilterType::LowPass,
            r.z1 == 0 && r.z2 == 0,
    {
        StateVariableFilter {
            cutoff: 1000,
            q: 46334,
            sample_rate,
            filter_type: FilterType::LowPass,
            z1: 0,
            z2: 0,
        }
    }

    /// Cutoff in Hz, clamped to the audible range.
    pub fn set_cutoff(&mut self, cutoff: i64)
        requires
            old(self).wf(),
        ensures
            final(self).wf(),
            final(self).cutoff == if cutoff < 20 { 20i64 } else if cutoff > 20000 { 20000i64 } else { cutoff },
            *final(self) == (StateVariableFilter { cutoff: final(self).cutoff, ..*old(self) }),
    {
        self.cutoff = if cutoff < 20 { 20 } else if cutoff > 20000 { 20000 } else { cutoff };
    }

    /// Resonance, clamped below at 0.1.
    pub fn set_q(&mut self, q: i64)
        requires
            old(self).wf(),
        ensures
            final(self).wf(),
            final(self).q == if q < 6554 { 6554i64 } else if q > 0x100_0000 { 0x100_0000i64 } else { q },
            *final(self) == (StateVariableFilter { q: final(self).q, ..*old(self) }),
    {
        self.q = if q < 6554 { 6554 } else if q > 0x100_0000 { 0x100_0000 } else { q };
    }

    pub fn set_type(&mut self, filter_type: FilterType)
        requires
            old(self).wf(),
        ensures
            final(self).wf(),
            *final(self) == (StateVariableFilter { filter_type: filter_type, ..*old(self) }),
    {
        self.filter_type = filter_type;
    }

    /// One sample through the integrator pair.
    pub fn process(&mut self, input: i64) -> (r: i64)
        requires
            old(self).wf(),
            in_range(input as int),
        ensures
            final(self).wf(),
            ({
                let stepped = svf_step_spec(*old(self), input);
                *final(self) == stepped.0 && r == stepped.1
            }),
            in_range(r as int),
    {
        proof {
            assert(0 <= 205887int * self.cutoff <= 205887int * 20000) by (nonlinear_arith)
                requires 20 <= self.cutoff <= 20000;
            vstd::arithmetic::div_mod::lemma_div_pos_is_pos(
                205887 * self.cutoff as int, self.sample_rate as int);
        }
        let ang = (crate::trig::PI_Q * self.cutoff) / self.sample_rate;
        let ang_c = if ang > crate::trig::PI_Q { crate::trig::PI_Q } else { ang };
        let f = 2 * crate::trig::sin_q(ang_c);
        proof {
            vstd::arithmetic::div_mod::lemma_div_pos_is_pos(65536int * 65536, self.q as int);
            vstd::arithmetic::div_mod::lemma_div_is_ordered_by_denominator(
                65536int * 65536, 6554, self.q as int);
        }
        let q_inv = crate::fixed::div_q(FRAC_ONE, self.q);
        proof {
            lemma_abs_mul_bound(f as int, self.z1 as int, 131072, SAMPLE_LIMIT as int);
            lemma_mul_q_bound(f as int, self.z1 as int, 131072, SAMPLE_LIMIT as int);
            lemma_abs_mul_bound(q_inv as int, self.z1 as int, 0x100_0000, SAMPLE_LIMIT as int);
            lemma_mul_q_bound(q_inv as int, self.z1 as int, 0x100_0000, SAMPLE_LIMIT as int);
        }
        let low = sat(self.z2 + mul_q(f, self.z1));
        let high = sat(input - low - mul_q(q_inv, self.z1));
        proof {
            lemma_abs_mul_bound(f as int, high as int, 131072, SAMPLE_LIMIT as int);
            lemma_mul_q_bound(f as int, high as int, 131072, SAMPLE_LIMIT as int);
        }
        let band = sat(mul_q(f, high) + self.z1);
        let notch = sat(high + low);

        self.z1 = band;
        self.z2 = low;

        match self.filter_type {
            FilterType::LowPass => low,
            FilterType::HighPass => high,
            FilterType::BandPass => band,
            FilterType::Notch => notch,
        }
    }

    /// Clear the integrator state.
    pub fn reset(&mut self)
        requires
            old(self).wf(),
        ensures
            final(self).wf(),
            *final(self) == (StateVariableFilter { z1: 0i64, z2: 0i64, ..*old(self) }),
    {
        self.z1 = 0;
        self.z2 = 0;
    }
}

/// Law: an allpass at rest fed silence stays at rest and emits silence.
pub proof fn lemma_allpass_quiet_step(h: Seq<i64>)
    requires
        h.len() > 0,
        forall|k: int| 0 <= k < h.len() ==> h[k] == 0i64,
    ensures
        allpass_out_spec(h, 0i64) == 0i64,
        forall|k: int| 0 <= k < h.len()
            ==> #[trigger] allpass_step_spec(h, 0i64)[k] == 0i64,
{
    assert(0 * 32768 == 0) by (nonlinear_arith);
    assert forall|k: int| 0 <= k < h.len()
        implies #[trigger] allpass_step_spec(h, 0i64)[k] == 0i64 by {
    }
}

} // verus!
