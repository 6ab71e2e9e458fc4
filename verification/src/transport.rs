//! Sample-accurate musical clock: tempo, absolute sample position, and the
//! loop region, with wraparound at the loop end.

use vstd::prelude::*;
use vstd::arithmetic::div_mod::{lemma_div_pos_is_pos, lemma_mod_bound};

verus! {

#[derive(Clone, Copy, PartialEq, Eq, Structural, Debug)]
pub enum PlayState {
    Stopped,
    Playing,
    Paused,
}

/// Samples per beat in Q16: `sample_rate * 60 / bpm`, with `bpm` itself a
/// Q16 value, floored at one Q16 step.
pub open spec fn samples_per_beat_spec(sample_rate: int, bpm: int) -> int {
    let spb = (sample_rate * 60 * 65536 * 65536) / bpm;
    if spb < 1 {
        1
    } else {
        spb
    }
}

/// Samples per tick in Q16: a beat divided into `ppq` pulses, floored at
/// one Q16 step.
pub open spec fn samples_per_tick_spec(sample_rate: int, bpm: int, ppq: int) -> int {
    let spt = samples_per_beat_spec(sample_rate, bpm) / ppq;
    if spt < 1 {
        1
    } else {
        spt
    }
}

pub struct Transport {
    pub bpm: i64,
    pub ppq: i64,
    pub sample_rate: i64,
    pub position: u64,
    pub samples_per_beat: i64,
    pub samples_per_tick: i64,
    pub looping: bool,
    pub loop_start_tick: i64,
    pub loop_end_tick: i64,
    pub state: PlayState,
}

impl Transport {
    pub open spec fn wf(self) -> bool {
        &&& 65536 <= self.bpm <= 999 * 65536
        &&& 1 <= self.ppq <= 960
        &&& 1 <= self.sample_rate <= 1_000_000
        &&& self.samples_per_beat == samples_per_beat_spec(
            self.sample_rate as int, self.bpm as int)
        &&& self.samples_per_tick == samples_per_tick_spec(
            self.sample_rate as int, self.bpm as int, self.ppq as int)
        &&& 0 <= self.loop_start_tick <= 0x10_0000
        &&& 0 <= self.loop_end_tick <= 0x10_0000
    }

    /// The sample position of a tick: `tick * samples_per_tick`, in whole
    /// samples.
    pub open spec fn tick_to_sample_spec(self, tick: int) -> int {
        (tick * self.samples_per_tick) / 65536
    }

    pub open spec fn loop_start_sample_spec(self) -> int {
        self.tick_to_sample_spec(self.loop_start_tick as int)
    }

    pub open spec fn loop_end_sample_spec(self) -> int {
        self.tick_to_sample_spec(self.loop_end_tick as int)
    }

    /// The loop region is usable only when it is at least one sample long.
    pub open spec fn loop_valid_spec(self) -> bool {
        self.loop_start_sample_spec() < self.loop_end_sample_spec()
    }

    proof fn lemma_spb_bounds(sample_rate: int, bpm: int)
        requires
            1 <= sample_rate <= 1_000_000,
            65536 <= bpm <= 999 * 65536,
        ensures
            1 <= samples_per_beat_spec(sample_rate, bpm) <= 0x400_0000_0000,
    {
        let num = sample_rate * 60 * 65536 * 65536;
        assert(0 <= sample_rate * 60 * 65536 * 65536
            && sample_rate * 60 * 65536 * 65536 <= 1_000_000int * 257698037760)
            by (nonlinear_arith)
            requires 1 <= sample_rate <= 1_000_000;
        vstd::arithmetic::div_mod::lemma_div_is_ordered(num, 1_000_000int * 257698037760, bpm);
        vstd::arithmetic::div_mod::lemma_div_is_ordered_by_denominator(
            1_000_000int * 257698037760, 65536, bpm);
        assert(1_000_000int * 257698037760 / 65536 <= 0x400_0000_0000);
    }

    proof fn lemma_spt_bounds(sample_rate: int, bpm: int, ppq: int)
        requires
            1 <= sample_rate <= 1_000_000,
            65536 <= bpm <= 999 * 65536,
            1 <= ppq <= 960,
        ensures
            1 <= samples_per_tick_spec(sample_rate, bpm, ppq) <= 0x400_0000_0000,
    {
        Self::lemma_spb_bounds(sample_rate, bpm);
        vstd::arithmetic::div_mod::lemma_div_is_ordered(
            samples_per_beat_spec(sample_rate, bpm), 0x400_0000_0000, ppq);
        vstd::arithmetic::div_mod::lemma_div_nonincreasing(0x400_0000_0000, ppq);
    }

    fn recompute_timing(&mut self)
        requires
            65536 <= old(self).bpm <= 999 * 65536,
            1 <= old(self).ppq <= 960,
            1 <= old(self).sample_rate <= 1_000_000,
            0 <= old(self).loop_start_tick <= 0x10_0000,
            0 <= old(self).loop_end_tick <= 0x10_0000,
        ensures
            final(self).wf(),
            final(self).bpm == old(self).bpm,
            final(self).ppq == old(self).ppq,
            final(self).sample_rate == old(self).sample_rate,
            final(self).position == old(self).position,
            final(self).looping == old(self).looping,
            final(self).loop_start_tick == old(self).loop_start_tick,
            final(self).loop_end_tick == old(self).loop_end_tick,
            final(self).state == old(self).state,
    {
        proof {
            Self::lemma_spb_bounds(self.sample_rate as int, self.bpm as int);
            Self::lemma_spt_bounds(self.sample_rate as int, self.bpm as int, self.ppq as int);
            lemma_div_pos_is_pos(
                self.sample_rate as int * 60 * 65536 * 65536, self.bpm as int);
        }
        let num = self.sample_rate * 60 * FRAC * FRAC;
        let spb = num / self.bpm;
        let spb = if spb < 1 { 1 } else { spb };
        self.samples_per_beat = spb;
        proof {
            lemma_div_pos_is_pos(samples_per_beat_spec(
                self.sample_rate as int, self.bpm as int), self.ppq as int);
        }
        let spt = spb / self.ppq;
        let spt = if spt < 1 { 1 } else { spt };
        self.samples_per_tick = spt;
    }

    /// A stopped transport at 120 bpm with a 96-ppq resolution.
    pub fn new(sample_rate: i64) -> (r: Transport)
        requires
            1 <= sample_rate <= 1_000_000,
        ensures
            r.wf(),
            r.bpm == 120 * 65536,
            r.ppq == 96,
            r.sample_rate == sample_rate,
            r.position == 0,
            !r.looping,
            r.state == PlayState::Stopped,
    {
        let mut t = Transport {
            bpm: 120 * FRAC,
            ppq: 96,
            sample_rate,
            position: 0,
            samples_per_beat: 1,
            samples_per_tick: 1,
            looping: false,
            loop_start_tick: 0,
            loop_end_tick: 0,
            state: PlayState::Stopped,
        };
        t.recompute_timing();
        t
    }

    /// Change the tempo (Q16 bpm, clamped to 1..999) and rederive the
    /// per-beat and per-tick sample counts.
    pub fn set_tempo(&mut self, bpm: i64)
        requires
            old(self).wf(),
        ensures
            final(self).wf(),
            final(self).bpm == if bpm < 65536 { 65536i64 } else if bpm > 999 * 65536 { (999 * 65536) as i64 } else { bpm },
            final(self).position == old(self).position,
            final(self).state == old(self).state,
            final(self).looping == old(self).looping,
            final(self).loop_start_tick == old(self).loop_start_tick,
            final(self).loop_end_tick == old(self).loop_end_tick,
            final(self).sample_rate == old(self).sample_rate,
            final(self).ppq == old(self).ppq,
    {
        self.bpm = if bpm < FRAC {
            FRAC
        } else if bpm > 999 * FRAC {
            999 * FRAC
        } else {
            bpm
        };
        self.recompute_timing();
    }

    /// Start playing; the position is kept.
    pub fn play(&mut self)
        requires
            old(self).wf(),
        ensures
            final(self).wf(),
            *final(self) == (Transport { state: PlayState::Playing, ..*old(self) }),
    {
        self.state = PlayState::Playing;
    }

    /// Pause: playback stops, the position is preserved.
    pub fn pause(&mut self)
        requires
            old(self).wf(),
        ensures
            final(self).wf(),
            *final(self) == (Transport { state: PlayState::Paused, ..*old(self) }),
    {
        self.state = PlayState::Paused;
    }

    /// Stop: playback stops and the position returns to zero.
    pub fn stop(&mut self)
        requires
            old(self).wf(),
        ensures
            final(self).wf(),
            *final(self) == (Transport {
                state: PlayState::Stopped,
                position: 0u64,
                ..*old(self)
            }),
    {
        self.state = PlayState::Stopped;
        self.position = 0;
    }

    /// Set the loop region (ticks clamped to the supported range) and
    /// whether looping is engaged.
    pub fn set_loop(&mut self, enabled: bool, start_tick: i64, end_tick: i64)
        requires
            old(self).wf(),
        ensures
            final(self).wf(),
            final(self).looping == enabled,
            final(self).loop_start_tick == if start_tick < 0 { 0i64 } else if start_tick > 0x10_0000 { 0x10_0000i64 } else { start_tick },
            final(self).loop_end_tick == if end_tick < 0 { 0i64 } else if end_tick > 0x10_0000 { 0x10_0000i64 } else { end_tick },
            final(self).position == old(self).position,
            final(self).state == old(self).state,
            final(self).bpm == old(self).bpm,
            final(self).ppq == old(self).ppq,
            final(self).sample_rate == old(self).sample_rate,
            final(self).samples_per_beat == old(self).samples_per_beat,
            final(self).samples_per_tick == old(self).samples_per_tick,
    {
        self.looping = enabled;
        self.loop_start_tick = if start_tick < 0 {
            0
        } else if start_tick > 0x10_0000 {
            0x10_0000
        } else {
            start_tick
        };
        self.loop_end_tick = if end_tick < 0 {
            0
        } else if end_tick > 0x10_0000 {
            0x10_0000
        } else {
            end_tick
        };
    }

    /// Move the playback position to an absolute sample.
    pub fn seek_to_sample(&mut self, sample: u64)
        requires
            old(self).wf(),
        ensures
            final(self).wf(),
            *final(self) == (Transport { position: sample, ..*old(self) }),
    {
        self.position = sample;
    }

    /// The sample position of a tick of the musical grid.
    pub fn tick_to_sample(&self, tick: i64) -> (r: u64)
        requires
            self.wf(),
            0 <= tick <= 0x10_0000,
        ensures
            r as int == self.tick_to_sample_spec(tick as int),
    {
        proof {
            Self::lemma_spt_bounds(self.sample_rate as int, self.bpm as int, self.ppq as int);
            assert(0 <= tick as int * self.samples_per_tick <= 0x10_0000int * 0x400_0000_0000)
                by (nonlinear_arith)
                requires 0 <= tick <= 0x10_0000, 1 <= self.samples_per_tick <= 0x400_0000_0000;
            lemma_div_pos_is_pos(tick as int * self.samples_per_tick, 65536);
        }
        ((tick * self.samples_per_tick) / FRAC) as u64
    }

    /// Advance by `n` samples while playing. With a valid loop engaged, a
    /// position at or past the loop end wraps back into the loop region:
    /// `loop_start + overshoot % loop_len`; an empty loop region is a no-op.
    pub fn advance(&mut self, n: u64)
        requires
            old(self).wf(),
            old(self).position + n <= 0xffff_ffff_ffff_ffff,
        ensures
            final(self).wf(),
            final(self).state == old(self).state,
            final(self).looping == old(self).looping,
            final(self).bpm == old(self).bpm,
            final(self).ppq == old(self).ppq,
            final(self).sample_rate == old(self).sample_rate,
            final(self).samples_per_beat == old(self).samples_per_beat,
            final(self).samples_per_tick == old(self).samples_per_tick,
            final(self).loop_start_tick == old(self).loop_start_tick,
            final(self).loop_end_tick == old(self).loop_end_tick,
            old(self).state != PlayState::Playing ==> final(self).position == old(self).position,
            ({
                let moved = old(self).position + n;
                let ls = old(self).loop_start_sample_spec();
                let le = old(self).loop_end_sample_spec();
                &&& (old(self).state == PlayState::Playing
                    && (!old(self).looping || !old(self).loop_valid_spec() || moved < le)
                    ==> final(self).position == moved)
                &&& (old(self).state == PlayState::Playing && old(self).looping
                    && old(self).loop_valid_spec() && moved >= le
                    ==> final(self).position == ls + (moved - le) % (le - ls)
                        && ls <= final(self).position < le)
            }),
    {
        if !matches!(self.state, PlayState::Playing) {
            return ;
        }
        let moved = self.position + n;
        self.position = moved;
        if self.looping {
            let ls = self.tick_to_sample(self.loop_start_tick);
            let le = self.tick_to_sample(self.loop_end_tick);
            if ls < le && moved >= le {
                let overshoot = moved - le;
                let wrapped = ls + overshoot % (le - ls);
                proof {
                    lemma_mod_bound(overshoot as int, le as int - ls as int);
                }
                self.position = wrapped;
            }
        }
    }

    /// The position in whole ticks.
    pub fn position_ticks(&self) -> (r: u64)
        requires
            self.wf(),
        ensures
            r as int == (position_capped(self.position as int) * 65536)
                / (self.samples_per_tick as int),
    {
        proof {
            Self::lemma_spt_bounds(self.sample_rate as int, self.bpm as int, self.ppq as int);
            lemma_div_pos_is_pos(position_capped(self.position as int) * 65536,
                self.samples_per_tick as int);
        }
        let p = if self.position > 0x4000_0000_0000 { 0x4000_0000_0000u64 } else { self.position };
        ((p as i64 * FRAC) / self.samples_per_tick) as u64
    }

    /// The position in Q16 seconds.
    pub fn position_seconds(&self) -> (r: i64)
        requires
            self.wf(),
        ensures
            r as int == (position_capped(self.position as int) * 65536)
                / (self.sample_rate as int),
    {
        proof {
            lemma_div_pos_is_pos(position_capped(self.position as int) * 65536,
                self.sample_rate as int);
        }
        let p = if self.position > 0x4000_0000_0000 { 0x4000_0000_0000u64 } else { self.position };
        (p as i64 * FRAC) / self.sample_rate
    }

    /// The position in Q16 beats: the exact ratio of the sample counter to
    /// the Q16 samples-per-beat (the counter capped so the scaled division
    /// cannot overflow).
    pub fn position_beats(&self) -> (r: i64)
        requires
            self.wf(),
        ensures
            r as int == (beats_position_capped(self.position as int) * 65536 * 65536)
                / (self.samples_per_beat as int),
    {
        proof {
            Self::lemma_spb_bounds(self.sample_rate as int, self.bpm as int);
            lemma_div_pos_is_pos(
                beats_position_capped(self.position as int) * 65536 * 65536,
                self.samples_per_beat as int);
        }
        let p = if self.position > 0x4000_0000 { 0x4000_0000u64 } else { self.position };
        (p as i64 * FRAC * FRAC) / self.samples_per_beat
    }
}

/// The tighter cap the beats readout uses: its ratio scales the counter
/// by a whole Q16 square.
pub open spec fn beats_position_capped(p: int) -> int {
    if p > 0x4000_0000 {
        0x4000_0000
    } else {
        p
    }
}

/// Display positions are capped so the Q16 ratios below cannot overflow;
/// the absolute counter itself is unbounded.
pub open spec fn position_capped(p: int) -> int {
    if p > 0x4000_0000_0000 {
        0x4000_0000_0000
    } else {
        p
    }
}

/// One Q16 unit, locally named for the arithmetic above.
const FRAC: i64 = 65536;

} // verus!
