//! The unified mixer: deinterleaves the multi-channel input block, drives
//! each channel strip, sums to the master bus, advances the transport, and
//! reconciles with the shared control block once per block.

use vstd::prelude::*;
use crate::biquad::{eq_state_cleared, eq_updated};
use crate::effects::{
    InsertEffect, SimpleDelay, insert_chain_spec, insert_params_preserved,
    insert_state_cleared,
};
use crate::dynamics::{Compressor, Limiter};
use crate::modulation::{Chorus, Phaser, StereoPanner};
use crate::shaping::{Clipper, Saturator};
use crate::approx::db_to_linear_spec;
use crate::dynamics::smoothing_coef_spec;
use crate::fixed::{FRAC_ONE, in_range, sat, sat_i64};
use crate::shared::SharedControlBlock;
use crate::strip::{ChannelStrip, strip_outs_spec, strip_run_spec};
use crate::transport::{PlayState, Transport, position_capped, samples_per_tick_spec};

verus! {

/// Configuration failures, reported to the caller rather than crashing.
#[derive(Clone, Copy, PartialEq, Eq, Structural, Debug)]
pub enum MixerError {
    ChannelOutOfRange,
    UnknownEffectType,
}

/// The mix-inclusion rule: a channel contributes when it is not muted and,
/// while any channel is soloed, only when it is itself soloed.
pub open spec fn channel_included_spec(any_solo: bool, mute: bool, solo: bool) -> bool {
    !mute && (!any_solo || solo)
}

/// Whether any strip in the bank has its solo engaged.
pub open spec fn any_solo_spec(chans: Seq<ChannelStrip>) -> bool {
    exists|c: int| 0 <= c < chans.len() && (#[trigger] chans[c]).solo
}

/// The stereo pair a channel reads at frame `i` of the flat input block
/// (sample-major, channel-minor, stereo-interleaved); frames past the end
/// of the buffer read silence.
pub open spec fn deinterleave_spec(inp: Seq<i64>, ch: int, nch: int, i: int) -> (i64, i64) {
    let idx = i * nch * 2 + ch * 2;
    if idx + 1 < inp.len() {
        (inp[idx], inp[idx + 1])
    } else {
        (0i64, 0i64)
    }
}

/// What a strip, as configured, emits for its slice of the input block:
/// its insert chain's exact output, then the core fold, with the dynamics
/// coefficients its parameters and the sample rate imply.
pub open spec fn channel_block_outs_spec(
    ch: ChannelStrip, inp: Seq<i64>, chi: int, nch: int, bs: int, sr: i64,
) -> Seq<(i64, i64)> {
    let xs0 = Seq::new(bs as nat, |i: int| deinterleave_spec(inp, chi, nch, i));
    let xs = insert_chain_spec(ch.inserts@, xs0, sr);
    let thr_lin = db_to_linear_spec(
        if ch.comp_threshold > 0 { 0int } else { ch.comp_threshold as int });
    let sf_fast = (65536 - smoothing_coef_spec(197, sr)) as i64;
    let sf_slow = (65536 - smoothing_coef_spec(6554, sr)) as i64;
    strip_outs_spec(
        ch.dsp_core(), xs, ch.eq_active, ch.comp_active, ch.comp_threshold, ch.comp_ratio,
        thr_lin as i64, sf_fast, sf_slow, ch.gain, ch.pan)
}

/// A strip's core state after its slice of the block, as configured.
pub open spec fn channel_run_core_spec(
    ch: ChannelStrip, inp: Seq<i64>, chi: int, nch: int, bs: int, sr: i64,
) -> crate::strip::StripCore {
    let xs0 = Seq::new(bs as nat, |i: int| deinterleave_spec(inp, chi, nch, i));
    let xs = insert_chain_spec(ch.inserts@, xs0, sr);
    let thr_lin = db_to_linear_spec(
        if ch.comp_threshold > 0 { 0int } else { ch.comp_threshold as int });
    let sf_fast = (65536 - smoothing_coef_spec(197, sr)) as i64;
    let sf_slow = (65536 - smoothing_coef_spec(6554, sr)) as i64;
    strip_run_spec(
        ch.dsp_core(), xs, ch.eq_active, ch.comp_active, ch.comp_threshold, ch.comp_ratio,
        thr_lin as i64, sf_fast, sf_slow, ch.gain, ch.pan)
}

/// The master bus after the first `upto` channels: included channels'
/// blocks accumulate with saturation, excluded channels contribute
/// nothing.
pub open spec fn mix_bus_spec(
    chans: Seq<ChannelStrip>, inp: Seq<i64>, nch: int, bs: int, sr: i64, upto: int, any: bool,
) -> Seq<(i64, i64)>
    decreases upto,
{
    if upto <= 0 {
        Seq::new(bs as nat, |i: int| (0i64, 0i64))
    } else {
        let prev = mix_bus_spec(chans, inp, nch, bs, sr, upto - 1, any);
        let ch = chans[upto - 1];
        if channel_included_spec(any, ch.mute, ch.solo) {
            let outs = channel_block_outs_spec(ch, inp, upto - 1, nch, bs, sr);
            Seq::new(bs as nat, |i: int| (
                sat_i64(prev[i].0 + outs[i].0),
                sat_i64(prev[i].1 + outs[i].1),
            ))
        } else {
            prev
        }
    }
}

pub struct UnifiedMixerProcessor {
    pub channels: Vec<ChannelStrip>,
    pub sample_rate: i64,
    pub transport: Transport,
    pub cached_bpm: i64,
    pub last_loop_enabled: bool,
    pub last_loop_start: i64,
    pub last_loop_end: i64,
}

impl UnifiedMixerProcessor {
    pub open spec fn wf(self) -> bool {
        &&& 1 <= self.sample_rate <= 1_000_000
        &&& self.channels@.len() <= 256
        &&& forall|c: int| 0 <= c < self.channels@.len()
            ==> (#[trigger] self.channels@[c]).wf()
        &&& self.transport.wf()
    }

    /// A mixer with `num_channels` fresh strips and a stopped transport.
    pub fn new(sample_rate: i64, num_channels: usize) -> (r: UnifiedMixerProcessor)
        requires
            1 <= sample_rate <= 1_000_000,
            num_channels <= 256,
        ensures
            r.wf(),
            r.channels@.len() == num_channels,
            r.sample_rate == sample_rate,
            r.transport.position == 0,
            r.transport.state == PlayState::Stopped,
            forall|c: int| 0 <= c < num_channels ==> ({
                let ch = #[trigger] r.channels@[c];
                &&& ch.gain == 65536 && ch.pan == 0
                &&& !ch.mute && !ch.solo && !ch.eq_active && !ch.comp_active
                &&& ch.comp_gain == 65536
                &&& ch.comp_threshold == -12 * 65536 && ch.comp_ratio == 4 * 65536
                &&& ch.peak_l == 0 && ch.peak_r == 0
                &&& ch.inserts@.len() == 0
                &&& ch.sample_rate == sample_rate
                &&& eq_state_cleared(ch.eq_l) && eq_state_cleared(ch.eq_r)
            }),
    {
        let mut channels: Vec<ChannelStrip> = Vec::new();
        let mut i: usize = 0;
        while i < num_channels
            invariant
                i <= num_channels,
                channels@.len() == i,
                1 <= sample_rate <= 1_000_000,
                forall|c: int| 0 <= c < i ==> (#[trigger] channels@[c]).wf(),
                forall|c: int| 0 <= c < i ==> ({
                    let ch = #[trigger] channels@[c];
                    &&& ch.gain == 65536 && ch.pan == 0
                    &&& !ch.mute && !ch.solo && !ch.eq_active && !ch.comp_active
                    &&& ch.comp_gain == 65536
                    &&& ch.comp_threshold == -12 * 65536 && ch.comp_ratio == 4 * 65536
                    &&& ch.peak_l == 0 && ch.peak_r == 0
                    &&& ch.inserts@.len() == 0
                    &&& ch.sample_rate == sample_rate
                    &&& eq_state_cleared(ch.eq_l) && eq_state_cleared(ch.eq_r)
                }),
            decreases num_channels - i,
        {
            channels.push(ChannelStrip::new(sample_rate));
            i += 1;
        }
        UnifiedMixerProcessor {
            channels,
            sample_rate,
            transport: Transport::new(sample_rate),
            cached_bpm: 120 * FRAC_ONE,
            last_loop_enabled: false,
            last_loop_start: 0,
            last_loop_end: 0,
        }
    }

    pub fn get_num_channels(&self) -> (r: usize)
        ensures
            r == self.channels@.len(),
    {
        self.channels.len()
    }

    /// Whether any channel has solo engaged.
    fn any_solo(&self) -> (r: bool)
        requires
            self.wf(),
        ensures
            r == any_solo_spec(self.channels@),
    {
        let n = self.channels.len();
        let mut i: usize = 0;
        while i < n
            invariant
                i <= n,
                n == self.channels@.len(),
                forall|c: int| 0 <= c < i ==> !(#[trigger] self.channels@[c]).solo,
            decreases n - i,
        {
            if self.channels[i].solo {
                return true;
            }
            i += 1;
        }
        false
    }

    /// Update a channel's mix parameters; an out-of-range index is ignored.
    pub fn set_channel_params(
        &mut self, channel_idx: usize, gain: i64, pan: i64, mute: bool, solo: bool,
        eq_active: bool, comp_active: bool,
    )
        requires
            old(self).wf(),
        ensures
            final(self).wf(),
            channel_idx >= old(self).channels@.len() ==> *final(self) == *old(self),
            channel_idx < old(self).channels@.len() ==> ({
                let ch = final(self).channels@[channel_idx as int];
                let before = old(self).channels@[channel_idx as int];
                &&& ch.gain == if gain < -16777216 { (-16777216) as i64 } else if gain > 16777216 { 16777216i64 } else { gain }
                &&& ch.pan == if pan < -65536 { (-65536) as i64 } else if pan > 65536 { 65536i64 } else { pan }
                &&& ch.mute == mute && ch.solo == solo
                &&& ch.eq_active == eq_active && ch.comp_active == comp_active
                &&& ch.eq_l == before.eq_l && ch.eq_r == before.eq_r
                &&& ch.comp_gain == before.comp_gain
                &&& ch.comp_threshold == before.comp_threshold
                &&& ch.comp_ratio == before.comp_ratio
                &&& forall|c: int| 0 <= c < final(self).channels@.len() && c != channel_idx
                    ==> final(self).channels@[c] == old(self).channels@[c]
            }),
            final(self).channels@.len() == old(self).channels@.len(),
            final(self).transport == old(self).transport,
    {
        let n = self.channels.len();
        if channel_idx < n {
            let ghost chans0 = self.channels@;
            let mut ch = self.channels.remove(channel_idx);
            ch.gain = if gain < -16777216 { -16777216 } else if gain > 16777216 { 16777216 } else { gain };
            ch.pan = if pan < -FRAC_ONE { -FRAC_ONE } else if pan > FRAC_ONE { FRAC_ONE } else { pan };
            ch.mute = mute;
            ch.solo = solo;
            ch.eq_active = eq_active;
            ch.comp_active = comp_active;
            self.channels.insert(channel_idx, ch);
            proof {
                assert(self.channels@ =~= chans0.update(channel_idx as int, ch));
            }
        }
    }

    /// Recompute a channel's equalizer coefficients; an out-of-range index
    /// is ignored.
    pub fn set_channel_eq(
        &mut self, channel_idx: usize, low_gain: i64, mid_gain: i64, high_gain: i64,
        low_freq: i64, high_freq: i64,
    )
        requires
            old(self).wf(),
        ensures
            final(self).wf(),
            channel_idx >= old(self).channels@.len() ==> *final(self) == *old(self),
            final(self).channels@.len() == old(self).channels@.len(),
            final(self).transport == old(self).transport,
            channel_idx < old(self).channels@.len() ==> ({
                let before = old(self).channels@[channel_idx as int];
                let ch = final(self).channels@[channel_idx as int];
                &&& eq_updated(before.eq_l, ch.eq_l, low_gain, mid_gain, high_gain,
                    low_freq, high_freq)
                &&& eq_updated(before.eq_r, ch.eq_r, low_gain, mid_gain, high_gain,
                    low_freq, high_freq)
                &&& ch == (ChannelStrip { eq_l: ch.eq_l, eq_r: ch.eq_r, ..before })
                &&& forall|c: int| 0 <= c < final(self).channels@.len() && c != channel_idx
                    ==> final(self).channels@[c] == old(self).channels@[c]
            }),
    {
        let n = self.channels.len();
        if channel_idx < n {
            let ghost chans0 = self.channels@;
            let mut ch = self.channels.remove(channel_idx);
            ch.eq_l.update_coefficients(low_gain, mid_gain, high_gain, low_freq, high_freq);
            ch.eq_r.update_coefficients(low_gain, mid_gain, high_gain, low_freq, high_freq);
            self.channels.insert(channel_idx, ch);
            proof {
                assert(self.channels@ =~= chans0.update(channel_idx as int, ch));
            }
        }
    }

    /// Update a channel's compression threshold (Q16 dB) and ratio; an
    /// out-of-range index is ignored.
    pub fn set_channel_compression(&mut self, channel_idx: usize, threshold: i64, ratio: i64)
        requires
            old(self).wf(),
        ensures
            final(self).wf(),
            channel_idx >= old(self).channels@.len() ==> *final(self) == *old(self),
            final(self).channels@.len() == old(self).channels@.len(),
            final(self).transport == old(self).transport,
            channel_idx < old(self).channels@.len() ==> ({
                let ch = final(self).channels@[channel_idx as int];
                &&& ch.comp_threshold == if threshold < -60 * 65536 { (-60 * 65536) as i64 } else if threshold > 24 * 65536 { (24 * 65536) as i64 } else { threshold }
                &&& ch.comp_ratio == if ratio < 65536 { 65536i64 } else if ratio > 20 * 65536 { (20 * 65536) as i64 } else { ratio }
                &&& forall|c: int| 0 <= c < final(self).channels@.len() && c != channel_idx
                    ==> final(self).channels@[c] == old(self).channels@[c]
            }),
    {
        let n = self.channels.len();
        if channel_idx < n {
            let ghost chans0 = self.channels@;
            let mut ch = self.channels.remove(channel_idx);
            ch.comp_threshold = if threshold < -60 * FRAC_ONE {
                -60 * FRAC_ONE
            } else if threshold > 24 * FRAC_ONE {
                24 * FRAC_ONE
            } else {
                threshold
            };
            ch.comp_ratio = if ratio < FRAC_ONE {
                FRAC_ONE
            } else if ratio > 20 * FRAC_ONE {
                20 * FRAC_ONE
            } else {
                ratio
            };
            self.channels.insert(channel_idx, ch);
            proof {
                assert(self.channels@ =~= chans0.update(channel_idx as int, ch));
            }
        }
    }

    /// Append an insert effect to a channel. Fails exactly when the channel
    /// index is out of range or the effect type is unknown. The known types
    /// are 0 feedback delay, 1 compressor, 2 saturator, 3 limiter,
    /// 4 clipper, 5 chorus, 6 phaser, 7 stereo panner.
    pub fn add_effect(&mut self, channel_idx: usize, effect_type: u32)
        -> (r: Result<(), MixerError>)
        requires
            old(self).wf(),
        ensures
            final(self).wf(),
            r is Ok <==> (channel_idx < old(self).channels@.len() && effect_type <= 7),
            channel_idx >= old(self).channels@.len()
                ==> r == Result::<(), MixerError>::Err(MixerError::ChannelOutOfRange),
            (channel_idx < old(self).channels@.len() && effect_type > 7)
                ==> r == Result::<(), MixerError>::Err(MixerError::UnknownEffectType),
            r is Err ==> *final(self) == *old(self),
            final(self).channels@.len() == old(self).channels@.len(),
            r is Ok ==> ({
                let before = old(self).channels@[channel_idx as int].inserts@;
                let ins = final(self).channels@[channel_idx as int].inserts@;
                &&& ins.len() == before.len() + 1
                &&& ins.drop_last() == before
                &&& insert_state_cleared(ins.last())
                &&& (effect_type == 0 ==> ins.last() is FeedbackDelay)
                &&& (effect_type == 1 ==> ins.last() is Dynamics)
                &&& (effect_type == 2 ==> ins.last() is Drive)
                &&& (effect_type == 3 ==> ins.last() is Ceiling)
                &&& (effect_type == 4 ==> ins.last() is Clip)
                &&& (effect_type == 5 ==> ins.last() is Doubler)
                &&& (effect_type == 6 ==> ins.last() is Sweep)
                &&& (effect_type == 7 ==> ins.last() is Placement)
                &&& forall|c: int| 0 <= c < final(self).channels@.len() && c != channel_idx
                    ==> final(self).channels@[c] == old(self).channels@[c]
            }),
            final(self).transport == old(self).transport,
    {
        let n = self.channels.len();
        if channel_idx >= n {
            return Err(MixerError::ChannelOutOfRange);
        }
        if effect_type > 7 {
            return Err(MixerError::UnknownEffectType);
        }
        let sr = self.sample_rate;
        let effect = if effect_type == 0 {
            InsertEffect::FeedbackDelay(SimpleDelay::new(sr))
        } else if effect_type == 1 {
            InsertEffect::Dynamics(Compressor::new(sr))
        } else if effect_type == 2 {
            InsertEffect::Drive(Saturator::new())
        } else if effect_type == 3 {
            InsertEffect::Ceiling(Limiter::new(sr))
        } else if effect_type == 4 {
            InsertEffect::Clip(Clipper::new())
        } else if effect_type == 5 {
            InsertEffect::Doubler(Chorus::new(sr))
        } else if effect_type == 6 {
            InsertEffect::Sweep(Phaser::new(sr))
        } else {
            InsertEffect::Placement(StereoPanner::new())
        };
        let ghost chans0 = self.channels@;
        let ghost ins0 = self.channels@[channel_idx as int].inserts@;
        let mut ch = self.channels.remove(channel_idx);
        ch.inserts.push(effect);
        self.channels.insert(channel_idx, ch);
        proof {
            assert(self.channels@ =~= chans0.update(channel_idx as int, ch));
            assert(ch.inserts@ =~= ins0.push(effect));
            assert(ch.inserts@.drop_last() =~= ins0);
        }
        Ok(())
    }

    /// Clear every channel's DSP state.
    pub fn reset(&mut self)
        requires
            old(self).wf(),
        ensures
            final(self).wf(),
            final(self).channels@.len() == old(self).channels@.len(),
            forall|c: int| 0 <= c < final(self).channels@.len() ==> ({
                let ch = #[trigger] final(self).channels@[c];
                let before = old(self).channels@[c];
                &&& eq_state_cleared(ch.eq_l) && eq_state_cleared(ch.eq_r)
                &&& ch.comp_gain == 65536 && ch.peak_l == 0 && ch.peak_r == 0
                &&& ch.gain == before.gain && ch.pan == before.pan
                &&& ch.mute == before.mute && ch.solo == before.solo
                &&& ch.eq_active == before.eq_active && ch.comp_active == before.comp_active
                &&& ch.comp_threshold == before.comp_threshold
                &&& ch.comp_ratio == before.comp_ratio
                &&& ch.sample_rate == before.sample_rate
                &&& ch.inserts@.len() == before.inserts@.len()
                &&& forall|j: int| 0 <= j < ch.inserts@.len()
                    ==> insert_state_cleared(#[trigger] ch.inserts@[j])
                &&& forall|j: int| 0 <= j < ch.inserts@.len()
                    ==> insert_params_preserved(before.inserts@[j], #[trigger] ch.inserts@[j])
            }),
            final(self).transport == old(self).transport,
    {
        let n = self.channels.len();
        let mut i: usize = 0;
        while i < n
            invariant
                i <= n,
                n == self.channels@.len(),
                forall|c: int| 0 <= c < n ==> (#[trigger] self.channels@[c]).wf(),
                forall|c: int| i <= c < n
                    ==> #[trigger] self.channels@[c] == old(self).channels@[c],
                forall|c: int| 0 <= c < i ==> ({
                    let ch = #[trigger] self.channels@[c];
                    let before = old(self).channels@[c];
                    &&& eq_state_cleared(ch.eq_l) && eq_state_cleared(ch.eq_r)
                    &&& ch.comp_gain == 65536 && ch.peak_l == 0 && ch.peak_r == 0
                    &&& ch.gain == before.gain && ch.pan == before.pan
                    &&& ch.mute == before.mute && ch.solo == before.solo
                    &&& ch.eq_active == before.eq_active && ch.comp_active == before.comp_active
                    &&& ch.comp_threshold == before.comp_threshold
                    &&& ch.comp_ratio == before.comp_ratio
                    &&& ch.sample_rate == before.sample_rate
                    &&& ch.inserts@.len() == before.inserts@.len()
                    &&& forall|j: int| 0 <= j < ch.inserts@.len()
                        ==> insert_state_cleared(#[trigger] ch.inserts@[j])
                    &&& forall|j: int| 0 <= j < ch.inserts@.len()
                        ==> insert_params_preserved(before.inserts@[j], #[trigger] ch.inserts@[j])
                }),
                self.sample_rate == old(self).sample_rate,
                self.transport == old(self).transport,
                self.cached_bpm == old(self).cached_bpm,
                self.last_loop_enabled == old(self).last_loop_enabled,
                self.last_loop_start == old(self).last_loop_start,
                self.last_loop_end == old(self).last_loop_end,
                1 <= self.sample_rate <= 1_000_000,
                self.transport.wf(),
                self.channels@.len() <= 256,
            decreases n - i,
        {
            let ghost chans0 = self.channels@;
            let mut ch = self.channels.remove(i);
            ch.reset();
            self.channels.insert(i, ch);
            proof {
                assert(self.channels@ =~= chans0.update(i as int, ch));
            }
            i += 1;
        }
    }

    /// Write each channel's peak meters, interleaved left/right, and clear
    /// the accumulators (consume-on-read metering).
    pub fn get_channel_levels(&mut self) -> (r: Vec<i64>)
        requires
            old(self).wf(),
        ensures
            final(self).wf(),
            final(self).channels@.len() == old(self).channels@.len(),
            r@.len() == 2 * old(self).channels@.len(),
            forall|c: int| 0 <= c < old(self).channels@.len()
                ==> #[trigger] r@[2 * c] == old(self).channels@[c].peak_l,
            forall|c: int| 0 <= c < old(self).channels@.len()
                ==> #[trigger] r@[2 * c + 1] == old(self).channels@[c].peak_r,
            forall|c: int| 0 <= c < final(self).channels@.len()
                ==> (#[trigger] final(self).channels@[c]).peak_l == 0
                    && final(self).channels@[c].peak_r == 0,
            final(self).transport == old(self).transport,
    {
        let n = self.channels.len();
        let mut r: Vec<i64> = Vec::new();
        let mut i: usize = 0;
        while i < n
            invariant
                i <= n,
                n == self.channels@.len(),
                forall|c: int| 0 <= c < n ==> (#[trigger] self.channels@[c]).wf(),
                r@.len() == 2 * i,
                forall|c: int| 0 <= c < i
                    ==> #[trigger] r@[2 * c] == old(self).channels@[c].peak_l,
                forall|c: int| 0 <= c < i
                    ==> #[trigger] r@[2 * c + 1] == old(self).channels@[c].peak_r,
                forall|c: int| 0 <= c < i
                    ==> (#[trigger] self.channels@[c]).peak_l == 0
                        && self.channels@[c].peak_r == 0,
                forall|c: int| i <= c < n
                    ==> #[trigger] self.channels@[c] == old(self).channels@[c],
                self.sample_rate == old(self).sample_rate,
                self.transport == old(self).transport,
                self.cached_bpm == old(self).cached_bpm,
                self.last_loop_enabled == old(self).last_loop_enabled,
                self.last_loop_start == old(self).last_loop_start,
                self.last_loop_end == old(self).last_loop_end,
                1 <= self.sample_rate <= 1_000_000,
                self.transport.wf(),
                self.channels@.len() <= 256,
            decreases n - i,
        {
            let ghost chans0 = self.channels@;
            let mut ch = self.channels.remove(i);
            let (pl, pr) = ch.take_levels();
            self.channels.insert(i, ch);
            proof {
                assert(self.channels@ =~= chans0.update(i as int, ch));
            }
            r.push(pl);
            r.push(pr);
            i += 1;
        }
        r
    }

    /// Reconcile with the shared control block, once per audio block:
    /// apply a changed play state, a changed tempo, a pending seek (which
    /// flushes every channel's DSP state so no pre-seek audio bleeds
    /// through, and clears the trigger), and the loop region; then write
    /// the position back for the control thread.
    pub fn sync_shared_state(&mut self, ctrl: &mut SharedControlBlock)
        requires
            old(self).wf(),
        ensures
            final(self).wf(),
            final(self).channels@.len() == old(self).channels@.len(),
            // play state: applied only when it differs
            ({
                let want = if old(ctrl).play_state == 1 {
                    PlayState::Playing
                } else if old(ctrl).play_state == 2 {
                    PlayState::Paused
                } else {
                    PlayState::Stopped
                };
                final(self).transport.state == want
            }),
            // a pending seek moves the transport to the target tick (under
            // the tempo this sync applies), flushes every channel's DSP
            // state -- equalizers, compressor gains, meters and every
            // insert effect -- and clears the trigger
            old(ctrl).seek_trigger != 0 ==> ({
                let want_bpm = if old(ctrl).bpm < 65536 {
                    65536i64
                } else if old(ctrl).bpm > 999 * 65536 {
                    (999 * 65536) as i64
                } else {
                    old(ctrl).bpm
                };
                let d = old(self).transport.bpm - want_bpm;
                let bpm2 = if d > 655 || d < -655 { want_bpm } else { old(self).transport.bpm };
                let spt = samples_per_tick_spec(
                    old(self).transport.sample_rate as int, bpm2 as int,
                    old(self).transport.ppq as int);
                let t = if old(ctrl).seek_target_ticks < 0 {
                    0int
                } else if old(ctrl).seek_target_ticks > 0x10_0000 {
                    0x10_0000int
                } else {
                    old(ctrl).seek_target_ticks as int
                };
                &&& final(self).transport.position as int == (t * spt) / 65536
                &&& forall|c: int| 0 <= c < final(self).channels@.len() ==> ({
                    let ch = #[trigger] final(self).channels@[c];
                    let before = old(self).channels@[c];
                    &&& eq_state_cleared(ch.eq_l) && eq_state_cleared(ch.eq_r)
                    &&& ch.comp_gain == 65536 && ch.peak_l == 0 && ch.peak_r == 0
                    &&& ch.gain == before.gain && ch.pan == before.pan
                    &&& ch.mute == before.mute && ch.solo == before.solo
                    &&& ch.eq_active == before.eq_active && ch.comp_active == before.comp_active
                    &&& ch.comp_threshold == before.comp_threshold
                    &&& ch.comp_ratio == before.comp_ratio
                    &&& ch.inserts@.len() == before.inserts@.len()
                    &&& forall|j: int| 0 <= j < ch.inserts@.len()
                        ==> insert_state_cleared(#[trigger] ch.inserts@[j])
                    &&& forall|j: int| 0 <= j < ch.inserts@.len()
                        ==> insert_params_preserved(before.inserts@[j], #[trigger] ch.inserts@[j])
                })
                &&& final(ctrl).seek_trigger == 0
            }),
            old(ctrl).seek_trigger == 0 ==> final(ctrl).seek_trigger == 0
                && (forall|c: int| 0 <= c < final(self).channels@.len()
                    ==> #[trigger] final(self).channels@[c] == old(self).channels@[c]),
            // the loop region is taken over (ticks clamped to the grid cap)
            final(self).transport.looping == (old(ctrl).loop_enabled != 0),
            final(self).transport.loop_start_tick == (if old(ctrl).loop_start_ticks < 0 { 0i64 } else if old(ctrl).loop_start_ticks > 0x10_0000 { 0x10_0000i64 } else { old(ctrl).loop_start_ticks }),
            final(self).transport.loop_end_tick == (if old(ctrl).loop_end_ticks < 0 { 0i64 } else if old(ctrl).loop_end_ticks > 0x10_0000 { 0x10_0000i64 } else { old(ctrl).loop_end_ticks }),
            // position readback for the control thread: the transport's
            // sample counter (saturated into the field) and its whole-tick
            // position
            final(ctrl).position_samples == (if final(self).transport.position > 0x7fff_ffff_ffff_ffff { 0x7fff_ffff_ffff_ffffi64 } else { final(self).transport.position as i64 }),
            final(ctrl).position_ticks as int == (position_capped(final(self).transport.position as int) * 65536) / (final(self).transport.samples_per_tick as int),
            final(ctrl).position_ticks >= 0,
            final(ctrl).position_samples >= 0,
            final(ctrl).play_state == old(ctrl).play_state,
            final(ctrl).bpm == old(ctrl).bpm,
            final(ctrl).loop_enabled == old(ctrl).loop_enabled,
            final(ctrl).loop_start_ticks == old(ctrl).loop_start_ticks,
            final(ctrl).loop_end_ticks == old(ctrl).loop_end_ticks,
            final(ctrl).seek_target_ticks == old(ctrl).seek_target_ticks,
    {
        // Play state, applied only on change (a fresh stop command rewinds).
        let want = if ctrl.play_state == 1 {
            PlayState::Playing
        } else if ctrl.play_state == 2 {
            PlayState::Paused
        } else {
            PlayState::Stopped
        };
        if !same_state(self.transport.state, want) {
            if matches!(want, PlayState::Playing) {
                self.transport.play();
            } else if matches!(want, PlayState::Paused) {
                self.transport.pause();
            } else {
                self.transport.stop();
            }
        }
        proof {
            assert(self.transport.state == want);
        }

        // Tempo, applied when it moved by more than a hundredth of a beat.
        let want_bpm = if ctrl.bpm < FRAC_ONE {
            FRAC_ONE
        } else if ctrl.bpm > 999 * FRAC_ONE {
            999 * FRAC_ONE
        } else {
            ctrl.bpm
        };
        let diff = self.transport.bpm - want_bpm;
        let diff = if diff >= 0 { diff } else { -diff };
        if diff > 655 {
            self.transport.set_tempo(want_bpm);
        }
        self.cached_bpm = self.transport.bpm;

        // A pending seek: convert ticks, move, flush, clear.
        if ctrl.seek_trigger != 0 {
            let t = ctrl.seek_target_ticks;
            let t = if t < 0 { 0 } else if t > 0x10_0000 { 0x10_0000 } else { t };
            let target = self.transport.tick_to_sample(t);
            self.transport.seek_to_sample(target);
            self.reset();
            ctrl.seek_trigger = 0;
        }

        // Loop region.
        self.transport.set_loop(
            ctrl.loop_enabled != 0, ctrl.loop_start_ticks, ctrl.loop_end_ticks);
        self.last_loop_enabled = ctrl.loop_enabled != 0;
        self.last_loop_start = self.transport.loop_start_tick;
        self.last_loop_end = self.transport.loop_end_tick;

        // Position readback.
        let pos = self.transport.position;
        ctrl.position_samples = if pos > 0x7fff_ffff_ffff_ffff { 0x7fff_ffff_ffff_ffff } else { pos as i64 };
        let ticks = self.transport.position_ticks();
        proof {
            vstd::arithmetic::div_mod::lemma_div_pos_is_pos(
                position_capped(self.transport.position as int) * 65536,
                self.transport.samples_per_tick as int);
            vstd::arithmetic::div_mod::lemma_div_nonincreasing(
                position_capped(self.transport.position as int) * 65536,
                self.transport.samples_per_tick as int);
        }
        ctrl.position_ticks = ticks as i64;
    }

    /// Mix one block: zero the master bus, then for every included channel
    /// (the solo/mute rule) deinterleave its frames, run its strip, and
    /// accumulate; finally advance the transport by the block.
    ///
    /// Channels the solo/mute rule excludes are not processed at all:
    /// their strips are left untouched and contribute nothing to the bus;
    /// with no included channel the master bus stays silent.
    pub fn process_mix(
        &mut self, interleaved_inputs: &Vec<i64>, output_l: &mut Vec<i64>,
        output_r: &mut Vec<i64>, block_size: usize, num_channels: usize,
    )
        requires
            old(self).wf(),
            block_size <= 65536,
            num_channels <= 256,
            old(self).transport.position + block_size <= 0xffff_ffff_ffff_0000,
            forall|k: int| 0 <= k < interleaved_inputs@.len()
                ==> in_range(#[trigger] interleaved_inputs@[k] as int),
        ensures
            final(self).wf(),
            final(self).channels@.len() == old(self).channels@.len(),
            final(output_l)@.len() == block_size,
            final(output_r)@.len() == block_size,
            forall|k: int| 0 <= k < block_size
                ==> in_range(#[trigger] final(output_l)@[k] as int),
            forall|k: int| 0 <= k < block_size
                ==> in_range(#[trigger] final(output_r)@[k] as int),
            // the solo/mute rule: excluded channels are untouched
            forall|c: int| 0 <= c < old(self).channels@.len()
                && !channel_included_spec(
                    any_solo_spec(old(self).channels@),
                    old(self).channels@[c].mute,
                    old(self).channels@[c].solo)
                ==> #[trigger] final(self).channels@[c] == old(self).channels@[c],
            // with nothing included the bus is silent
            (forall|c: int| 0 <= c < old(self).channels@.len()
                ==> !channel_included_spec(
                    any_solo_spec(old(self).channels@),
                    (#[trigger] old(self).channels@[c]).mute,
                    old(self).channels@[c].solo))
                ==> ((forall|k: int| 0 <= k < block_size
                        ==> #[trigger] final(output_l)@[k] == 0i64)
                    && (forall|k: int| 0 <= k < block_size
                        ==> #[trigger] final(output_r)@[k] == 0i64)),
            // the bus is exactly the saturated sum of the included
            // channels' strip outputs (insert chains included)
            forall|k: int| 0 <= k < block_size
                ==> (#[trigger] final(output_l)@[k], final(output_r)@[k]) == mix_bus_spec(
                    old(self).channels@, interleaved_inputs@, num_channels as int,
                    block_size as int, old(self).sample_rate,
                    if num_channels <= old(self).channels@.len() { num_channels as int } else { old(self).channels@.len() as int },
                    any_solo_spec(old(self).channels@))[k],
            // ... and each included channel's core state is exactly its own
            // fold over its slice
            forall|c: int| 0 <= c < old(self).channels@.len() && c < num_channels
                && channel_included_spec(
                    any_solo_spec(old(self).channels@),
                    (#[trigger] old(self).channels@[c]).mute,
                    old(self).channels@[c].solo)
                ==> final(self).channels@[c].dsp_core() == channel_run_core_spec(
                    old(self).channels@[c], interleaved_inputs@, c,
                    num_channels as int, block_size as int, old(self).sample_rate),
            // the transport advances by the block while playing
            old(self).transport.state != PlayState::Playing
                ==> final(self).transport.position == old(self).transport.position,
            ({
                let moved = old(self).transport.position + block_size;
                let ls = old(self).transport.loop_start_sample_spec();
                let le = old(self).transport.loop_end_sample_spec();
                &&& (old(self).transport.state == PlayState::Playing
                    && (!old(self).transport.looping
                        || !old(self).transport.loop_valid_spec() || moved < le)
                    ==> final(self).transport.position == moved)
                &&& (old(self).transport.state == PlayState::Playing
                    && old(self).transport.looping && old(self).transport.loop_valid_spec()
                    && moved >= le
                    ==> final(self).transport.position == ls + (moved - le) % (le - ls)
                        && ls <= final(self).transport.position < le)
            }),
    {
        let ghost chans0 = self.channels@;
        let ghost anysolo = any_solo_spec(self.channels@);
        let mut out_l: Vec<i64> = Vec::new();
        let mut out_r: Vec<i64> = Vec::new();
        let mut i: usize = 0;
        while i < block_size
            invariant
                i <= block_size,
                out_l@.len() == i && out_r@.len() == i,
                forall|k: int| 0 <= k < i ==> #[trigger] out_l@[k] == 0i64,
                forall|k: int| 0 <= k < i ==> #[trigger] out_r@[k] == 0i64,
            decreases block_size - i,
        {
            out_l.push(0);
            out_r.push(0);
            i += 1;
        }

        let solo_engaged = self.any_solo();
        let n = self.channels.len();
        let upto = if num_channels <= n { num_channels } else { n };
        let mut ch: usize = 0;
        while ch < upto
            invariant
                ch <= upto,
                upto <= n,
                n == self.channels@.len(),
                chans0 == old(self).channels@,
                n == chans0.len(),
                self.wf(),
                anysolo == any_solo_spec(chans0),
                solo_engaged == anysolo,
                block_size <= 65536,
                num_channels <= 256,
                self.sample_rate == old(self).sample_rate,
                self.transport == old(self).transport,
                self.cached_bpm == old(self).cached_bpm,
                self.last_loop_enabled == old(self).last_loop_enabled,
                self.last_loop_start == old(self).last_loop_start,
                self.last_loop_end == old(self).last_loop_end,
                forall|k: int| 0 <= k < interleaved_inputs@.len()
                    ==> in_range(#[trigger] interleaved_inputs@[k] as int),
                out_l@.len() == block_size && out_r@.len() == block_size,
                forall|k: int| 0 <= k < block_size ==> in_range(#[trigger] out_l@[k] as int),
                forall|k: int| 0 <= k < block_size ==> in_range(#[trigger] out_r@[k] as int),
                forall|c: int| 0 <= c < n
                    && !channel_included_spec(anysolo, chans0[c].mute, chans0[c].solo)
                    ==> #[trigger] self.channels@[c] == chans0[c],
                forall|c: int| ch <= c < n ==> #[trigger] self.channels@[c] == chans0[c],
                (forall|c: int| 0 <= c < n
                    ==> !channel_included_spec(anysolo, (#[trigger] chans0[c]).mute,
                        chans0[c].solo))
                    ==> ((forall|k: int| 0 <= k < block_size
                            ==> #[trigger] out_l@[k] == 0i64)
                        && (forall|k: int| 0 <= k < block_size
                            ==> #[trigger] out_r@[k] == 0i64)),
                forall|k: int| 0 <= k < block_size
                    ==> (#[trigger] out_l@[k], out_r@[k]) == mix_bus_spec(
                        chans0, interleaved_inputs@, num_channels as int,
                        block_size as int, self.sample_rate, ch as int, anysolo)[k],
                forall|c: int| 0 <= c < ch && c < num_channels
                    && channel_included_spec(anysolo, (#[trigger] chans0[c]).mute,
                        chans0[c].solo)
                    ==> self.channels@[c].dsp_core() == channel_run_core_spec(
                        chans0[c], interleaved_inputs@, c, num_channels as int,
                        block_size as int, self.sample_rate),
            decreases upto - ch,
        {
            let takes_part = !self.channels[ch].mute && (!solo_engaged || self.channels[ch].solo);
            proof {
                assert(self.channels@[ch as int] == chans0[ch as int]);
                assert(takes_part == channel_included_spec(
                    anysolo, chans0[ch as int].mute, chans0[ch as int].solo));
            }
            if takes_part {
                // Deinterleave this channel's frames.
                let mut dl: Vec<i64> = Vec::new();
                let mut dr: Vec<i64> = Vec::new();
                let mut i: usize = 0;
                while i < block_size
                    invariant
                        i <= block_size,
                        block_size <= 65536,
                        num_channels <= 256,
                        ch < 256,
                        dl@.len() == i && dr@.len() == i,
                        forall|k: int| 0 <= k < interleaved_inputs@.len()
                            ==> in_range(#[trigger] interleaved_inputs@[k] as int),
                        forall|k: int| 0 <= k < i
                            ==> (#[trigger] dl@[k], dr@[k]) == deinterleave_spec(
                                interleaved_inputs@, ch as int, num_channels as int, k),
                        forall|k: int| 0 <= k < i ==> in_range(#[trigger] dl@[k] as int),
                        forall|k: int| 0 <= k < i ==> in_range(#[trigger] dr@[k] as int),
                    decreases block_size - i,
                {
                    proof {
                        assert(i * num_channels * 2 + ch * 2 < 0x4000_0000)
                            by (nonlinear_arith)
                            requires i < 65536, num_channels <= 256, ch < 256;
                    }
                    let idx = i * num_channels * 2 + ch * 2;
                    if idx + 1 < interleaved_inputs.len() {
                        dl.push(interleaved_inputs[idx]);
                        dr.push(interleaved_inputs[idx + 1]);
                    } else {
                        dl.push(0);
                        dr.push(0);
                    }
                    i += 1;
                }

                let ghost chans_pre = self.channels@;
                let ghost strip0 = self.channels@[ch as int];
                let mut strip = self.channels.remove(ch);
                let (tl, tr) = strip.process_block(&dl, &dr, self.sample_rate);
                self.channels.insert(ch, strip);
                proof {
                    assert(self.channels@ =~= chans_pre.update(ch as int, strip));
                    assert(crate::chain::zip_spec(dl@, dr@) =~= Seq::new(
                        block_size as nat,
                        |i: int| deinterleave_spec(
                            interleaved_inputs@, ch as int, num_channels as int, i)));
                }

                // Accumulate into the master bus.
                let ghost prev_l = out_l@;
                let ghost prev_r = out_r@;
                let mut i: usize = 0;
                while i < block_size
                    invariant
                        i <= block_size,
                        out_l@.len() == block_size && out_r@.len() == block_size,
                        prev_l.len() == block_size && prev_r.len() == block_size,
                        tl@.len() == block_size && tr@.len() == block_size,
                        forall|k: int| 0 <= k < block_size
                            ==> in_range(#[trigger] out_l@[k] as int),
                        forall|k: int| 0 <= k < block_size
                            ==> in_range(#[trigger] out_r@[k] as int),
                        forall|k: int| 0 <= k < block_size
                            ==> in_range(#[trigger] tl@[k] as int),
                        forall|k: int| 0 <= k < block_size
                            ==> in_range(#[trigger] tr@[k] as int),
                        forall|k: int| 0 <= k < block_size
                            ==> in_range(#[trigger] prev_l[k] as int),
                        forall|k: int| 0 <= k < block_size
                            ==> in_range(#[trigger] prev_r[k] as int),
                        forall|k: int| 0 <= k < i
                            ==> #[trigger] out_l@[k] == sat_i64(prev_l[k] + tl@[k]),
                        forall|k: int| 0 <= k < i
                            ==> #[trigger] out_r@[k] == sat_i64(prev_r[k] + tr@[k]),
                        forall|k: int| i <= k < block_size
                            ==> #[trigger] out_l@[k] == prev_l[k],
                        forall|k: int| i <= k < block_size
                            ==> #[trigger] out_r@[k] == prev_r[k],
                    decreases block_size - i,
                {
                    let v = sat(out_l[i] + tl[i]);
                    out_l[i] = v;
                    let w = sat(out_r[i] + tr[i]);
                    out_r[i] = w;
                    i += 1;
                }
                proof {
                    assert(strip0 == chans0[ch as int]);
                    crate::effects::lemma_insert_chain_len(
                        chans0[ch as int].inserts@,
                        Seq::new(block_size as nat, |i: int| deinterleave_spec(
                            interleaved_inputs@, ch as int, num_channels as int, i)),
                        self.sample_rate);
                    let outs = channel_block_outs_spec(
                        chans0[ch as int], interleaved_inputs@, ch as int,
                        num_channels as int, block_size as int, self.sample_rate);
                    let bus_prev = mix_bus_spec(
                        chans0, interleaved_inputs@, num_channels as int,
                        block_size as int, self.sample_rate, ch as int, anysolo);
                    let bus_now = mix_bus_spec(
                        chans0, interleaved_inputs@, num_channels as int,
                        block_size as int, self.sample_rate, ch + 1, anysolo);
                    assert forall|k: int| 0 <= k < block_size
                        implies (#[trigger] out_l@[k], out_r@[k]) == bus_now[k] by {
                        assert((prev_l[k], prev_r[k]) == bus_prev[k]);
                        assert((tl@[k], tr@[k]) == outs[k]);
                    }
                }
            }
            ch += 1;
        }

        self.transport.advance(block_size as u64);
        *output_l = out_l;
        *output_r = out_r;
    }
}

/// Structural equality of two play states.
fn same_state(a: PlayState, b: PlayState) -> (r: bool)
    ensures
        r == (a == b),
{
    match (a, b) {
        (PlayState::Stopped, PlayState::Stopped) => true,
        (PlayState::Playing, PlayState::Playing) => true,
        (PlayState::Paused, PlayState::Paused) => true,
        _ => false,
    }
}

} // verus!
