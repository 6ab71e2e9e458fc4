//! The shared control block: the fixed-layout record through which the
//! control thread and the audio thread exchange commands and parameters
//! without locks.
//!
//! Field ownership is a single-writer discipline. The control thread writes
//! the command and parameter fields (play state, message counter, seek
//! trigger and target, tempo, sample rate, loop region); the audio thread
//! writes only the position readback fields and clears the seek trigger
//! after consuming it. Every read is possibly stale by up to one audio
//! block: the audio thread reads the record exactly once per block.

use vstd::prelude::*;

verus! {

/// Play-state command values: 0 stop, 1 play, 2 pause.
pub struct SharedControlBlock {
    /// Written by the control thread: requested play state.
    pub play_state: u32,
    /// Written by the control thread: advisory message counter.
    pub message_counter: u32,
    /// Written by the control thread to request a seek; cleared by the
    /// audio thread once consumed.
    pub seek_trigger: u32,
    /// Written by the control thread: tempo in Q16 beats per minute.
    pub bpm: i64,
    /// Written by the control thread: sample rate in Hz.
    pub sample_rate: i64,
    /// Written by the control thread: seek target in ticks.
    pub seek_target_ticks: i64,
    /// Written by the control thread: loop engaged (nonzero) or not.
    pub loop_enabled: u32,
    /// Written by the control thread: loop region start, in ticks.
    pub loop_start_ticks: i64,
    /// Written by the control thread: loop region end, in ticks.
    pub loop_end_ticks: i64,
    /// Written by the audio thread: playback position in samples.
    pub position_samples: i64,
    /// Written by the audio thread: playback position in whole ticks.
    pub position_ticks: i64,
}

impl SharedControlBlock {
    /// A block with everything stopped and cleared.
    pub fn new() -> (r: SharedControlBlock)
        ensures
            r.play_state == 0 && r.message_counter == 0 && r.seek_trigger == 0,
            r.bpm == 120 * 65536,
            r.sample_rate == 44100,
            r.seek_target_ticks == 0,
            r.loop_enabled == 0 && r.loop_start_ticks == 0 && r.loop_end_ticks == 0,
            r.position_samples == 0 && r.position_ticks == 0,
    {
        SharedControlBlock {
            play_state: 0,
            message_counter: 0,
            seek_trigger: 0,
            bpm: 120 * 65536,
            sample_rate: 44100,
            seek_target_ticks: 0,
            loop_enabled: 0,
            loop_start_ticks: 0,
            loop_end_ticks: 0,
            position_samples: 0,
            position_ticks: 0,
        }
    }
}

} // verus!
