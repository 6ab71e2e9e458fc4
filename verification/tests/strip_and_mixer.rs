use dawg_audio_dsp::mixer::{MixerError, UnifiedMixerProcessor};
use dawg_audio_dsp::shared::SharedControlBlock;
use dawg_audio_dsp::strip::ChannelStrip;
use dawg_audio_dsp::transport::PlayState;

#[test]
fn muted_strip_is_exact_silence() {
    let mut s = ChannelStrip::new(44100);
    s.mute = true;
    s.gain = 4 * 65536;
    s.pan = 65536;
    s.eq_active = true;
    s.comp_active = true;
    let inp = vec![30000i64; 64];
    let (l, r) = s.process_block(&inp, &inp, 44100);
    assert_eq!(l, vec![0i64; 64]);
    assert_eq!(r, vec![0i64; 64]);
}

#[test]
fn default_strip_applies_the_center_pan_gains() {
    // at pan 0 the constant-power law gives cos(pi/4) = 46260/65536 on
    // both sides, so even the default strip scales by it
    let mut s = ChannelStrip::new(44100);
    let inp = vec![12345i64, -12345, 0, 30000];
    let (l, r) = s.process_block(&inp, &inp, 44100);
    let expect = vec![8713i64, -8713, 0, 21176];
    assert_eq!(l, expect);
    assert_eq!(r, expect);
}

#[test]
fn strip_meters_track_the_peak_and_clear_on_read() {
    let mut s = ChannelStrip::new(44100);
    let inp = vec![100i64, -25000, 3000];
    let _ = s.process_block(&inp, &inp, 44100);
    // the meter tracks the output peak, after the center pan gain
    assert_eq!(s.peak_l, 17646);
    let mut m = UnifiedMixerProcessor::new(44100, 1);
    let inp2 = vec![100i64, -25000, 3000, 100i64, -25000, 3000];
    let mut out_l: Vec<i64> = Vec::new();
    let mut out_r: Vec<i64> = Vec::new();
    m.process_mix(&inp2, &mut out_l, &mut out_r, 3, 1);
    let levels = m.get_channel_levels();
    assert_eq!(levels, vec![17646i64, 17646]);
    let levels2 = m.get_channel_levels();
    assert_eq!(levels2, vec![0i64, 0]);
}

#[test]
fn compressor_gain_recovers_after_silence() {
    let mut s = ChannelStrip::new(1000);
    s.comp_active = true;
    s.comp_threshold = -12 * 65536;
    let loud = vec![65536i64; 500];
    let _ = s.process_block(&loud, &loud, 1000);
    assert!(s.comp_gain < 60000);
    let quiet = vec![0i64; 1000];
    for _ in 0..70 {
        let _ = s.process_block(&quiet, &quiet, 1000);
    }
    // back to unity within half a percent
    assert!(65536 - s.comp_gain <= 333);
}

fn interleave_two(ch0: i64, ch1: i64, frames: usize) -> Vec<i64> {
    let mut v = Vec::new();
    for _ in 0..frames {
        v.push(ch0);
        v.push(ch0);
        v.push(ch1);
        v.push(ch1);
    }
    v
}

#[test]
fn mix_sums_all_unmuted_channels_without_solo() {
    let mut m = UnifiedMixerProcessor::new(44100, 2);
    let inp = interleave_two(1000, 2000, 4);
    let mut out_l: Vec<i64> = Vec::new();
    let mut out_r: Vec<i64> = Vec::new();
    m.process_mix(&inp, &mut out_l, &mut out_r, 4, 2);
    // each channel is scaled by the center pan gain before the sum
    assert_eq!(out_l, vec![705 + 1411i64; 4]);
    assert_eq!(out_r, vec![705 + 1411i64; 4]);
}

#[test]
fn solo_excludes_every_non_solo_channel() {
    let mut m = UnifiedMixerProcessor::new(44100, 2);
    m.set_channel_params(0, 65536, 0, false, true, false, false);
    let inp = interleave_two(1000, 2000, 4);
    let mut out_l: Vec<i64> = Vec::new();
    let mut out_r: Vec<i64> = Vec::new();
    m.process_mix(&inp, &mut out_l, &mut out_r, 4, 2);
    assert_eq!(out_l, vec![705i64; 4]);
    assert_eq!(out_r, vec![705i64; 4]);
}

#[test]
fn muted_channel_is_left_out_of_the_sum() {
    let mut m = UnifiedMixerProcessor::new(44100, 2);
    m.set_channel_params(0, 65536, 0, true, false, false, false);
    let inp = interleave_two(1000, 2000, 4);
    let mut out_l: Vec<i64> = Vec::new();
    let mut out_r: Vec<i64> = Vec::new();
    m.process_mix(&inp, &mut out_l, &mut out_r, 4, 2);
    assert_eq!(out_l, vec![1411i64; 4]);
    assert_eq!(out_r, vec![1411i64; 4]);
}

#[test]
fn add_effect_reports_bad_channel_and_bad_type() {
    let mut m = UnifiedMixerProcessor::new(44100, 2);
    assert_eq!(m.add_effect(5, 0), Err(MixerError::ChannelOutOfRange));
    assert_eq!(m.add_effect(0, 99), Err(MixerError::UnknownEffectType));
    assert_eq!(m.add_effect(0, 0), Ok(()));
    assert_eq!(m.channels[0].inserts.len(), 1);
}

#[test]
fn sync_applies_play_state_and_loop() {
    let mut m = UnifiedMixerProcessor::new(44100, 1);
    let mut ctrl = SharedControlBlock::new();
    ctrl.play_state = 1;
    ctrl.loop_enabled = 1;
    ctrl.loop_start_ticks = 0;
    ctrl.loop_end_ticks = 96;
    m.sync_shared_state(&mut ctrl);
    assert_eq!(m.transport.state, PlayState::Playing);
    assert!(m.transport.looping);
    assert_eq!(m.transport.loop_end_tick, 96);
}

#[test]
fn seek_flushes_channel_state_and_clears_the_trigger() {
    let mut m = UnifiedMixerProcessor::new(1000, 1);
    m.set_channel_params(0, 65536, 0, false, false, false, true);
    let mut inp = Vec::new();
    for _ in 0..500 {
        inp.push(65536i64);
        inp.push(65536i64);
    }
    let mut out_l: Vec<i64> = Vec::new();
    let mut out_r: Vec<i64> = Vec::new();
    m.process_mix(&inp, &mut out_l, &mut out_r, 500, 1);
    assert!(m.channels[0].comp_gain < 65536);
    let mut ctrl = SharedControlBlock::new();
    ctrl.seek_trigger = 1;
    ctrl.seek_target_ticks = 10;
    m.sync_shared_state(&mut ctrl);
    assert_eq!(ctrl.seek_trigger, 0);
    assert_eq!(m.channels[0].comp_gain, 65536);
}

#[test]
fn mix_advances_the_transport_and_wraps_the_loop() {
    let mut m = UnifiedMixerProcessor::new(44100, 1);
    let mut ctrl = SharedControlBlock::new();
    ctrl.play_state = 1;
    ctrl.loop_enabled = 1;
    ctrl.loop_start_ticks = 0;
    ctrl.loop_end_ticks = 96; // 22050 samples at the defaults
    m.sync_shared_state(&mut ctrl);
    let inp = vec![0i64; 0];
    let mut out_l: Vec<i64> = Vec::new();
    let mut out_r: Vec<i64> = Vec::new();
    for _ in 0..100 {
        m.process_mix(&inp, &mut out_l, &mut out_r, 512, 1);
    }
    // 51200 samples advanced; the position wrapped instead of growing
    assert!(m.transport.position < 22050);
    m.sync_shared_state(&mut ctrl);
    assert!(ctrl.position_samples >= 0 && ctrl.position_samples < 22050);
}

#[test]
fn out_of_range_channel_settings_are_ignored() {
    let mut m = UnifiedMixerProcessor::new(44100, 1);
    m.set_channel_params(7, 0, 0, true, true, true, true);
    assert!(!m.channels[0].mute);
    m.set_channel_compression(0, -24 * 65536, 8 * 65536);
    assert_eq!(m.channels[0].comp_threshold, -24 * 65536);
    assert_eq!(m.channels[0].comp_ratio, 8 * 65536);
}

use dawg_audio_dsp::effects::InsertEffect;
use dawg_audio_dsp::shaping::Clipper;

#[test]
fn insert_dispatch_runs_the_effect_and_forwards_parameters() {
    let mut e = InsertEffect::Clip(Clipper::new());
    // parameter 0 is the clip threshold; it is clamped and applied
    e.set_param(0, 30000);
    let inp = vec![65536i64];
    let (l, r) = e.process(&inp, &inp, 44100);
    // over = 35536, folded by the default softness 0.5
    assert_eq!(l[0], 47768);
    assert_eq!(r[0], 47768);
    e.reset();
}

#[test]
fn mix_sum_is_exact_through_an_insert_chain() {
    let mut m = UnifiedMixerProcessor::new(44100, 1);
    assert_eq!(m.add_effect(0, 4), Ok(()));
    // lower the clipper threshold (clamped up to its 0.1 floor = 6554)
    m.channels[0].inserts[0].set_param(0, 500);
    let mut inp = Vec::new();
    for _ in 0..4 {
        inp.push(10000i64);
        inp.push(10000i64);
    }
    let mut out_l: Vec<i64> = Vec::new();
    let mut out_r: Vec<i64> = Vec::new();
    m.process_mix(&inp, &mut out_l, &mut out_r, 4, 1);
    // clipper folds 10000 to 8277, then the center pan gain applies
    assert_eq!(out_l, vec![5842i64; 4]);
    assert_eq!(out_r, vec![5842i64; 4]);
}

#[test]
fn seek_flushes_insert_state_too() {
    let mut m = UnifiedMixerProcessor::new(100, 1);
    assert_eq!(m.add_effect(0, 0), Ok(()));
    let mut inp = Vec::new();
    for k in 0..120 {
        let v = if k == 0 { 65536i64 } else { 0 };
        inp.push(v);
        inp.push(v);
    }
    let mut out_l: Vec<i64> = Vec::new();
    let mut out_r: Vec<i64> = Vec::new();
    m.process_mix(&inp, &mut out_l, &mut out_r, 120, 1);
    let mut ctrl = SharedControlBlock::new();
    ctrl.seek_trigger = 1;
    m.sync_shared_state(&mut ctrl);
    assert_eq!(ctrl.seek_trigger, 0);
    // with the delay line flushed, silence in gives silence out
    let zeros = vec![0i64; 200];
    m.process_mix(&zeros, &mut out_l, &mut out_r, 100, 1);
    assert_eq!(out_l, vec![0i64; 100]);
    assert_eq!(out_r, vec![0i64; 100]);
}

#[test]
fn negative_gain_inverts_polarity() {
    let mut m = UnifiedMixerProcessor::new(44100, 1);
    m.set_channel_params(0, -65536, 0, false, false, false, false);
    assert_eq!(m.channels[0].gain, -65536);
    let mut inp = Vec::new();
    for _ in 0..4 {
        inp.push(1000i64);
        inp.push(1000i64);
    }
    let mut out_l: Vec<i64> = Vec::new();
    let mut out_r: Vec<i64> = Vec::new();
    m.process_mix(&inp, &mut out_l, &mut out_r, 4, 1);
    assert_eq!(out_l, vec![-705i64; 4]);
    assert_eq!(out_r, vec![-705i64; 4]);
}
