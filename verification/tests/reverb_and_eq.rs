use dawg_audio_dsp::biquad::{BiquadFilter, ThreeBandEQ, calculate_peaking};
use dawg_audio_dsp::filters::{CombFilter, FilterType, StateVariableFilter};
use dawg_audio_dsp::reverb::ReverbProcessor;

#[test]
fn identity_biquad_passes_audio() {
    let mut b = BiquadFilter::new();
    for x in [0i64, 100, -30000, 65536] {
        assert_eq!(b.process(x), x);
    }
}

#[test]
fn biquad_coefficient_change_keeps_state() {
    let mut b = BiquadFilter::new();
    let _ = b.process(1000);
    let x1 = b.x1;
    b.set_coefficients(65536, 100, 0, 0, 0);
    assert_eq!(b.x1, x1);
}

#[test]
fn peaking_band_at_zero_gain_is_unity() {
    let c = calculate_peaking(1000, 0, 44100);
    assert_eq!(c.0, 65536);
    assert_eq!(c.1, c.3);
    assert_eq!(c.2, c.4);
}

#[test]
fn eq_reset_clears_all_bands() {
    let mut eq = ThreeBandEQ::new(44100);
    eq.update_coefficients(6 * 65536, -3 * 65536, 2 * 65536, 200, 8000);
    for _ in 0..32 {
        let _ = eq.process(20000);
    }
    eq.reset();
    assert_eq!(eq.low.x1, 0);
    assert_eq!(eq.mid.y1, 0);
    assert_eq!(eq.high.y2, 0);
}

#[test]
fn comb_filter_delays_by_its_length() {
    let mut c = CombFilter::new(16);
    let mut first_out = Vec::new();
    for i in 0..20 {
        let x = if i == 0 { 10000 } else { 0 };
        first_out.push(c.process(x, 32768, 0, 0));
    }
    // the impulse written at step 0 emerges when the line wraps
    assert_eq!(first_out[0], 0);
    assert_eq!(first_out[16], 10000);
}

#[test]
fn state_variable_filter_lowpass_follows_dc() {
    let mut f = StateVariableFilter::new(44100);
    f.set_type(FilterType::LowPass);
    f.set_cutoff(2000);
    let mut y = 0;
    for _ in 0..2000 {
        y = f.process(10000);
    }
    // a low-pass driven by a constant settles near that constant
    assert!((y - 10000i64).abs() < 2000);
}

#[test]
fn reverb_stays_bounded_at_maximum_decay() {
    // a unit impulse with the decay control at its maximum, run for ten
    // seconds of samples: every output stays inside the sample range
    let sr = 8000i64;
    let mut rv = ReverbProcessor::new(sr);
    let mut impulse = vec![0i64; 1000];
    impulse[0] = 65536;
    let zeros = vec![0i64; 1000];
    let limit = 268435456i64;
    for block in 0..80 {
        let inp = if block == 0 { &impulse } else { &zeros };
        let (l, r) = rv.process(
            inp, inp, 32768, 20 * 65536, 32768, 3277, 65536, 32768, 65536, 32768, 32768,
        );
        for k in 0..1000 {
            assert!(l[k].abs() <= limit);
            assert!(r[k].abs() <= limit);
        }
    }
}

#[test]
fn reverb_flush_kills_the_tail() {
    let sr = 8000i64;
    let mut rv = ReverbProcessor::new(sr);
    let mut impulse = vec![0i64; 2000];
    for k in 0..100 {
        impulse[k] = 40000;
    }
    let (_l, _r) = rv.process(
        &impulse, &impulse, 32768, 5 * 65536, 32768, 3277, 65536, 32768, 65536, 0, 32768,
    );
    rv.reset();
    let zeros = vec![0i64; 2000];
    let (l, r) = rv.process(
        &zeros, &zeros, 32768, 5 * 65536, 32768, 3277, 65536, 32768, 65536, 0, 32768,
    );
    assert_eq!(l, vec![0i64; 2000]);
    assert_eq!(r, vec![0i64; 2000]);
}

#[test]
fn reverb_with_zero_wet_is_the_dry_signal() {
    let mut rv = ReverbProcessor::new(44100);
    let inp = vec![123i64, -456, 789, 0, 30000];
    let (l, r) = rv.process(&inp, &inp, 32768, 2 * 65536, 32768, 0, 0, 32768, 65536, 0, 0);
    assert_eq!(l, inp);
    assert_eq!(r, inp);
}

use dawg_audio_dsp::processor::WasmAudioProcessor;

#[test]
fn bus_processor_passes_stereo_through_at_center_pan() {
    // a centered pan leaves the stereo pair untouched; the pan stage
    // engages only off center
    let mut p = WasmAudioProcessor::new(44100);
    let inp = vec![500i64, -1500, 30000, 0];
    let (l, r) = p.process_buffer(&inp, &inp, false, false, 65536, 0, false, -12 * 65536, 4 * 65536);
    assert_eq!(l, inp);
    assert_eq!(r, inp);
}

#[test]
fn bus_processor_pan_collapses_to_the_weighted_mono_sum() {
    let mut p = WasmAudioProcessor::new(44100);
    let in_l = vec![20000i64; 4];
    let in_r = vec![10000i64; 4];
    // full right: the left gain is zero, so the left side is silent
    let (l, r) = p.process_buffer(&in_l, &in_r, false, false, 65536, 65536, false, 0, 65536);
    for k in 0..4 {
        assert_eq!(l[k], 0);
        assert!(r[k] > 0);
    }
}

#[test]
fn bus_processor_mono_folds_both_sides_equal() {
    let mut p = WasmAudioProcessor::new(44100);
    let in_l = vec![20000i64; 4];
    let in_r = vec![10000i64; 4];
    let (l, r) = p.process_buffer(&in_l, &in_r, false, false, 65536, 0, true, 0, 65536);
    assert_eq!(l, r);
    // centered pan passes stereo through; the mono fold averages the sides
    assert_eq!(l[0], 15000);
}

#[test]
fn bus_processor_gain_scales_output() {
    let mut p = WasmAudioProcessor::new(44100);
    let inp = vec![10000i64; 4];
    let (l, _r) = p.process_buffer(&inp, &inp, false, false, 32768, 0, false, 0, 65536);
    assert_eq!(l, vec![5000i64; 4]);
}
