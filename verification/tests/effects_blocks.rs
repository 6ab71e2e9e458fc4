use dawg_audio_dsp::dynamics::{Compressor, Limiter};
use dawg_audio_dsp::effects::SimpleDelay;
use dawg_audio_dsp::modulation::StereoPanner;
use dawg_audio_dsp::shaping::{Clipper, Saturator};

#[test]
fn clipper_passes_below_threshold() {
    let mut c = Clipper::new(); // threshold 0.8, softness 0.5
    let inp = vec![10000i64, -30000, 52429];
    let (l, r) = c.process(&inp, &inp);
    assert_eq!(l, inp);
    assert_eq!(r, inp);
}

#[test]
fn clipper_folds_the_excess() {
    let mut c = Clipper::new(); // threshold 52429, softness 32768
    let inp = vec![65536i64, -65536];
    let (l, _r) = c.process(&inp, &inp);
    // over = 13107; folded by half: 6553; 52429 + 6553 = 58982
    assert_eq!(l[0], 58982);
    assert_eq!(l[1], -58982);
}

#[test]
fn saturator_hard_clip_mode_caps_at_full_scale() {
    let mut s = Saturator::new();
    s.set_mode(2);
    s.set_mix(65536);
    s.set_drive(0);
    let inp = vec![2 * 65536i64, -3 * 65536];
    let (l, _r) = s.process(&inp, &inp);
    assert_eq!(l[0], 65536);
    assert_eq!(l[1], -65536);
}

#[test]
fn saturator_setters_clamp() {
    let mut s = Saturator::new();
    s.set_drive(999_999);
    assert_eq!(s.drive, 65536);
    s.set_mix(-5);
    assert_eq!(s.mix, 0);
    s.set_mode(9);
    assert_eq!(s.mode, 2);
}

#[test]
fn limiter_holds_loud_input_to_the_ceiling() {
    let mut lim = Limiter::new(44100);
    let inp = vec![65536i64; 64];
    let (l, _r) = lim.process(&inp, &inp);
    // ceiling is -0.3 dB, so every sample is below full scale
    for v in l {
        assert!(v.abs() < 65536);
        assert!(v > 0);
    }
}

#[test]
fn limiter_leaves_quiet_input_alone() {
    let mut lim = Limiter::new(44100);
    let inp = vec![1000i64; 16];
    let (l, r) = lim.process(&inp, &inp);
    assert_eq!(l, inp);
    assert_eq!(r, inp);
}

#[test]
fn compressor_reduces_loud_input() {
    let mut c = Compressor::new(44100);
    let inp = vec![65536i64; 256];
    let (l, _r) = c.process(&inp, &inp);
    // threshold -18 dB, ratio 4:1: by the end of the block the envelope has
    // charged and the gain is well below unity
    assert!(l[255] < 45000);
}

#[test]
fn compressor_passes_silence() {
    let mut c = Compressor::new(44100);
    let inp = vec![0i64; 32];
    let (l, r) = c.process(&inp, &inp);
    assert_eq!(l, vec![0i64; 32]);
    assert_eq!(r, vec![0i64; 32]);
}

#[test]
fn simple_delay_produces_the_echo() {
    // sample rate 100: the default delay time of 500 ms is 50 samples
    let mut d = SimpleDelay::new(100);
    let mut inp = vec![0i64; 60];
    inp[0] = 65536;
    let (l, _r) = d.process(&inp, &inp);
    // dry part: input * (1 - 0.8)
    assert_eq!(l[0], 13107);
    // the echo lands exactly at the nominal delay: input * 0.8
    assert_eq!(l[49], 0);
    assert_eq!(l[50], 52429);
}

#[test]
fn simple_delay_reset_clears_the_tail() {
    let mut d = SimpleDelay::new(100);
    let mut inp = vec![0i64; 10];
    inp[0] = 65536;
    let _ = d.process(&inp, &inp);
    d.reset();
    let zeros = vec![0i64; 80];
    let (l, r) = d.process(&zeros, &zeros);
    assert_eq!(l, vec![0i64; 80]);
    assert_eq!(r, vec![0i64; 80]);
}

#[test]
fn panner_center_is_symmetric() {
    let mut p = StereoPanner::new();
    let inp = vec![20000i64; 8];
    let (l, r) = p.process(&inp, &inp, 44100);
    assert_eq!(l, r);
    for k in 0..8 {
        // mid = input, width leaves it, and the center gain is 46260/65536
        assert_eq!(l[k], 20000 * 46260 / 65536);
    }
}

#[test]
fn panner_hard_right_silences_the_left() {
    let mut p = StereoPanner::new();
    p.set_pan(65536);
    let inp = vec![20000i64; 4];
    let (l, r) = p.process(&inp, &inp, 44100);
    for k in 0..4 {
        assert_eq!(l[k], 0);
        assert!(r[k] > 0);
    }
}

#[test]
fn compressor_gain_follows_the_decibel_curve() {
    // pin the envelope by feeding a peak equal to it, so the gain is the
    // pure decibel-domain law: level over threshold in dB, times
    // (1 - 1/ratio), back to linear
    let mut c = Compressor::new(44100);
    c.set_knee(0);
    c.set_makeup_gain(0);
    c.envelope = 65536;
    let inp = vec![65536i64];
    let (l, _r) = c.process(&inp, &inp);
    assert_eq!(c.gain_reduction, 16628);
    assert_eq!(l[0], 16628);
}

#[test]
fn compressor_soft_knee_eases_the_reduction() {
    // inside the knee the squared blend applies less reduction than the
    // hard-knee slope would
    let mut hard = Compressor::new(44100);
    hard.set_knee(0);
    hard.envelope = 16384;
    let mut soft = Compressor::new(44100);
    soft.set_knee(24 * 65536);
    soft.envelope = 16384;
    let inp = vec![16384i64];
    let _ = hard.process(&inp, &inp);
    let _ = soft.process(&inp, &inp);
    assert_eq!(hard.gain_reduction, 44372);
    assert_eq!(soft.gain_reduction, 54458);
    assert!(soft.gain_reduction > hard.gain_reduction);
}
