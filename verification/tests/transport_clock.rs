use dawg_audio_dsp::transport::{PlayState, Transport};

#[test]
fn timing_derivation_at_defaults() {
    let t = Transport::new(44100);
    // 44100 * 60 / 120 = 22050 samples per beat, over 96 ticks
    assert_eq!(t.samples_per_beat, 22050 * 65536);
    assert_eq!(t.samples_per_tick, 22050 * 65536 / 96);
    assert_eq!(t.tick_to_sample(96), 22050);
}

#[test]
fn loop_wraparound_stays_inside_region() {
    let mut t = Transport::new(44100);
    // one quarter note at 96 ppq and 120 bpm: ticks 0..96 = samples 0..22050
    t.set_loop(true, 0, 96);
    t.play();
    t.advance(22100);
    assert!(t.position < 22050);
    assert_eq!(t.position, 50);
    // advancing again keeps wrapping rather than growing unbounded
    t.advance(44100);
    assert!(t.position < 22050);
}

#[test]
fn invalid_loop_region_is_a_no_op() {
    let mut t = Transport::new(44100);
    t.set_loop(true, 96, 96); // empty region
    t.play();
    t.advance(30000);
    assert_eq!(t.position, 30000);
}

#[test]
fn advance_only_while_playing() {
    let mut t = Transport::new(44100);
    t.advance(512);
    assert_eq!(t.position, 0);
    t.play();
    t.advance(512);
    assert_eq!(t.position, 512);
    t.pause();
    t.advance(512);
    assert_eq!(t.position, 512);
    assert_eq!(t.state, PlayState::Paused);
}

#[test]
fn stop_rewinds_pause_preserves() {
    let mut t = Transport::new(48000);
    t.play();
    t.advance(1000);
    t.pause();
    assert_eq!(t.position, 1000);
    t.stop();
    assert_eq!(t.position, 0);
    assert_eq!(t.state, PlayState::Stopped);
}

#[test]
fn tempo_change_rederives_timing() {
    let mut t = Transport::new(44100);
    t.set_tempo(60 * 65536);
    assert_eq!(t.samples_per_beat, 44100i64 * 65536);
    // clamping below one bpm
    t.set_tempo(0);
    assert_eq!(t.bpm, 65536);
}

#[test]
fn position_queries_are_ratios_of_the_counter() {
    let mut t = Transport::new(44100);
    t.play();
    t.advance(44100);
    assert_eq!(t.position_seconds(), 65536); // one second in Q16
    assert_eq!(t.position_ticks(), 44100 * 65536 / (22050 * 65536 / 96));
}
