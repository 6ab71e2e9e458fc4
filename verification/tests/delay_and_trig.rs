use dawg_audio_dsp::delay::DelayLine;
use dawg_audio_dsp::trig::pan_gains;

#[test]
fn write_then_read_at_zero_returns_value() {
    let mut d = DelayLine::new(32);
    d.write(1234);
    assert_eq!(d.read_at(0), 1234);
}

#[test]
fn value_retained_under_later_writes() {
    let mut d = DelayLine::new(32);
    d.write(777);
    for i in 0..10 {
        d.write(i);
    }
    assert_eq!(d.read_at(10), 777);
}

#[test]
fn capacity_is_clamped_to_sixteen() {
    let d = DelayLine::new(3);
    assert_eq!(d.capacity(), 16);
    let d2 = DelayLine::new(100);
    assert_eq!(d2.capacity(), 100);
}

#[test]
fn out_of_range_offset_wraps() {
    let mut d = DelayLine::new(16);
    d.write(42);
    // offset 16 wraps to offset 0 on a 16-slot line
    assert_eq!(d.read_at(16), d.read_at(0));
}

#[test]
fn interpolated_read_at_integer_offset_equals_read_at() {
    let mut d = DelayLine::new(32);
    for i in 0..20 {
        d.write(i * 1000);
    }
    for k in 0..8u32 {
        let q = (k as i64) * 65536; // integer delay in Q16
        assert_eq!(d.read_interpolated(q), d.read_at(k as usize));
    }
}

#[test]
fn interpolated_read_blends_between_slots() {
    let mut d = DelayLine::new(32);
    for _ in 0..32 {
        d.write(0);
    }
    d.write(0);      // will be slot 1 after next write
    d.write(65536);  // slot 0
    // halfway between slot 0 (65536) and slot 1 (0)
    assert_eq!(d.read_interpolated(32768), 65536 + (32768 * (0 - 65536) / 65536));
}

#[test]
fn reset_clears_the_line() {
    let mut d = DelayLine::new(16);
    for i in 0..16 {
        d.write(i + 1);
    }
    d.reset();
    for k in 0..16 {
        assert_eq!(d.read_at(k), 0);
    }
}

#[test]
fn pan_gains_equal_at_center() {
    let (gl, gr) = pan_gains(0);
    assert_eq!(gl, gr);
    assert_eq!(gl, 46260);
    // constant power: gl^2 + gr^2 is one (in Q32) to within 1/64
    let sum_sq = gl * gl + gr * gr;
    let one_sq: i64 = 65536 * 65536;
    assert!((one_sq - sum_sq).abs() <= one_sq / 64);
}

#[test]
fn pan_gains_at_extremes() {
    let (gl, gr) = pan_gains(-65536); // hard left
    assert!(gl > 60000);
    assert_eq!(gr, 0);
    let (gl2, gr2) = pan_gains(65536); // hard right
    assert_eq!(gl2, 0);
    assert!(gr2 > 60000);
}

#[test]
fn pan_gains_hold_constant_power_across_the_field() {
    // sweep the whole pan range: the squares always sum to one within 1/64
    let one_sq: i64 = 65536 * 65536;
    let mut pan: i64 = -65536;
    while pan <= 65536 {
        let (gl, gr) = pan_gains(pan);
        let sum_sq = gl * gl + gr * gr;
        assert!((one_sq - sum_sq).abs() <= one_sq / 64, "pan {}", pan);
        pan += 1024;
    }
}
