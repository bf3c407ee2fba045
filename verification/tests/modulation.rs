use synth_core::fixed::UNIT;
use synth_core::glide::Glide;
use synth_core::modulator::{modulation, Modulator};

#[test]
fn glide_steps_toward_the_target() {
    let mut g = Glide::new(440 * UNIT);
    g.set_target(880 * UNIT);
    let first = g.next(100);
    assert_eq!(first, 440 * UNIT + (440 * UNIT) / 100);
    let second = g.next(100);
    assert!(first < second && second < 880 * UNIT);
}

#[test]
fn zero_glide_snaps_immediately() {
    let mut g = Glide::new(440 * UNIT);
    g.set_target(220 * UNIT);
    assert_eq!(g.next(0), 220 * UNIT);
}

#[test]
fn glide_reaches_the_target_and_rests_there() {
    let mut g = Glide::new(440 * UNIT);
    g.set_target(660 * UNIT);
    let mut f = 0i64;
    for _ in 0..10000 {
        f = g.next(100);
    }
    assert_eq!(f, 660 * UNIT);
    assert_eq!(g.next(100), 660 * UNIT);
}

#[test]
fn glide_descends_as_well() {
    let mut g = Glide::new(880 * UNIT);
    g.set_target(440 * UNIT);
    let mut last = 880 * UNIT;
    for _ in 0..10000 {
        let f = g.next(50);
        assert!(f <= last);
        last = f;
    }
    assert_eq!(last, 440 * UNIT);
}

#[test]
fn vibrato_with_zero_depth_contributes_exactly_nothing() {
    let mut m = Modulator::new();
    for _ in 0..1000 {
        assert_eq!(modulation(&mut m, 5 * UNIT, 0, 44100), 0);
    }
}

#[test]
fn vibrato_offset_stays_within_its_depth_and_oscillates() {
    let mut m = Modulator::new();
    let depth = 3 * UNIT;
    let mut min = i64::MAX;
    let mut max = i64::MIN;
    for _ in 0..44100 {
        let off = modulation(&mut m, 5 * UNIT, depth, 44100);
        assert!((-depth..=depth).contains(&off));
        min = min.min(off);
        max = max.max(off);
    }
    assert!(max > 2 * UNIT, "vibrato never rose: {max}");
    assert!(min < -2 * UNIT, "vibrato never fell: {min}");
}
