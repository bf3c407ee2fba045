use synth_core::fixed::UNIT;
use synth_core::osc::{note_freq_at, phase_step, wave_at, Waveform, PHASE_HALF, PHASE_ONE};

fn hz(freq_fx: i64) -> f64 {
    freq_fx as f64 / UNIT as f64
}

#[test]
fn concert_pitch_is_exact() {
    assert_eq!(note_freq_at(69 * UNIT), 440 * UNIT);
    assert_eq!(note_freq_at(81 * UNIT), 880 * UNIT);
    assert_eq!(note_freq_at(57 * UNIT), 220 * UNIT);
}

#[test]
fn equal_tempered_tuning_across_the_keyboard() {
    for note in 1..=127i64 {
        let expect = 440.0 * 2f64.powf((note as f64 - 69.0) / 12.0);
        let got = hz(note_freq_at(note * UNIT));
        let rel = (got - expect).abs() / expect;
        assert!(rel < 1e-4, "note {note}: got {got}, expected {expect}");
    }
}

#[test]
fn fractional_notes_interpolate_between_semitones() {
    let lo = note_freq_at(60 * UNIT);
    let hi = note_freq_at(61 * UNIT);
    let mid = note_freq_at(60 * UNIT + UNIT / 2);
    assert!(lo < mid && mid < hi);
    assert_eq!(mid, lo + (hi - lo) / 2);
}

#[test]
fn non_positive_notes_are_silent() {
    assert_eq!(note_freq_at(0), 0);
    assert_eq!(note_freq_at(-5 * UNIT), 0);
}

#[test]
fn phase_accumulates_and_wraps() {
    let fs = 44100i64;
    let freq = 440 * UNIT;
    let inc = ((freq as u64) * 65536 / fs as u64) as i64;
    assert_eq!(phase_step(0, freq, fs), inc);
    assert_eq!(inc, 42852281);
    let near_wrap = PHASE_ONE - 1;
    let wrapped = phase_step(near_wrap, freq, fs);
    assert_eq!(wrapped, (near_wrap + inc) % PHASE_ONE);
    assert!((0..PHASE_ONE).contains(&wrapped));
    // One whole second of samples comes back to (nearly) where it started:
    // 440 whole cycles, less one truncation slip per sample at most.
    let mut p = 0i64;
    for _ in 0..fs {
        p = phase_step(p, freq, fs);
    }
    let dist = p.min(PHASE_ONE - p);
    assert!(dist <= fs, "drift {dist} after one second");
}

#[test]
fn sawtooth_sweeps_one_unit_per_cycle() {
    assert_eq!(wave_at(&Waveform::Sawtooth, 0), -UNIT);
    assert_eq!(wave_at(&Waveform::Sawtooth, PHASE_HALF), 0);
    assert_eq!(wave_at(&Waveform::Sawtooth, PHASE_ONE - 1), UNIT - 1);
}

#[test]
fn triangle_peaks_at_the_cycle_ends() {
    assert_eq!(wave_at(&Waveform::Triangle, 0), UNIT);
    assert_eq!(wave_at(&Waveform::Triangle, PHASE_HALF), -UNIT);
    assert_eq!(wave_at(&Waveform::Triangle, PHASE_ONE / 4), 0);
}

#[test]
fn sine_hits_zero_crossings_and_peaks() {
    assert_eq!(wave_at(&Waveform::Sine, 0), 0);
    assert_eq!(wave_at(&Waveform::Sine, PHASE_ONE / 4), UNIT);
    assert_eq!(wave_at(&Waveform::Sine, PHASE_HALF), 0);
    assert_eq!(wave_at(&Waveform::Sine, 3 * (PHASE_ONE / 4)), -UNIT);
    // The parabolic shape tracks the transcendental sine within 6%.
    for k in 0..64i64 {
        let p = k * (PHASE_ONE / 64);
        let got = wave_at(&Waveform::Sine, p) as f64 / UNIT as f64;
        let expect = (2.0 * std::f64::consts::PI * p as f64 / PHASE_ONE as f64).sin();
        assert!((got - expect).abs() < 0.06, "phase {k}/64: {got} vs {expect}");
    }
}

#[test]
fn square_follows_the_sine_sign() {
    assert_eq!(wave_at(&Waveform::Square, 0), -UNIT);
    assert_eq!(wave_at(&Waveform::Square, PHASE_ONE / 4), UNIT);
    assert_eq!(wave_at(&Waveform::Square, PHASE_HALF + 1000), -UNIT);
}

#[test]
fn every_waveform_stays_within_one_unit() {
    for w in [Waveform::Sine, Waveform::Square, Waveform::Sawtooth, Waveform::Triangle] {
        for k in 0..256i64 {
            let p = k * (PHASE_ONE / 256);
            let s = wave_at(&w, p);
            assert!((-UNIT..=UNIT).contains(&s));
        }
    }
}
