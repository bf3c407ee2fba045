use synth_core::engine::{cc_value_at, Engine};
use synth_core::fixed::{SAT, UNIT};
use synth_core::osc::{note_freq_at, phase_step, wave_at, Waveform};
use synth_core::voice::Voice;

#[test]
fn idle_engine_renders_silence() {
    let mut e = Engine::new(44100);
    let (buf, _) = e.render(256);
    assert_eq!(buf.len(), 256);
    assert!(buf.iter().all(|&s| s == 0));
}

#[test]
fn held_note_produces_sound_and_stays_bounded() {
    let mut e = Engine::new(44100);
    e.note_on(69);
    let (buf, _) = e.render(4096);
    assert!(buf.iter().any(|&s| s != 0), "a held note rendered pure silence");
    assert!(buf.iter().all(|&s| (-SAT..=SAT).contains(&s)));
}

#[test]
fn polyphonic_voice_sums_three_sine_accumulators_divided_by_three() {
    // Three held notes: the voice's output is exactly the sum of three
    // independent sine phase accumulators at their equal-tempered
    // frequencies, each sample divided by the count of three.
    let fs = 44100i64;
    let notes = [60u8, 64, 67];
    let freqs: Vec<i64> = notes.iter().map(|&n| note_freq_at((n as i64) * UNIT)).collect();
    let mut v = Voice::new(440 * UNIT);
    let mut phases = [0i64; 3];
    for _ in 0..2000 {
        let got = v.sample_poly(&freqs, &Waveform::Sine, UNIT, fs);
        let mut sum = 0i64;
        for k in 0..3 {
            phases[k] = phase_step(phases[k], freqs[k], fs);
            sum += wave_at(&Waveform::Sine, phases[k]);
        }
        assert_eq!(got, sum / 3);
    }
}

#[test]
fn poly_mode_engine_sounds_all_held_notes() {
    let mut e = Engine::new(44100);
    e.set_poly_mode(true);
    e.note_on(60);
    e.note_on(64);
    e.note_on(67);
    let (buf, _) = e.render(2048);
    assert!(buf.iter().any(|&s| s != 0));
    assert!(buf.iter().all(|&s| (-SAT..=SAT).contains(&s)));
}

#[test]
fn midi_note_on_and_off_drive_the_note_stack() {
    let mut e = Engine::new(44100);
    e.handle_midi_message(0x93, 60, 100);
    assert!(e.params.notes.any_held());
    assert_eq!(e.params.notes.last_note(), 60);
    // A Note On at velocity zero is a release.
    e.handle_midi_message(0x93, 60, 0);
    assert!(!e.params.notes.any_held());
    e.handle_midi_message(0x90, 64, 1);
    e.handle_midi_message(0x80, 64, 0);
    assert!(!e.params.notes.any_held());
}

#[test]
fn midi_control_change_lands_on_the_mapped_parameter() {
    let mut e = Engine::new(44100);
    e.handle_midi_message(0xB0, 31, 99);
    assert_eq!(e.params.attack, 99);
    e.handle_midi_message(0xB0, 33, 12);
    assert_eq!(e.params.decay, 12);
    e.handle_midi_message(0xB0, 20, 64);
    assert_eq!(e.params.cutoff, 64);
    e.handle_midi_message(0xB0, 25, 77);
    assert_eq!(e.params.delay_time, 77);
    // An unmapped controller changes nothing.
    let before_sustain = e.params.sustain;
    e.handle_midi_message(0xB0, 119, 5);
    assert_eq!(e.params.sustain, before_sustain);
    // Octave knob: full turn is three octaves up, zero is three down.
    e.handle_midi_message(0xB0, 11, 127);
    assert_eq!(e.params.v0_octave, 3);
    e.handle_midi_message(0xB0, 11, 0);
    assert_eq!(e.params.v0_octave, -3);
    // Semitone knob spans seven either way.
    e.handle_midi_message(0xB0, 12, 127);
    assert_eq!(e.params.v0_semitone, 7);
    // Detune knob spans half a semitone either way.
    e.handle_midi_message(0xB0, 41, 0);
    assert_eq!(e.params.v0_detune as i64, -UNIT / 2);
    e.handle_midi_message(0xB0, 41, 127);
    assert_eq!(e.params.v0_detune, i16::MAX);
}

#[test]
fn unrelated_midi_status_bytes_change_nothing() {
    let mut e = Engine::new(44100);
    let attack = e.params.attack;
    e.handle_midi_message(0xE0, 10, 20);
    e.handle_midi_message(0xA0, 60, 20);
    assert_eq!(e.params.attack, attack);
    assert!(!e.params.notes.any_held());
}

#[test]
fn outbound_controller_value_rounds_and_clamps() {
    assert_eq!(cc_value_at(0), 0);
    assert_eq!(cc_value_at(UNIT), 127);
    assert_eq!(cc_value_at(UNIT / 2), 64);
    assert_eq!(cc_value_at(-5 * UNIT), 0);
    assert_eq!(cc_value_at(3 * UNIT), 127);
    assert_eq!(cc_value_at(UNIT / 127), 1);
}

#[test]
fn outbound_message_carries_the_rounded_value() {
    let (status, controller, value) = Engine::cc_message(20, UNIT / 4);
    assert_eq!(status, 0xB0);
    assert_eq!(controller, 20);
    assert_eq!(value, 32);
}

#[test]
fn rendering_is_deterministic() {
    let run = || {
        let mut e = Engine::new(48000);
        e.note_on(57);
        e.control_change(25, 90);
        e.control_change(23, 70);
        let (buf, _) = e.render(3000);
        buf
    };
    assert_eq!(run(), run());
}
