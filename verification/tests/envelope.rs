use synth_core::envelope::{Envelope, EnvParams, GateState, ENV_ONE};

fn run(env: &mut Envelope, gate: bool, steps: usize, p: &EnvParams) -> i64 {
    let mut level = 0;
    for _ in 0..steps {
        level = env.step(gate, p);
    }
    level
}

#[test]
fn idle_stays_silent_without_gate() {
    let p = EnvParams { attack: 100, decay: 100, sustain: ENV_ONE / 2, release: 100 };
    let mut e = Envelope::new();
    let level = run(&mut e, false, 1000, &p);
    assert_eq!(level, 0);
    assert!(e.state.eq_state(&GateState::Idle));
}

#[test]
fn zero_attack_reaches_full_scale_in_one_sample() {
    let p = EnvParams { attack: 0, decay: 100, sustain: ENV_ONE / 2, release: 100 };
    let mut e = Envelope::new();
    let level = e.step(true, &p);
    assert_eq!(level, ENV_ONE);
    assert!(e.state.eq_state(&GateState::Decay));
}

#[test]
fn zero_release_reaches_silence_in_one_sample() {
    let p = EnvParams { attack: 0, decay: 0, sustain: ENV_ONE / 2, release: 0 };
    let mut e = Envelope::new();
    e.step(true, &p);
    e.step(true, &p);
    let level = e.step(false, &p);
    assert_eq!(level, 0);
    assert!(e.state.eq_state(&GateState::Idle));
}

#[test]
fn attack_ramp_duration_matches_sample_count() {
    let p = EnvParams { attack: 441, decay: 4410, sustain: ENV_ONE / 2, release: 100 };
    let mut e = Envelope::new();
    let mut reached_at = 0usize;
    for t in 1..2000usize {
        let level = e.step(true, &p);
        if level == ENV_ONE {
            reached_at = t;
            break;
        }
    }
    assert!(reached_at >= 441, "full scale too early: {reached_at}");
    assert!(reached_at <= 443, "full scale too late: {reached_at}");
}

#[test]
fn level_always_within_unit_for_any_gate_pattern() {
    let p = EnvParams { attack: 3, decay: 5, sustain: ENV_ONE / 3, release: 2 };
    let mut e = Envelope::new();
    for t in 0..5000usize {
        let gate = (t / 7) % 3 != 0;
        let level = e.step(gate, &p);
        assert!((0..=ENV_ONE).contains(&level));
    }
}

#[test]
fn retrigger_from_release_restarts_attack_from_current_level() {
    let p = EnvParams { attack: 1000, decay: 1000, sustain: ENV_ONE / 2, release: 10000 };
    let mut e = Envelope::new();
    run(&mut e, true, 3000, &p);
    run(&mut e, false, 100, &p);
    assert!(e.state.eq_state(&GateState::Release));
    let before = e.level;
    assert!(before > 0);
    e.step(true, &p);
    assert!(e.state.eq_state(&GateState::Attack) || e.state.eq_state(&GateState::Decay));
    assert!(e.level >= before);
}

#[test]
fn held_note_adsr_timeline() {
    // A 10 ms attack, 100 ms decay to a 0.7 sustain and 200 ms release at
    // 44.1 kHz: full scale by ~441 samples, settled on sustain during the
    // hold, silent within ~6200 samples of the key falling (the release
    // ramp runs at full-scale rate from the 0.7 level).
    let fs = 44100i64;
    let sustain = (ENV_ONE as f64 * 0.7) as i64;
    let p = EnvParams {
        attack: fs * 10 / 1000,
        decay: fs * 100 / 1000,
        sustain,
        release: fs * 200 / 1000,
    };
    let mut e = Envelope::new();
    let hold = (fs / 2) as usize;
    let mut full_at = None;
    let mut level = 0i64;
    for t in 0..hold {
        level = e.step(true, &p);
        if full_at.is_none() && level == ENV_ONE {
            full_at = Some(t);
        }
        assert!((0..=ENV_ONE).contains(&level));
    }
    let full_at = full_at.expect("attack never completed");
    assert!((440..=445).contains(&full_at), "full scale at {full_at}");
    // By the end of the half-second hold the envelope sits on the sustain.
    assert_eq!(level, sustain);
    // Release: silent within 0.7 * release samples (plus slack).
    let mut silent_at = None;
    for t in 0..20000usize {
        level = e.step(false, &p);
        if level == 0 {
            silent_at = Some(t);
            break;
        }
    }
    let silent_at = silent_at.expect("release never completed");
    assert!(silent_at <= 6200, "silent only at {silent_at}");
    assert!(silent_at >= 6000, "silent too early at {silent_at}");
}
