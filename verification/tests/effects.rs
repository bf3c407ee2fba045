use synth_core::chorus::Chorus;
use synth_core::delay::Delay;
use synth_core::fixed::{SAT, UNIT};
use synth_core::reverb::Reverb;

fn tone(n: usize) -> Vec<i64> {
    (0..n).map(|t| (((t * 37) % 2000) as i64 - 1000) * 30).collect()
}

#[test]
fn delay_with_zero_feedback_and_full_mix_is_a_pure_shift() {
    let k = 25usize;
    let mut d = Delay::new(100);
    let input = tone(400);
    let mut output = Vec::new();
    for &x in &input {
        output.push(d.process_sample(x, (k as i64) * UNIT, 0, UNIT));
    }
    for t in k..input.len() {
        assert_eq!(output[t], input[t - k], "at sample {t}");
    }
    // Before the delay fills, the line is silent.
    for t in 1..k {
        assert_eq!(output[t], 0);
    }
}

#[test]
fn delay_runs_are_deterministic() {
    let input = tone(300);
    let mut d1 = Delay::new(64);
    let mut d2 = Delay::new(64);
    let run = |d: &mut Delay| -> Vec<i64> {
        input.iter().map(|&x| d.process_sample(x, 10 * UNIT + UNIT / 3, 30000, UNIT / 2)).collect()
    };
    assert_eq!(run(&mut d1), run(&mut d2));
}

#[test]
fn delay_mix_zero_passes_dry_signal() {
    let mut d = Delay::new(64);
    let input = tone(100);
    for &x in &input {
        assert_eq!(d.process_sample(x, 20 * UNIT, 40000, 0), x);
    }
}

#[test]
fn delay_feedback_output_stays_bounded() {
    let mut d = Delay::new(32);
    for t in 0..20000usize {
        let x = if t == 0 { SAT } else { 0 };
        let y = d.process_sample(x, 4 * UNIT, 64225, UNIT);
        assert!((-SAT..=SAT).contains(&y));
    }
}

#[test]
fn chorus_with_zero_variation_is_a_plain_fixed_delay() {
    // With variation zero the LFO contributes nothing: a chorus tracks a
    // plain delay at the base offset sample for sample, whatever its LFO
    // rate does meanwhile.
    let input = tone(500);
    let base = 12 * UNIT;
    let mut c = Chorus::new(64);
    let mut d = Delay::new(64);
    let fs = 44100;
    for &x in &input {
        let a = c.process_sample(x, base, 0, 20000, UNIT / 2, 5 * UNIT, fs);
        let b = d.process_sample(x, base, 20000, UNIT / 2);
        assert_eq!(a, b);
    }
}

#[test]
fn chorus_with_variation_departs_from_the_fixed_delay() {
    let input = tone(2000);
    let base = 12 * UNIT;
    let fs = 44100;
    let mut wobbling = Chorus::new(64);
    let mut still = Chorus::new(64);
    let mut differed = false;
    for &x in &input {
        let a = wobbling.process_sample(x, base, 8 * UNIT, 20000, UNIT / 2, 5 * UNIT, fs);
        let b = still.process_sample(x, base, 0, 20000, UNIT / 2, 5 * UNIT, fs);
        if a != b {
            differed = true;
        }
    }
    assert!(differed, "the LFO never moved the read tap");
}

#[test]
fn reverb_fully_dry_mix_passes_input() {
    let mut r = Reverb::new(44100);
    let input = tone(300);
    for &x in &input {
        assert_eq!(r.process_sample(x, 44100, 0), x);
    }
}

#[test]
fn reverb_tail_rings_then_stays_bounded() {
    let mut r = Reverb::new(44100);
    let mut heard_tail = false;
    for t in 0..30000usize {
        let x = if t < 10 { SAT / 2 } else { 0 };
        let y = r.process_sample(x, 44100, UNIT);
        assert!((-SAT..=SAT).contains(&y));
        if t > 3000 && y != 0 {
            heard_tail = true;
        }
    }
    assert!(heard_tail, "the reverb produced no late reflections");
}

#[test]
fn reverb_zero_decay_leaves_no_comb_tail() {
    // With a zero decay the comb feedback is zero: after the last early
    // reflection has drained (taps reach to 5678 plus the pre-delay), the
    // wet path carries only what the all-pass lines still hold.
    let mut r = Reverb::new(44100);
    let mut y = 0i64;
    for t in 0..40000usize {
        let x = if t == 0 { SAT / 2 } else { 0 };
        y = r.process_sample(x, 0, UNIT);
        let _ = y;
    }
    assert_eq!(y, 0);
}
