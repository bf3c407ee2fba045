use synth_core::filter::{LowPassFilter, Q_MAX, Q_MIN};
use synth_core::fixed::{SAT, UNIT};
use synth_core::osc::FREQ_MAX;

#[test]
fn impulse_response_stays_bounded_across_the_parameter_sweep() {
    // Cutoff swept across (0, 0.499 * fs] and resonance across its whole
    // admissible band: the impulse response never grows past the
    // saturation bound over ten thousand samples.
    let fs = 44100i64;
    let cutoffs = [
        UNIT / 10,
        20 * UNIT,
        200 * UNIT,
        1000 * UNIT,
        5000 * UNIT,
        11025 * UNIT,
        22005 * UNIT,
    ];
    let qs = [Q_MIN, UNIT / 10, 46341, UNIT, 4 * UNIT, Q_MAX];
    for &cutoff in &cutoffs {
        assert!(cutoff <= FREQ_MAX);
        for &q in &qs {
            let mut f = LowPassFilter::new(fs);
            for t in 0..10000usize {
                let x = if t == 0 { SAT } else { 0 };
                let y = f.filter_sample(x, cutoff, q);
                assert!(
                    (-SAT..=SAT).contains(&y),
                    "cutoff {cutoff}, q {q}, sample {t}: {y}"
                );
            }
        }
    }
}

#[test]
fn open_filter_passes_most_of_a_low_tone() {
    // A fully open filter (cutoff near Nyquist) barely touches a slow ramp.
    let fs = 44100i64;
    let mut f = LowPassFilter::new(fs);
    let mut y = 0i64;
    for _ in 0..500 {
        y = f.filter_sample(UNIT / 2, 22000 * UNIT, 46341);
    }
    let ratio = y as f64 / (UNIT / 2) as f64;
    assert!((0.9..=1.1).contains(&ratio), "pass-band gain {ratio}");
}

#[test]
fn closed_filter_mutes_an_alternating_tone() {
    // A nearly closed filter kills a Nyquist-rate alternation.
    let fs = 44100i64;
    let mut f = LowPassFilter::new(fs);
    let mut peak = 0i64;
    for t in 0..2000usize {
        let x = if t % 2 == 0 { UNIT / 2 } else { -UNIT / 2 };
        let y = f.filter_sample(x, 20 * UNIT, 46341);
        if t > 500 {
            peak = peak.max(y.abs());
        }
    }
    assert!(peak < UNIT / 50, "stop-band peak {peak}");
}

#[test]
fn coefficients_follow_parameter_changes() {
    // The cache tracks the most recently seen pair: after a change the
    // filter behaves like a freshly derived one.
    let fs = 44100i64;
    let mut a = LowPassFilter::new(fs);
    let mut b = LowPassFilter::new(fs);
    // Warm `a` up at one setting, then switch both to another; from equal
    // state they must agree exactly.
    for _ in 0..10 {
        a.filter_sample(0, 500 * UNIT, UNIT / 2);
    }
    assert_eq!(a.z1, 0);
    assert_eq!(a.z2, 0);
    for t in 0..100i64 {
        let x = (t % 7 - 3) * 1000;
        let ya = a.filter_sample(x, 3000 * UNIT, UNIT);
        let yb = b.filter_sample(x, 3000 * UNIT, UNIT);
        assert_eq!(ya, yb);
    }
    assert_eq!(a.last_cutoff, 3000 * UNIT);
    assert_eq!(a.last_q, UNIT);
}
