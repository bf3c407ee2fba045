//! Oscillator primitives: equal-tempered tuning, the phase accumulator and
//! the four waveforms.
//!
//! A phase is a fixed-point fraction of one cycle in `[0, PHASE_ONE)`; a
//! frequency is Q16.16 hertz. The sine shape is the standard piecewise
//! parabola through the zero crossings and the peaks, kept exact in the
//! contracts by `sine_shape`.

use vstd::prelude::*;
use crate::fixed::{UNIT, div_tz, div_trunc};

verus! {

/// One full oscillator cycle of phase, as a fixed-point fraction.
pub const PHASE_ONE: i64 = 0x1_0000_0000;

/// Half a cycle.
pub const PHASE_HALF: i64 = 0x8000_0000;

/// The highest frequency the tuner can produce (Q16.16 hertz).
pub const FREQ_MAX: i64 = 1011473 * 0x40000;

/// The highest note number the tuner accepts (well above the MIDI range
/// even after octave and semitone shifts).
pub const MAX_NOTE: i64 = 200;

/// The waveform a voice produces.
#[derive(Clone, Copy)]
pub enum Waveform {
    Sine,
    Square,
    Sawtooth,
    Triangle,
}

/// The Q16.16 frequency of MIDI notes 0 through 11; each further octave
/// doubles. Entry 9 is 13.75 Hz, five octaves below concert A (440 Hz).
pub open spec fn base_freq(r: int) -> int {
    if r == 0 {
        535809
    } else if r == 1 {
        567670
    } else if r == 2 {
        601425
    } else if r == 3 {
        637188
    } else if r == 4 {
        675077
    } else if r == 5 {
        715219
    } else if r == 6 {
        757749
    } else if r == 7 {
        802807
    } else if r == 8 {
        850544
    } else if r == 9 {
        901120
    } else if r == 10 {
        954703
    } else {
        1011473
    }
}

/// The Q16.16 frequency of the integer MIDI note `n`: the base octave entry
/// shifted up by the octave.
pub open spec fn int_note_freq(n: int) -> int
    recommends
        0 <= n <= MAX_NOTE + 1,
{
    base_freq(n % 12) * vstd::arithmetic::power2::pow2((n / 12) as nat)
}

/// The Q16.16 frequency of a fixed-point note number: zero and below are
/// silent, otherwise the two neighbouring semitones are interpolated
/// linearly. `note` is the MIDI note number times `UNIT`.
pub open spec fn note_freq(note: int) -> int {
    if note <= 0 {
        0
    } else {
        let n = note / (UNIT as int);
        let frac = note - n * UNIT;
        int_note_freq(n) + div_tz(frac * (int_note_freq(n + 1) - int_note_freq(n)), UNIT as int)
    }
}

/// The base-octave frequency of semitone `r` (callers pass `n % 12`).
fn base_freq_at(r: u64) -> (f: i64)
    requires
        r < 12,
    ensures
        f == base_freq(r as int),
{
    match r {
        0 => 535809,
        1 => 567670,
        2 => 601425,
        3 => 637188,
        4 => 675077,
        5 => 715219,
        6 => 757749,
        7 => 802807,
        8 => 850544,
        9 => 901120,
        10 => 954703,
        _ => 1011473,
    }
}

/// Up to sixteen octaves, the octave multiplier stays within `2^16`.
proof fn lemma_pow2_le16(e: nat)
    requires
        e <= 16,
    ensures
        1 <= vstd::arithmetic::power2::pow2(e) <= 0x10000,
{
    vstd::arithmetic::power2::lemma_pow2_pos(e);
    vstd::arithmetic::power2::lemma2_to64();
    if e < 16 {
        vstd::arithmetic::power2::lemma_pow2_strictly_increases(e, 16);
    }
}

/// Frequencies in the base octave lie between 8 Hz and 16 Hz.
proof fn lemma_base_freq_range(r: int)
    ensures
        535809 <= base_freq(r) <= 1011473,
{
}

/// The frequency of the integer note `n`.
fn int_note_freq_at(n: i64) -> (f: i64)
    requires
        0 <= n <= MAX_NOTE + 1,
    ensures
        f == int_note_freq(n as int),
        535809 <= f,
        f <= 1011473 * 0x20000,
{
    let nn = n as u64;
    let r = nn % 12;
    let oct = nn / 12;
    let base = base_freq_at(r);
    proof {
        lemma_base_freq_range(r as int);
        assert(oct <= 16) by {
            vstd::arithmetic::div_mod::lemma_div_is_ordered(n as int, MAX_NOTE + 1, 12);
        }
        vstd::arithmetic::power2::lemma2_to64();
    }
    let mut shift: u64 = 0;
    let mut f: i64 = base;
    while shift < oct
        invariant
            shift <= oct,
            oct <= 16,
            535809 <= base <= 1011473,
            f == base * vstd::arithmetic::power2::pow2(shift as nat),
            535809 <= f <= 1011473 * 0x10000,
        decreases oct - shift,
    {
        proof {
            let ghost p_prev = vstd::arithmetic::power2::pow2(shift as nat);
            let ghost p_next = vstd::arithmetic::power2::pow2((shift + 1) as nat);
            vstd::arithmetic::power2::lemma_pow2_unfold((shift + 1) as nat);
            lemma_pow2_le16((shift + 1) as nat);
            assert(base * p_next == 2 * (base * p_prev) && base * p_next <= 1011473 * 0x10000
                && base <= base * p_next) by (nonlinear_arith)
                requires
                    535809 <= base <= 1011473,
                    p_next == 2 * p_prev,
                    1 <= p_next <= 0x10000,
                    1 <= p_prev,
            ;
        }
        f = f * 2;
        shift = shift + 1;
    }
    proof {
        lemma_pow2_le16(oct as nat);
    }
    f
}

/// The frequency of a fixed-point note number; notes at or below zero are
/// silent, so a missing note can never feed a negative frequency onward.
pub fn note_freq_at(note: i64) -> (f: i64)
    requires
        note <= MAX_NOTE * UNIT,
    ensures
        f == note_freq(note as int),
        0 <= f <= 1011473 * 0x40000,
{
    if note <= 0 {
        return 0;
    }
    let nn = ((note as u64) / (UNIT as u64)) as i64;
    let frac = note - nn * UNIT;
    proof {
        vstd::arithmetic::div_mod::lemma_fundamental_div_mod(note as int, UNIT as int);
        vstd::arithmetic::div_mod::lemma_mod_bound(note as int, UNIT as int);
        vstd::arithmetic::div_mod::lemma_div_is_ordered(note as int, MAX_NOTE * UNIT, UNIT as int);
        vstd::arithmetic::div_mod::lemma_div_pos_is_pos(note as int, UNIT as int);
    }
    let f0 = int_note_freq_at(nn);
    let f1 = int_note_freq_at(nn + 1);
    let diff = f1 - f0;
    proof {
        let ghost m: int = if diff >= 0 { diff as int } else { -(diff as int) };
        assert(-(m * UNIT) <= (frac as int) * (diff as int) <= m * UNIT
            && -0x4000_0000_0000_0000 < (frac as int) * (diff as int) < 0x4000_0000_0000_0000)
            by (nonlinear_arith)
            requires
                0 <= frac < UNIT,
                -m <= diff <= m,
                m <= 1011473 * 0x20000,
                UNIT == 65536,
        ;
        crate::fixed::lemma_mul_fx_unit_bound(diff as int, frac as int, m);
        assert((frac as int) * (diff as int) == (diff as int) * (frac as int));
    }
    let adj = div_trunc(frac * diff, UNIT);
    f0 + adj
}

/// Advance a phase by one sample of the given frequency and wrap it into
/// `[0, PHASE_ONE)`. The increment is `freq / sample_rate` of a cycle.
pub open spec fn phase_advance(phase: int, freq: int, fs: int) -> int {
    (phase + (freq * 0x10000) / fs) % (PHASE_ONE as int)
}

/// Advance `phase` by one sample of frequency `freq` (Q16.16 hertz) at
/// sample rate `fs`.
pub fn phase_step(phase: i64, freq: i64, fs: i64) -> (p: i64)
    requires
        0 <= phase < PHASE_ONE,
        0 <= freq <= 1011473 * 0x40000,
        0 < fs,
    ensures
        p == phase_advance(phase as int, freq as int, fs as int),
        0 <= p < PHASE_ONE,
{
    proof {
        assert(0 <= freq * 0x10000 <= (1011473int * 0x40000) * 0x10000) by (nonlinear_arith)
            requires
                0 <= freq <= 1011473 * 0x40000,
        ;
    }
    let scaled: u64 = (freq as u64) * 0x10000;
    let inc: u64 = scaled / (fs as u64);
    proof {
        vstd::arithmetic::div_mod::lemma_div_nonincreasing(scaled as int, fs as int);
        vstd::arithmetic::div_mod::lemma_div_pos_is_pos(scaled as int, fs as int);
    }
    let sum: u64 = (phase as u64) + inc;
    let wrapped: u64 = sum % (PHASE_ONE as u64);
    proof {
        vstd::arithmetic::div_mod::lemma_mod_bound(sum as int, PHASE_ONE as int);
    }
    wrapped as i64
}

/// The piecewise-parabola sine shape: one cycle of phase maps to
/// `[-UNIT, UNIT]`, positive on the first half cycle, negative on the
/// second, peaking at the quarter cycles.
pub open spec fn sine_shape(p: int) -> int {
    if p < PHASE_HALF {
        div_tz(16 * (p * (PHASE_HALF - p) / (PHASE_ONE as int)) * UNIT, PHASE_ONE as int)
    } else {
        let q = p - PHASE_HALF;
        -div_tz(16 * (q * (PHASE_HALF - q) / (PHASE_ONE as int)) * UNIT, PHASE_ONE as int)
    }
}

/// The parabola's core product is bounded by a sixteenth of a square cycle.
proof fn lemma_parabola_bound(q: int)
    requires
        0 <= q < PHASE_HALF,
    ensures
        0 <= q * (PHASE_HALF - q) <= (PHASE_ONE as int) * (PHASE_ONE as int) / 16,
{
    assert(0 <= q * (PHASE_HALF - q) <= (PHASE_ONE as int) * (PHASE_ONE as int) / 16)
        by (nonlinear_arith)
        requires
            0 <= q < PHASE_HALF,
            PHASE_HALF == 0x8000_0000,
            PHASE_ONE == 0x1_0000_0000,
    ;
}

/// Evaluate half of the sine parabola: `q` is the offset into a half cycle.
fn half_sine(q: i64) -> (s: i64)
    requires
        0 <= q < PHASE_HALF,
    ensures
        s == div_tz(16 * (q * (PHASE_HALF - q) / (PHASE_ONE as int)) * UNIT, PHASE_ONE as int),
        0 <= s <= UNIT,
{
    proof {
        lemma_parabola_bound(q as int);
        vstd::arithmetic::div_mod::lemma_div_pos_is_pos(q * (PHASE_HALF - q), PHASE_ONE as int);
        vstd::arithmetic::div_mod::lemma_div_is_ordered(
            q * (PHASE_HALF - q),
            (PHASE_ONE as int) * (PHASE_ONE as int) / 16,
            PHASE_ONE as int,
        );
    }
    let core: i64 = ((q as u64) * ((PHASE_HALF - q) as u64) / (PHASE_ONE as u64)) as i64;
    let s = div_trunc(16 * core * UNIT, PHASE_ONE);
    proof {
        crate::fixed::lemma_div_tz_le(16 * (core as int) * UNIT, 16 * (PHASE_ONE as int / 16)
            * UNIT, PHASE_ONE as int);
        vstd::arithmetic::div_mod::lemma_div_multiples_vanish(UNIT as int, PHASE_ONE as int);
    }
    s
}

/// One sample of the chosen waveform at phase `p`, in `[-UNIT, UNIT]`.
pub open spec fn wave_sample(w: Waveform, p: int) -> int {
    match w {
        Waveform::Sine => sine_shape(p),
        Waveform::Square => if sine_shape(p) > 0 {
            UNIT as int
        } else {
            -UNIT as int
        },
        Waveform::Sawtooth => div_tz(2 * p * UNIT, PHASE_ONE as int) - UNIT,
        Waveform::Triangle => {
            let d = if p >= PHASE_HALF {
                p - PHASE_HALF
            } else {
                PHASE_HALF - p
            };
            4 * div_tz(d * UNIT, PHASE_ONE as int) - UNIT
        },
    }
}

/// Every waveform stays within one unit of amplitude.
pub proof fn lemma_wave_sample_bound(w: Waveform, p: int)
    requires
        0 <= p < PHASE_ONE,
    ensures
        -UNIT <= wave_sample(w, p) <= UNIT,
{
    match w {
        Waveform::Sine => {
            lemma_sine_shape_bound(p);
        },
        Waveform::Square => {
        },
        Waveform::Sawtooth => {
            crate::fixed::lemma_div_tz_le(2 * p * UNIT, 2 * (PHASE_ONE as int) * UNIT,
                PHASE_ONE as int);
            vstd::arithmetic::div_mod::lemma_div_multiples_vanish(2 * UNIT, PHASE_ONE as int);
        },
        Waveform::Triangle => {
            let d = if p >= PHASE_HALF {
                p - PHASE_HALF
            } else {
                PHASE_HALF - p
            };
            crate::fixed::lemma_div_tz_le(d * UNIT, PHASE_HALF as int * UNIT, PHASE_ONE as int);
            assert((PHASE_HALF as int * UNIT) == (PHASE_ONE as int) * (UNIT as int / 2));
            vstd::arithmetic::div_mod::lemma_div_multiples_vanish(UNIT as int / 2, PHASE_ONE as int);
        },
    }
}

/// The sine shape stays within one unit of amplitude.
pub proof fn lemma_sine_shape_bound(p: int)
    requires
        0 <= p < PHASE_ONE,
    ensures
        -UNIT <= sine_shape(p) <= UNIT,
{
    let q = if p < PHASE_HALF { p } else { p - PHASE_HALF };
    lemma_parabola_bound(q);
    vstd::arithmetic::div_mod::lemma_div_pos_is_pos(q * (PHASE_HALF - q), PHASE_ONE as int);
    vstd::arithmetic::div_mod::lemma_div_is_ordered(
        q * (PHASE_HALF - q),
        (PHASE_ONE as int) * (PHASE_ONE as int) / 16,
        PHASE_ONE as int,
    );
    let core = q * (PHASE_HALF - q) / (PHASE_ONE as int);
    crate::fixed::lemma_div_tz_le(16 * core * UNIT, 16 * (PHASE_ONE as int / 16) * UNIT,
        PHASE_ONE as int);
    vstd::arithmetic::div_mod::lemma_div_multiples_vanish(UNIT as int, PHASE_ONE as int);
}

/// One sample of waveform `w` at phase `p`.
pub fn wave_at(w: &Waveform, p: i64) -> (s: i64)
    requires
        0 <= p < PHASE_ONE,
    ensures
        s == wave_sample(*w, p as int),
        -UNIT <= s <= UNIT,
{
    match w {
        Waveform::Sine => {
            if p < PHASE_HALF {
                half_sine(p)
            } else {
                -half_sine(p - PHASE_HALF)
            }
        },
        Waveform::Square => {
            let s = if p < PHASE_HALF {
                half_sine(p)
            } else {
                -half_sine(p - PHASE_HALF)
            };
            if s > 0 {
                UNIT
            } else {
                -UNIT
            }
        },
        Waveform::Sawtooth => {
            proof {
                crate::fixed::lemma_div_tz_le(2 * (p as int) * UNIT, 2 * (PHASE_ONE as int)
                    * UNIT, PHASE_ONE as int);
                vstd::arithmetic::div_mod::lemma_div_multiples_vanish(2 * UNIT, PHASE_ONE as int);
            }
            div_trunc(2 * p * UNIT, PHASE_ONE) - UNIT
        },
        Waveform::Triangle => {
            let d = if p >= PHASE_HALF {
                p - PHASE_HALF
            } else {
                PHASE_HALF - p
            };
            proof {
                crate::fixed::lemma_div_tz_le((d as int) * UNIT, PHASE_HALF as int * UNIT,
                    PHASE_ONE as int);
                assert((PHASE_HALF as int * UNIT) == (PHASE_ONE as int) * (UNIT as int / 2));
                vstd::arithmetic::div_mod::lemma_div_multiples_vanish(UNIT as int / 2,
                    PHASE_ONE as int);
            }
            4 * div_trunc(d * UNIT, PHASE_ONE) - UNIT
        },
    }
}

} // verus!
