//! One voice: a glide-smoothed oscillator with a monophonic path and a
//! polyphonic path.
//!
//! In monophonic (legato) mode the voice tracks one target frequency
//! through its glide and a single phase accumulator. In polyphonic mode it
//! runs one independent phase accumulator per held note (up to
//! `POLY_LIMIT`), sums the waveforms and divides by the active count so the
//! mix cannot clip.

use vstd::prelude::*;
use crate::fixed::{UNIT, div_tz, mul_fx, clamp};
use crate::glide::{Glide, glide_step};
use crate::osc::{PHASE_ONE, FREQ_MAX, Waveform, phase_advance, wave_sample};

verus! {

/// How many simultaneous notes the polyphonic path sounds.
pub const POLY_LIMIT: usize = 8;

/// A single sound-generation unit.
pub struct Voice {
    /// Pitch smoothing for the monophonic path.
    pub glide: Glide,
    /// Phase of the monophonic oscillator, in `[0, PHASE_ONE)`.
    pub phase: i64,
    /// One phase per polyphonic note slot, each in `[0, PHASE_ONE)`.
    pub phases: Vec<i64>,
}

/// The sum of the first `k` polyphonic waveform samples, each scaled by the
/// voice level; the phases are the already-advanced ones.
pub open spec fn poly_acc(phases: Seq<i64>, w: Waveform, level: int, k: int) -> int
    decreases k,
{
    if k <= 0 {
        0
    } else {
        poly_acc(phases, w, level, k - 1) + mul_fx(wave_sample(w, phases[k - 1] as int), level)
    }
}

/// Each scaled waveform sample lies in `[-UNIT, UNIT]`, so the sum of `k`
/// of them lies within `k` units.
pub proof fn lemma_poly_acc_bound(phases: Seq<i64>, w: Waveform, level: int, k: int)
    requires
        0 <= level <= UNIT,
        0 <= k <= phases.len(),
        forall|i: int| 0 <= i < phases.len() ==> 0 <= #[trigger] phases[i] < PHASE_ONE,
    ensures
        -(k * UNIT) <= poly_acc(phases, w, level, k) <= k * UNIT,
    decreases k,
{
    if k > 0 {
        lemma_poly_acc_bound(phases, w, level, k - 1);
        crate::osc::lemma_wave_sample_bound(w, phases[k - 1] as int);
        crate::fixed::lemma_mul_fx_unit_bound(
            wave_sample(w, phases[k - 1] as int),
            level,
            UNIT as int,
        );
    }
}

impl Voice {
    /// Every phase is a valid cycle fraction and the glide is well formed.
    pub open spec fn wf(&self) -> bool {
        &&& self.glide.wf()
        &&& 0 <= self.phase < PHASE_ONE
        &&& self.phases@.len() == POLY_LIMIT
        &&& forall|i: int| 0 <= i < POLY_LIMIT ==> 0 <= #[trigger] self.phases@[i] < PHASE_ONE
    }

    /// A fresh voice resting at `start_freq` with all phases at zero.
    pub fn new(start_freq: i64) -> (v: Voice)
        requires
            0 <= start_freq <= FREQ_MAX,
        ensures
            v.wf(),
            v.glide.current == start_freq,
            v.glide.target == start_freq,
            v.phase == 0,
            forall|i: int| 0 <= i < POLY_LIMIT ==> #[trigger] v.phases@[i] == 0,
    {
        let mut phases: Vec<i64> = Vec::new();
        let mut i: usize = 0;
        while i < POLY_LIMIT
            invariant
                i <= POLY_LIMIT,
                phases@.len() == i,
                forall|j: int| 0 <= j < i ==> #[trigger] phases@[j] == 0,
            decreases POLY_LIMIT - i,
        {
            phases.push(0);
            i = i + 1;
        }
        Voice { glide: Glide::new(start_freq), phase: 0, phases }
    }

    /// One monophonic sample: glide toward `target_freq`, add the vibrato
    /// offset (clamped into the tuner's range), advance the phase and sound
    /// the waveform scaled by `level`. The result is pinned exactly and
    /// never exceeds one unit in magnitude.
    pub fn sample_mono(
        &mut self,
        target_freq: i64,
        glide_samples: i64,
        vib_offset: i64,
        wave: &Waveform,
        level: i64,
        fs: i64,
    ) -> (s: i64)
        requires
            old(self).wf(),
            0 <= target_freq <= FREQ_MAX,
            0 <= glide_samples,
            -FREQ_MAX <= vib_offset <= FREQ_MAX,
            0 <= level <= UNIT,
            0 < fs,
        ensures
            final(self).wf(),
            final(self).glide.target == target_freq,
            final(self).glide.current == glide_step(
                old(self).glide.current as int,
                target_freq as int,
                glide_samples as int,
            ),
            final(self).phase == phase_advance(
                old(self).phase as int,
                clamp(final(self).glide.current + vib_offset, 0, FREQ_MAX as int),
                fs as int,
            ),
            final(self).phases == old(self).phases,
            s == mul_fx(wave_sample(*wave, final(self).phase as int), level as int),
            -UNIT <= s <= UNIT,
    {
        self.glide.set_target(target_freq);
        let freq = self.glide.next(glide_samples);
        let inst = crate::fixed::clamp_fx(freq + vib_offset, 0, FREQ_MAX);
        self.phase = crate::osc::phase_step(self.phase, inst, fs);
        let w = crate::osc::wave_at(wave, self.phase);
        proof {
            crate::fixed::lemma_mul_fx_unit_bound(w as int, level as int, UNIT as int);
        }
        crate::fixed::mul_trunc(w, level)
    }

    /// One polyphonic sample: advance one phase accumulator per entry of
    /// `freqs` (the held notes' frequencies, oldest first, at most
    /// `POLY_LIMIT`), sum the scaled waveforms and divide by the count. With
    /// no held note the voice is silent and nothing moves.
    pub fn sample_poly(&mut self, freqs: &Vec<i64>, wave: &Waveform, level: i64, fs: i64) -> (s:
        i64)
        requires
            old(self).wf(),
            freqs@.len() <= POLY_LIMIT,
            forall|i: int| 0 <= i < freqs@.len() ==> 0 <= #[trigger] freqs@[i] <= FREQ_MAX,
            0 <= level <= UNIT,
            0 < fs,
        ensures
            final(self).wf(),
            final(self).glide == old(self).glide,
            final(self).phase == old(self).phase,
            final(self).phases@.len() == POLY_LIMIT,
            forall|i: int| 0 <= i < freqs@.len() ==> final(self).phases@[i] == phase_advance(
                old(self).phases@[i] as int,
                freqs@[i] as int,
                fs as int,
            ),
            forall|i: int|
                freqs@.len() <= i < POLY_LIMIT ==> final(self).phases@[i] == old(
                    self,
                ).phases@[i],
            freqs@.len() == 0 ==> s == 0,
            freqs@.len() > 0 ==> s == div_tz(
                poly_acc(final(self).phases@, *wave, level as int, freqs@.len() as int),
                freqs@.len() as int,
            ),
            -UNIT <= s <= UNIT,
    {
        let count = freqs.len();
        if count == 0 {
            return 0;
        }
        let mut acc: i64 = 0;
        let mut i: usize = 0;
        while i < count
            invariant
                i <= count,
                count == freqs@.len(),
                0 < count <= POLY_LIMIT,
                forall|j: int| 0 <= j < freqs@.len() ==> 0 <= #[trigger] freqs@[j] <= FREQ_MAX,
                0 <= level <= UNIT,
                0 < fs,
                self.glide == old(self).glide,
                self.phase == old(self).phase,
                self.phases@.len() == POLY_LIMIT,
                forall|j: int| 0 <= j < POLY_LIMIT ==> 0 <= #[trigger] self.phases@[j] < PHASE_ONE,
                forall|j: int| 0 <= j < i ==> self.phases@[j] == phase_advance(
                    old(self).phases@[j] as int,
                    freqs@[j] as int,
                    fs as int,
                ),
                forall|j: int| i <= j < POLY_LIMIT ==> self.phases@[j] == old(self).phases@[j],
                acc == poly_acc(self.phases@, *wave, level as int, i as int),
                -(i * UNIT) <= acc <= i * UNIT,
            decreases count - i,
        {
            let ghost phases_pre = self.phases@;
            let p = crate::osc::phase_step(*self.phases.get(i).unwrap(), *freqs.get(i).unwrap(), fs);
            self.phases[i] = p;
            let w = crate::osc::wave_at(wave, p);
            proof {
                crate::fixed::lemma_mul_fx_unit_bound(w as int, level as int, UNIT as int);
                assert forall|k: int| 0 <= k <= i implies poly_acc(self.phases@, *wave,
                    level as int, k) == poly_acc(phases_pre, *wave, level as int, k) by {
                    lemma_poly_acc_prefix(phases_pre, self.phases@, *wave, level as int, k);
                }
            }
            acc = acc + crate::fixed::mul_trunc(w, level);
            i = i + 1;
        }
        proof {
            lemma_poly_acc_bound(self.phases@, *wave, level as int, count as int);
            crate::fixed::lemma_div_tz_le(acc as int, count as int * UNIT, count as int);
            vstd::arithmetic::div_mod::lemma_div_multiples_vanish(UNIT as int, count as int);
        }
        crate::fixed::div_trunc(acc, count as i64)
    }
}

/// `poly_acc` only reads the first `k` phases, so it is unchanged when two
/// phase lists agree on them.
proof fn lemma_poly_acc_prefix(a: Seq<i64>, b: Seq<i64>, w: Waveform, level: int, k: int)
    requires
        k <= a.len(),
        k <= b.len(),
        forall|j: int| 0 <= j < k ==> a[j] == b[j],
    ensures
        poly_acc(a, w, level, k) == poly_acc(b, w, level, k),
    decreases k,
{
    if k > 0 {
        lemma_poly_acc_prefix(a, b, w, level, k - 1);
    }
}

} // verus!
