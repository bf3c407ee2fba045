//! Glide (portamento): smooth pitch transitions between target frequencies.
//!
//! Each sample the current frequency steps toward the target by
//! `(target - current) / glide_samples`; a glide of zero samples snaps at
//! once, and when the remaining distance rounds the step to nothing the
//! current frequency snaps to the target instead of stalling short of it.

use vstd::prelude::*;
use crate::fixed::div_tz;
use crate::osc::FREQ_MAX;

verus! {

/// Where one glide sample puts the current frequency.
pub open spec fn glide_step(cur: int, tgt: int, g: int) -> int {
    if g == 0 {
        tgt
    } else if cur == tgt {
        cur
    } else {
        let step = div_tz(tgt - cur, g);
        if step == 0 {
            tgt
        } else {
            cur + step
        }
    }
}

/// One glide sample lands between where it started and the target.
pub proof fn lemma_glide_step_between(cur: int, tgt: int, g: int)
    requires
        g >= 0,
    ensures
        cur <= tgt ==> cur <= glide_step(cur, tgt, g) <= tgt,
        tgt <= cur ==> tgt <= glide_step(cur, tgt, g) <= cur,
{
    if g != 0 && cur != tgt {
        crate::fixed::lemma_div_tz_bounds(tgt - cur, g);
    }
}

/// The pitch-smoothing state: the frequency a voice is at and the one it is
/// heading for, both in Q16.16 hertz.
pub struct Glide {
    /// The frequency produced this sample.
    pub current: i64,
    /// The frequency being approached.
    pub target: i64,
}

impl Glide {
    /// Both frequencies are valid: non-negative and within the tuner's range.
    pub open spec fn wf(&self) -> bool {
        &&& 0 <= self.current <= FREQ_MAX
        &&& 0 <= self.target <= FREQ_MAX
    }

    /// A glide resting at `start_freq`.
    pub fn new(start_freq: i64) -> (g: Glide)
        requires
            0 <= start_freq <= FREQ_MAX,
        ensures
            g.wf(),
            g.current == start_freq,
            g.target == start_freq,
    {
        Glide { current: start_freq, target: start_freq }
    }

    /// Aim for a new frequency; the current one is untouched.
    pub fn set_target(&mut self, freq: i64)
        requires
            old(self).wf(),
            0 <= freq <= FREQ_MAX,
        ensures
            final(self).wf(),
            final(self).target == freq,
            final(self).current == old(self).current,
    {
        self.target = freq;
    }

    /// One glide sample: step toward the target over `glide_samples` and
    /// return the frequency to sound now. A zero glide snaps immediately.
    pub fn next(&mut self, glide_samples: i64) -> (freq: i64)
        requires
            old(self).wf(),
            0 <= glide_samples,
        ensures
            final(self).wf(),
            final(self).target == old(self).target,
            final(self).current == glide_step(
                old(self).current as int,
                old(self).target as int,
                glide_samples as int,
            ),
            freq == final(self).current,
            glide_samples == 0 ==> freq == old(self).target,
    {
        proof {
            lemma_glide_step_between(
                self.current as int,
                self.target as int,
                glide_samples as int,
            );
        }
        if glide_samples == 0 {
            self.current = self.target;
        } else if self.current != self.target {
            let step = crate::fixed::div_trunc(self.target - self.current, glide_samples);
            if step == 0 {
                self.current = self.target;
            } else {
                self.current = self.current + step;
            }
        }
        self.current
    }
}

} // verus!
