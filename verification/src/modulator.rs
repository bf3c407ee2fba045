//! Secondary pitch modulation (vibrato): a low-frequency sine that adds a
//! small periodic offset to the instantaneous frequency. With a depth of
//! zero the stage contributes exactly nothing.

use vstd::prelude::*;
use crate::fixed::mul_fx;
use crate::osc::{PHASE_ONE, FREQ_MAX, phase_advance, sine_shape};

verus! {

/// The vibrato oscillator: just the phase of its sine.
pub struct Modulator {
    /// Current phase of the low-frequency sine, in `[0, PHASE_ONE)`.
    pub phase: i64,
}

/// The frequency offset one vibrato sample contributes: the sine at the
/// current phase scaled by the depth.
pub open spec fn modulation_offset(phase: int, depth: int) -> int {
    mul_fx(sine_shape(phase), depth)
}

impl Modulator {
    /// The phase is a valid cycle fraction.
    pub open spec fn wf(&self) -> bool {
        0 <= self.phase < PHASE_ONE
    }

    /// A vibrato starting at the beginning of its cycle.
    pub fn new() -> (m: Modulator)
        ensures
            m.wf(),
            m.phase == 0,
    {
        Modulator { phase: 0 }
    }
}

/// One vibrato sample: the frequency offset at the current phase, after
/// which the phase advances by `rate` hertz (Q16.16) at sample rate `fs`.
/// The offset is bounded by the depth, and a zero depth contributes zero.
pub fn modulation(m: &mut Modulator, rate: i64, depth: i64, fs: i64) -> (offset: i64)
    requires
        old(m).wf(),
        0 <= rate <= FREQ_MAX,
        0 <= depth <= crate::fixed::MUL_BOUND,
        0 < fs,
    ensures
        final(m).wf(),
        offset == modulation_offset(old(m).phase as int, depth as int),
        final(m).phase == phase_advance(old(m).phase as int, rate as int, fs as int),
        -depth <= offset <= depth,
        depth == 0 ==> offset == 0,
{
    let s = crate::osc::wave_at(&crate::osc::Waveform::Sine, m.phase);
    proof {
        crate::fixed::lemma_mul_fx_unit_bound(depth as int, s as int, depth as int);
        assert((s as int) * (depth as int) == (depth as int) * (s as int));
        if depth == 0 {
            assert((s as int) * 0 == 0) by (nonlinear_arith);
        }
    }
    let offset = crate::fixed::mul_trunc(s, depth);
    m.phase = crate::osc::phase_step(m.phase, rate, fs);
    offset
}

} // verus!
