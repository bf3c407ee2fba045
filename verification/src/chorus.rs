//! The chorus effect: the same fractional ring-buffer read, feedback and
//! mix contract as the delay — feedback clamped below one included — but
//! with the read offset modulated
//! sample-by-sample by a sine LFO: `delay(t) = base_delay + lfo(t) *
//! variation`. The LFO phase advances after the read. With variation zero
//! the LFO contributes exactly nothing and a chorus step is exactly a
//! fixed-delay step.

use vstd::prelude::*;
use crate::fixed::{UNIT, SAT, mul_fx, clamp};
use crate::osc::{PHASE_ONE, FREQ_MAX, phase_advance, sine_shape};
use crate::ring::{Ring, read_frac};

verus! {

/// One chorus sample: the new buffer, the new cursor, the output and the
/// new LFO phase. The modulated delay is clamped to at least one sample and
/// at most the oldest usable tap; as in the delay, the write is
/// `input + feedback * delayed`, saturated.
pub open spec fn chorus_step(
    buf: Seq<i64>,
    pos: int,
    lfo_phase: int,
    x: int,
    base_d: int,
    variation: int,
    fb: int,
    mix: int,
    rate: int,
    fs: int,
) -> (Seq<i64>, int, int, int) {
    let len = buf.len() as int;
    let d = clamp(base_d + mul_fx(sine_shape(lfo_phase), variation), UNIT as int, (len - 2)
        * UNIT);
    let y = read_frac(buf, pos, d);
    let out = x + mul_fx(mix, y - x);
    let w = clamp(x + mul_fx(fb, y), -SAT as int, SAT as int);
    (buf.update(pos, w as i64), (pos + 1) % len, out, phase_advance(lfo_phase, rate, fs))
}

/// With variation zero the chorus degenerates to a plain fixed delay: the
/// LFO phase has no effect, and the step's buffer, cursor and output are
/// exactly those of a delay step at the base offset.
pub proof fn lemma_chorus_variation_zero(
    buf: Seq<i64>,
    pos: int,
    lfo_phase: int,
    x: int,
    base_d: int,
    fb: int,
    mix: int,
    rate: int,
    fs: int,
)
    ensures
        ({
            let c = chorus_step(buf, pos, lfo_phase, x, base_d, 0, fb, mix, rate, fs);
            let d = crate::delay::delay_step(buf, pos, x, base_d, fb, mix);
            &&& c.0 == d.0
            &&& c.1 == d.1
            &&& c.2 == d.2
        }),
{
    crate::fixed::lemma_mul_fx_zero(sine_shape(lfo_phase));
}

/// The chorus effect: its ring buffer and the LFO phase.
pub struct Chorus {
    /// The modulated delay line.
    pub ring: Ring,
    /// Current phase of the modulating sine, in `[0, PHASE_ONE)`.
    pub lfo_phase: i64,
}

impl Chorus {
    /// The ring is well formed, long enough for one whole tap, and the LFO
    /// phase is a valid cycle fraction.
    pub open spec fn wf(&self) -> bool {
        &&& self.ring.wf()
        &&& self.ring.buf@.len() >= 3
        &&& 0 <= self.lfo_phase < PHASE_ONE
    }

    /// A silent chorus able to hold `max_delay_samples` samples (two extra
    /// slots keep interpolation simple at the wrap).
    pub fn new(max_delay_samples: usize) -> (c: Chorus)
        requires
            1 <= max_delay_samples,
            max_delay_samples + 2 <= crate::ring::MAX_RING,
        ensures
            c.wf(),
            c.ring.buf@.len() == max_delay_samples + 2,
            c.ring.write_pos == 0,
            c.lfo_phase == 0,
            forall|i: int| 0 <= i < c.ring.buf@.len() ==> #[trigger] c.ring.buf@[i] == 0,
    {
        Chorus { ring: Ring::new(max_delay_samples + 2), lfo_phase: 0 }
    }

    /// Process one sample: read at the LFO-modulated delay, mix dry and
    /// wet, write back the output plus feedback, advance the cursor and
    /// then the LFO. The result is exactly `chorus_step` and stays within
    /// the saturation bound.
    pub fn process_sample(
        &mut self,
        x: i64,
        base_d: i64,
        variation: i64,
        fb: i64,
        mix: i64,
        rate: i64,
        fs: i64,
    ) -> (out: i64)
        requires
            old(self).wf(),
            -SAT <= x <= SAT,
            0 <= base_d <= 0x10_0000_0000_0000,
            0 <= variation <= crate::fixed::MUL_BOUND,
            0 <= fb <= crate::delay::FEEDBACK_MAX,
            0 <= mix <= UNIT,
            0 <= rate <= FREQ_MAX,
            0 < fs,
        ensures
            final(self).wf(),
            final(self).ring.buf@.len() == old(self).ring.buf@.len(),
            ({
                let st = chorus_step(
                    old(self).ring.buf@,
                    old(self).ring.write_pos as int,
                    old(self).lfo_phase as int,
                    x as int,
                    base_d as int,
                    variation as int,
                    fb as int,
                    mix as int,
                    rate as int,
                    fs as int,
                );
                &&& final(self).ring.buf@ == st.0
                &&& final(self).ring.write_pos == st.1
                &&& out == st.2
                &&& final(self).lfo_phase == st.3
            }),
            -SAT <= out <= SAT,
    {
        let len = self.ring.len();
        let lfo = crate::osc::wave_at(&crate::osc::Waveform::Sine, self.lfo_phase);
        proof {
            crate::fixed::lemma_mul_fx_unit_bound(variation as int, lfo as int,
                crate::fixed::MUL_BOUND as int);
            assert((lfo as int) * (variation as int) == (variation as int) * (lfo as int))
                by (nonlinear_arith);
            assert((len as int - 2) * UNIT >= 0 && UNIT <= (len as int - 2) * UNIT)
                by (nonlinear_arith)
                requires
                    len >= 3,
            ;
        }
        let wobble = crate::fixed::mul_trunc(lfo, variation);
        let d = crate::fixed::clamp_fx(base_d + wobble, UNIT, (len as i64 - 2) * UNIT);
        let y = self.ring.read_frac_at(d);
        proof {
            crate::ring::lemma_mix_between(x as int, y as int, mix as int);
            crate::fixed::lemma_mul_fx_unit_bound(y as int, fb as int, SAT as int);
            assert((mix as int) * ((y - x) as int) == ((y - x) as int) * (mix as int))
                by (nonlinear_arith);
            assert((fb as int) * (y as int) == (y as int) * (fb as int)) by (nonlinear_arith);
        }
        let out = x + crate::fixed::mul_trunc(mix, y - x);
        let w = x + crate::fixed::mul_trunc(fb, y);
        self.ring.push(w);
        self.lfo_phase = crate::osc::phase_step(self.lfo_phase, rate, fs);
        out
    }
}

} // verus!
