//! The synthesis engine: the parameter store, the fixed four-voice pool,
//! the envelope, the vibrato, the filter and the effects chain, pulled
//! together once per sample.
//!
//! The per-sample processing order is fixed: oscillators, envelope, filter,
//! chorus, delay, reverb, master volume. One sample's whole effect on the
//! engine is the relation `step_rel`; `render` fills a buffer by stepping
//! it and hands back a ghost trace of the intermediate states, each pair
//! linked by `step_rel`.

use vstd::prelude::*;
use crate::fixed::{UNIT, SAT, MUL_BOUND, div_tz, mul_fx, clamp};
use crate::envelope::{ENV_ONE, MAX_RAMP, Envelope, EnvParams, env_step};
use crate::filter::{LowPassFilter, Q_MIN, Q_MAX, filter_rel, filter_out};
use crate::glide::glide_step;
use crate::modulator::{Modulator, modulation_offset};
use crate::notes::NoteStack;
use crate::osc::{FREQ_MAX, Waveform, note_freq, phase_advance, wave_sample};
use crate::params::{Params, apply_cc};
use crate::voice::{POLY_LIMIT, Voice, poly_acc};

verus! {

/// A ramp time in samples: `value / 127 * 90 seconds` of samples, the
/// controller range stretched over one and a half minutes.
pub open spec fn ramp_samples_of(v: u8, fs: int) -> int {
    div_tz(v * 90 * fs, 127)
}

/// The sustain level: the controller range stretched over `[0, ENV_ONE]`.
pub open spec fn sustain_level_of(v: u8) -> int {
    div_tz(v * ENV_ONE, 127)
}

/// A controller value as a Q16.16 fraction of one.
pub open spec fn cc_unit(v: u8) -> int {
    div_tz(v * UNIT, 127)
}

/// The filter cutoff: the controller range stretched over `[0, fs / 2]`
/// hertz, in Q16.16.
pub open spec fn cutoff_of(v: u8, fs: int) -> int {
    div_tz(v * fs * UNIT, 254)
}

/// The quality factor: the controller fraction clamped into the admissible
/// band.
pub open spec fn q_of(v: u8) -> int {
    clamp(cc_unit(v), Q_MIN as int, Q_MAX as int)
}

/// The glide time in samples: the controller range stretched over 0.376
/// seconds.
pub open spec fn glide_samples_of(v: u8, fs: int) -> int {
    div_tz(v * 8 * fs, 2700)
}

/// The delay time in Q16.16 samples: the controller fraction of the
/// longest supported delay.
pub open spec fn delay_time_of(v: u8, max_delay: int) -> int {
    div_tz(v * max_delay * UNIT, 127)
}

/// The delay feedback: the controller fraction, clamped below one.
pub open spec fn delay_fb_of(v: u8) -> int {
    clamp(cc_unit(v), 0, crate::delay::FEEDBACK_MAX as int)
}

/// The chorus feedback: the controller fraction, clamped below one as the
/// delay's is, so the recirculating energy always dies away.
pub open spec fn chorus_fb_of(v: u8) -> int {
    clamp(cc_unit(v), 0, crate::delay::FEEDBACK_MAX as int)
}

/// The chorus LFO rate: the controller range stretched over 5 hertz.
pub open spec fn chorus_rate_of(v: u8) -> int {
    div_tz(v * 5 * UNIT, 127)
}

/// The chorus base delay in Q16.16 samples: the controller range stretched
/// over 50 ms.
pub open spec fn chorus_base_of(v: u8, fs: int) -> int {
    div_tz(v * fs * UNIT, 2540)
}

/// The chorus delay variation in Q16.16 samples: the controller range
/// stretched over 10 ms.
pub open spec fn chorus_var_of(v: u8, fs: int) -> int {
    div_tz(v * fs * UNIT, 12700)
}

/// The reverb decay in samples: the controller range stretched over five
/// seconds.
pub open spec fn reverb_decay_of(v: u8, fs: int) -> int {
    div_tz(v * 5 * fs, 127)
}

/// The vibrato rate or depth: the controller range stretched over 10
/// Q16.16 hertz.
pub open spec fn vib_scale_of(v: u8) -> int {
    div_tz(v * 10 * UNIT, 127)
}

/// The outbound controller value of a Q16.16 fraction: clamped into
/// `[0, 1]`, scaled to 127 and rounded to the nearest integer.
pub open spec fn cc_of_unit(x: int) -> int {
    div_tz(clamp(x, 0, UNIT as int) * 127 + UNIT / 2, UNIT as int)
}

/// The fixed-point note number a voice sounds: the MIDI note plus its
/// octave shift, semitone offset and micro-detune.
pub open spec fn voice_note_fx(note: u8, oct: i8, semi: i8, det: i16) -> int {
    note * UNIT + oct * 12 * UNIT + semi * UNIT + det
}

/// The target frequency of a voice for a given note.
pub open spec fn voice_freq(note: u8, oct: i8, semi: i8, det: i16) -> int {
    note_freq(voice_note_fx(note, oct, semi, det))
}

/// The envelope parameters the store prescribes.
pub open spec fn env_params_of(p: Params, fs: int) -> EnvParams {
    EnvParams {
        attack: ramp_samples_of(p.attack, fs) as i64,
        decay: ramp_samples_of(p.decay, fs) as i64,
        sustain: sustain_level_of(p.sustain) as i64,
        release: ramp_samples_of(p.release, fs) as i64,
    }
}

/// The frequencies of the held notes a polyphonic voice sounds: the first
/// `POLY_LIMIT` notes in press order, through the voice's pitch offsets,
/// with the vibrato offset added and clamped into the tuner's range.
pub open spec fn poly_freqs(
    notes: Seq<u8>,
    oct: i8,
    semi: i8,
    det: i16,
    vib: int,
) -> Seq<i64> {
    let n = if notes.len() <= POLY_LIMIT {
        notes.len() as int
    } else {
        POLY_LIMIT as int
    };
    Seq::new(n as nat, |i: int| clamp(voice_freq(notes[i], oct, semi, det) + vib, 0,
        FREQ_MAX as int) as i64)
}

/// What one monophonic voice does in one sample: the glide moves toward
/// `tgt`, the phase advances at the vibrato-shifted frequency, the other
/// phases rest.
pub open spec fn mono_voice_rel(
    v0: Voice,
    v1: Voice,
    tgt: int,
    gs: int,
    vib: int,
    fs: int,
) -> bool {
    let cur = glide_step(v0.glide.current as int, tgt, gs);
    &&& v1.glide.target == tgt
    &&& v1.glide.current == cur
    &&& v1.phase == phase_advance(v0.phase as int, clamp(cur + vib, 0, FREQ_MAX as int), fs)
    &&& v1.phases == v0.phases
}

/// The sample a monophonic voice contributes, determined by its new phase.
pub open spec fn mono_voice_out(v1: Voice, w: Waveform, level: int) -> int {
    mul_fx(wave_sample(w, v1.phase as int), level)
}

/// What one polyphonic voice does in one sample: one phase accumulator per
/// held note advances at that note's frequency, the rest rest.
pub open spec fn poly_voice_rel(v0: Voice, v1: Voice, freqs: Seq<i64>, fs: int) -> bool {
    &&& v1.glide == v0.glide
    &&& v1.phase == v0.phase
    &&& v1.phases@.len() == POLY_LIMIT
    &&& forall|i: int|
        0 <= i < freqs.len() ==> v1.phases@[i] == phase_advance(
            v0.phases@[i] as int,
            freqs[i] as int,
            fs,
        )
    &&& forall|i: int| freqs.len() <= i < POLY_LIMIT ==> v1.phases@[i] == v0.phases@[i]
}

/// The sample a polyphonic voice contributes: the scaled waveforms of the
/// sounding notes summed and divided by their count; silence when none.
pub open spec fn poly_voice_out(v1: Voice, count: int, w: Waveform, level: int) -> int {
    if count == 0 {
        0
    } else {
        div_tz(poly_acc(v1.phases@, w, level, count), count)
    }
}

/// The synthesis engine.
pub struct Engine {
    /// Sample rate in hertz.
    pub fs: i64,
    /// The longest delay the delay effect supports, in samples (1.5 s).
    pub max_delay_samples: usize,
    /// The live parameter store.
    pub params: Params,
    /// The fixed voice pool.
    pub voice0: Voice,
    pub voice1: Voice,
    pub voice2: Voice,
    pub voice3: Voice,
    /// The shared amplitude envelope.
    pub envelope: Envelope,
    /// The shared vibrato oscillator.
    pub vibrato: Modulator,
    /// The resonant low-pass filter.
    pub filter: LowPassFilter,
    /// The effects chain, in processing order.
    pub chorus: crate::chorus::Chorus,
    pub delay: crate::delay::Delay,
    pub reverb: crate::reverb::Reverb,
}

impl Engine {
    /// Every component is well formed, at sizes derived from the sample
    /// rate.
    pub open spec fn wf(&self) -> bool {
        &&& 1000 <= self.fs <= 192000
        &&& self.max_delay_samples == 3 * self.fs / 2
        &&& self.params.wf()
        &&& self.voice0.wf()
        &&& self.voice1.wf()
        &&& self.voice2.wf()
        &&& self.voice3.wf()
        &&& self.envelope.wf()
        &&& self.vibrato.wf()
        &&& self.filter.wf()
        &&& self.filter.fs == self.fs
        &&& self.chorus.wf()
        &&& self.chorus.ring.buf@.len() == 3 * self.fs / 50 + 2
        &&& self.delay.wf()
        &&& self.delay.ring.buf@.len() == self.max_delay_samples + 1
        &&& self.reverb.wf()
    }

    /// A fresh engine at sample rate `fs`: default parameters, silent
    /// state, the voices resting on a 440 Hz harmonic stack.
    pub fn new(fs: i64) -> (e: Engine)
        requires
            1000 <= fs <= 192000,
        ensures
            e.wf(),
            e.fs == fs,
            !e.params.poly_mode,
            e.params.notes@ == Seq::<u8>::empty(),
    {
        let max_delay = (3 * fs / 2) as usize;
        let chorus_max = (3 * fs / 50) as usize;
        Engine {
            fs,
            max_delay_samples: max_delay,
            params: Params::new(),
            voice0: Voice::new(440 * UNIT),
            voice1: Voice::new(660 * UNIT),
            voice2: Voice::new(880 * UNIT),
            voice3: Voice::new(1320 * UNIT),
            envelope: Envelope::new(),
            vibrato: Modulator::new(),
            filter: LowPassFilter::new(fs),
            chorus: crate::chorus::Chorus::new(chorus_max),
            delay: crate::delay::Delay::new(max_delay),
            reverb: crate::reverb::Reverb::new(fs),
        }
    }
}

/// The whole transition one rendered sample makes: the key-hold signal
/// drives the envelope, the vibrato advances, every voice runs its monophonic or
/// polyphonic path, the mixed voices are shaped by the envelope and then
/// pass, in the engine's fixed order, through filter, chorus, delay,
/// reverb and the master volume.
pub open spec fn step_rel(pre: Engine, post: Engine, out: int) -> bool {
    let fs = pre.fs as int;
    let p = pre.params;
    let gate = p.notes@.len() > 0;
    let env = env_step(pre.envelope.state, pre.envelope.level as int, gate, env_params_of(p, fs));
    let vib = modulation_offset(pre.vibrato.phase as int, vib_scale_of(p.vibrato_depth));
    let last: u8 = if p.notes@.len() > 0 {
        p.notes@.last()
    } else {
        0
    };
    let gs = glide_samples_of(p.glide_time, fs);
    let cnt: int = if p.notes@.len() <= POLY_LIMIT {
        p.notes@.len() as int
    } else {
        POLY_LIMIT as int
    };
    let voices_ok = if p.poly_mode {
        &&& poly_voice_rel(pre.voice0, post.voice0, poly_freqs(p.notes@, p.v0_octave,
            p.v0_semitone, p.v0_detune, vib), fs)
        &&& poly_voice_rel(pre.voice1, post.voice1, poly_freqs(p.notes@, p.v1_octave,
            p.v1_semitone, p.v1_detune, vib), fs)
        &&& poly_voice_rel(pre.voice2, post.voice2, poly_freqs(p.notes@, p.v2_octave,
            p.v2_semitone, p.v2_detune, vib), fs)
        &&& poly_voice_rel(pre.voice3, post.voice3, poly_freqs(p.notes@, p.v3_octave,
            p.v3_semitone, p.v3_detune, vib), fs)
    } else {
        &&& mono_voice_rel(pre.voice0, post.voice0, voice_freq(last, p.v0_octave, p.v0_semitone,
            p.v0_detune), gs, vib, fs)
        &&& mono_voice_rel(pre.voice1, post.voice1, voice_freq(last, p.v1_octave, p.v1_semitone,
            p.v1_detune), gs, vib, fs)
        &&& mono_voice_rel(pre.voice2, post.voice2, voice_freq(last, p.v2_octave, p.v2_semitone,
            p.v2_detune), gs, vib, fs)
        &&& mono_voice_rel(pre.voice3, post.voice3, voice_freq(last, p.v3_octave, p.v3_semitone,
            p.v3_detune), gs, vib, fs)
    };
    let s0 = if p.poly_mode {
        poly_voice_out(post.voice0, cnt, p.v0_wave, cc_unit(p.v0_level))
    } else {
        mono_voice_out(post.voice0, p.v0_wave, cc_unit(p.v0_level))
    };
    let s1 = if p.poly_mode {
        poly_voice_out(post.voice1, cnt, p.v1_wave, cc_unit(p.v1_level))
    } else {
        mono_voice_out(post.voice1, p.v1_wave, cc_unit(p.v1_level))
    };
    let s2 = if p.poly_mode {
        poly_voice_out(post.voice2, cnt, p.v2_wave, cc_unit(p.v2_level))
    } else {
        mono_voice_out(post.voice2, p.v2_wave, cc_unit(p.v2_level))
    };
    let s3 = if p.poly_mode {
        poly_voice_out(post.voice3, cnt, p.v3_wave, cc_unit(p.v3_level))
    } else {
        mono_voice_out(post.voice3, p.v3_wave, cc_unit(p.v3_level))
    };
    let scaled = div_tz((s0 + s1 + s2 + s3) * env.1, ENV_ONE as int);
    let fy = filter_out(pre.filter, scaled, cutoff_of(p.cutoff, fs), q_of(p.resonance));
    let ch = crate::chorus::chorus_step(
        pre.chorus.ring.buf@,
        pre.chorus.ring.write_pos as int,
        pre.chorus.lfo_phase as int,
        fy,
        chorus_base_of(p.chorus_base_delay, fs),
        chorus_var_of(p.chorus_variation, fs),
        chorus_fb_of(p.chorus_feedback),
        cc_unit(p.chorus_mix),
        chorus_rate_of(p.chorus_rate),
        fs,
    );
    let de = crate::delay::delay_step(
        pre.delay.ring.buf@,
        pre.delay.ring.write_pos as int,
        ch.2,
        delay_time_of(p.delay_time, pre.max_delay_samples as int),
        delay_fb_of(p.delay_feedback),
        cc_unit(p.delay_mix),
    );
    let rv = crate::reverb::reverb_out(pre.reverb, de.2, reverb_decay_of(p.reverb_decay, fs),
        cc_unit(p.reverb_mix));
    &&& post.fs == pre.fs
    &&& post.max_delay_samples == pre.max_delay_samples
    &&& post.params == pre.params
    &&& voices_ok
    &&& (post.envelope.state, post.envelope.level as int) == env
    &&& post.vibrato.phase == phase_advance(pre.vibrato.phase as int, vib_scale_of(p.vibrato_rate),
        fs)
    &&& filter_rel(pre.filter, post.filter, scaled, cutoff_of(p.cutoff, fs), q_of(p.resonance),
        fy)
    &&& post.chorus.ring.buf@ == ch.0
    &&& post.chorus.ring.write_pos == ch.1
    &&& post.chorus.lfo_phase == ch.3
    &&& post.delay.ring.buf@ == de.0
    &&& post.delay.ring.write_pos == de.1
    &&& crate::reverb::reverb_rel(pre.reverb, post.reverb, de.2, reverb_decay_of(p.reverb_decay,
        fs), cc_unit(p.reverb_mix), rv)
    &&& out == mul_fx(cc_unit(p.volume), rv)
}

/// A controller value as a Q16.16 fraction of one.
pub fn cc_unit_at(v: u8) -> (r: i64)
    requires
        v <= 127,
    ensures
        r == cc_unit(v),
        0 <= r <= UNIT,
{
    proof {
        crate::fixed::lemma_div_tz_le((v as int) * UNIT, 127int * UNIT, 127);
    }
    crate::fixed::div_trunc((v as i64) * UNIT, 127)
}

/// A ramp time in samples.
pub fn ramp_samples_at(v: u8, fs: i64) -> (r: i64)
    requires
        v <= 127,
        1000 <= fs <= 192000,
    ensures
        r == ramp_samples_of(v, fs as int),
        0 <= r <= MAX_RAMP,
{
    proof {
        assert((v as int) * 90 * (fs as int) <= 127 * 90 * 192000 && 0 <= (v as int) * 90 * (
        fs as int)) by (nonlinear_arith)
            requires
                v <= 127,
                1000 <= fs <= 192000,
        ;
        crate::fixed::lemma_div_tz_le((v as int) * 90 * (fs as int), 127int * 90 * 192000, 127);
    }
    crate::fixed::div_trunc((v as i64) * 90 * fs, 127)
}

/// The envelope parameters the store prescribes.
pub fn env_params_at(p: &Params, fs: i64) -> (ep: EnvParams)
    requires
        p.wf(),
        1000 <= fs <= 192000,
    ensures
        ep == env_params_of(*p, fs as int),
        ep.wf(),
{
    proof {
        crate::fixed::lemma_div_tz_le((p.sustain as int) * ENV_ONE, 127int * ENV_ONE, 127);
    }
    EnvParams {
        attack: ramp_samples_at(p.attack, fs),
        decay: ramp_samples_at(p.decay, fs),
        sustain: crate::fixed::div_trunc((p.sustain as i64) * ENV_ONE, 127),
        release: ramp_samples_at(p.release, fs),
    }
}

/// The filter cutoff in Q16.16 hertz.
pub fn cutoff_at(v: u8, fs: i64) -> (r: i64)
    requires
        v <= 127,
        1000 <= fs <= 192000,
    ensures
        r == cutoff_of(v, fs as int),
        0 <= r <= FREQ_MAX,
{
    proof {
        assert(0 <= (v as int) * (fs as int) * UNIT <= 127 * 192000 * 65536) by (nonlinear_arith)
            requires
                v <= 127,
                1000 <= fs <= 192000,
                UNIT == 65536,
        ;
        crate::fixed::lemma_div_tz_le((v as int) * (fs as int) * UNIT, 127int * 192000 * 65536, 254);
    }
    crate::fixed::div_trunc((v as i64) * fs * UNIT, 254)
}

/// The quality factor.
pub fn q_at(v: u8) -> (r: i64)
    requires
        v <= 127,
    ensures
        r == q_of(v),
        Q_MIN <= r <= Q_MAX,
{
    let u = cc_unit_at(v);
    crate::fixed::clamp_fx(u, Q_MIN, Q_MAX)
}

/// The glide time in samples.
pub fn glide_at(v: u8, fs: i64) -> (r: i64)
    requires
        v <= 127,
        1000 <= fs <= 192000,
    ensures
        r == glide_samples_of(v, fs as int),
        0 <= r,
{
    proof {
        assert(0 <= (v as int) * 8 * (fs as int) < 0x4000_0000_0000_0000) by (nonlinear_arith)
            requires
                v <= 127,
                1000 <= fs <= 192000,
        ;
    }
    crate::fixed::div_trunc((v as i64) * 8 * fs, 2700)
}

/// The delay time in Q16.16 samples.
pub fn delay_time_at(v: u8, max_delay: usize) -> (r: i64)
    requires
        v <= 127,
        max_delay <= 288000,
    ensures
        r == delay_time_of(v, max_delay as int),
        0 <= r,
{
    proof {
        assert(0 <= (v as int) * (max_delay as int) * UNIT < 0x4000_0000_0000_0000)
            by (nonlinear_arith)
            requires
                v <= 127,
                max_delay <= 288000,
                UNIT == 65536,
        ;
    }
    crate::fixed::div_trunc((v as i64) * (max_delay as i64) * UNIT, 127)
}

/// The delay feedback, clamped below one.
pub fn delay_fb_at(v: u8) -> (r: i64)
    requires
        v <= 127,
    ensures
        r == delay_fb_of(v),
        0 <= r <= crate::delay::FEEDBACK_MAX,
{
    let u = cc_unit_at(v);
    crate::fixed::clamp_fx(u, 0, crate::delay::FEEDBACK_MAX)
}

/// The chorus LFO rate in Q16.16 hertz.
pub fn chorus_rate_at(v: u8) -> (r: i64)
    requires
        v <= 127,
    ensures
        r == chorus_rate_of(v),
        0 <= r <= FREQ_MAX,
{
    proof {
        crate::fixed::lemma_div_tz_le((v as int) * 5 * UNIT, 127int * 5 * 65536, 127);
    }
    crate::fixed::div_trunc((v as i64) * 5 * UNIT, 127)
}

/// The chorus feedback, clamped below one.
pub fn chorus_fb_at(v: u8) -> (r: i64)
    requires
        v <= 127,
    ensures
        r == chorus_fb_of(v),
        0 <= r <= crate::delay::FEEDBACK_MAX,
{
    let u = cc_unit_at(v);
    crate::fixed::clamp_fx(u, 0, crate::delay::FEEDBACK_MAX)
}

/// The chorus base delay in Q16.16 samples.
pub fn chorus_base_at(v: u8, fs: i64) -> (r: i64)
    requires
        v <= 127,
        1000 <= fs <= 192000,
    ensures
        r == chorus_base_of(v, fs as int),
        0 <= r <= 0x10_0000_0000_0000,
{
    proof {
        assert(0 <= (v as int) * (fs as int) * UNIT <= 127 * 192000 * 65536) by (nonlinear_arith)
            requires
                v <= 127,
                1000 <= fs <= 192000,
                UNIT == 65536,
        ;
        crate::fixed::lemma_div_tz_le((v as int) * (fs as int) * UNIT, 127int * 192000 * 65536, 2540);
    }
    crate::fixed::div_trunc((v as i64) * fs * UNIT, 2540)
}

/// The chorus delay variation in Q16.16 samples.
pub fn chorus_var_at(v: u8, fs: i64) -> (r: i64)
    requires
        v <= 127,
        1000 <= fs <= 192000,
    ensures
        r == chorus_var_of(v, fs as int),
        0 <= r <= MUL_BOUND,
{
    proof {
        assert(0 <= (v as int) * (fs as int) * UNIT <= 127 * 192000 * 65536) by (nonlinear_arith)
            requires
                v <= 127,
                1000 <= fs <= 192000,
                UNIT == 65536,
        ;
        crate::fixed::lemma_div_tz_le((v as int) * (fs as int) * UNIT, 127int * 192000 * 65536,
            12700);
    }
    crate::fixed::div_trunc((v as i64) * fs * UNIT, 12700)
}

/// The reverb decay in samples.
pub fn reverb_decay_at(v: u8, fs: i64) -> (r: i64)
    requires
        v <= 127,
        1000 <= fs <= 192000,
    ensures
        r == reverb_decay_of(v, fs as int),
        0 <= r,
{
    proof {
        assert(0 <= (v as int) * 5 * (fs as int) < 0x4000_0000_0000_0000) by (nonlinear_arith)
            requires
                v <= 127,
                1000 <= fs <= 192000,
        ;
    }
    crate::fixed::div_trunc((v as i64) * 5 * fs, 127)
}

/// The vibrato rate or depth in Q16.16 hertz.
pub fn vib_at(v: u8) -> (r: i64)
    requires
        v <= 127,
    ensures
        r == vib_scale_of(v),
        0 <= r <= 10 * UNIT,
{
    proof {
        crate::fixed::lemma_div_tz_le((v as int) * 10 * UNIT, 127int * 10 * 65536, 127);
    }
    crate::fixed::div_trunc((v as i64) * 10 * UNIT, 127)
}

/// The outbound controller value of a Q16.16 fraction, for control-surface
/// feedback.
pub fn cc_value_at(x: i64) -> (r: u8)
    ensures
        r == cc_of_unit(x as int),
        r <= 127,
{
    let c = crate::fixed::clamp_fx(x, 0, UNIT);
    proof {
        crate::fixed::lemma_div_tz_le(c * 127 + UNIT / 2, 65536int * 127 + 32768, UNIT as int);
    }
    let r = crate::fixed::div_trunc(c * 127 + UNIT / 2, UNIT);
    r as u8
}

/// The frequencies of the held notes for one polyphonic voice.
fn poly_freqs_at(notes: &NoteStack, oct: i8, semi: i8, det: i16, vib: i64) -> (f: Vec<i64>)
    requires
        notes.wf(),
        -3 <= oct <= 3,
        -7 <= semi <= 7,
        -FREQ_MAX <= vib <= FREQ_MAX,
    ensures
        f@ == poly_freqs(notes@, oct, semi, det, vib as int),
        f@.len() <= POLY_LIMIT,
        forall|i: int| 0 <= i < f@.len() ==> 0 <= #[trigger] f@[i] <= FREQ_MAX,
{
    let total = notes.count();
    let count = if total < POLY_LIMIT {
        total
    } else {
        POLY_LIMIT
    };
    let mut f: Vec<i64> = Vec::new();
    let mut i: usize = 0;
    while i < count
        invariant
            i <= count,
            count == (if notes@.len() <= POLY_LIMIT {
                notes@.len() as int
            } else {
                POLY_LIMIT as int
            }),
            count <= notes@.len(),
            notes.wf(),
            -3 <= oct <= 3,
            -7 <= semi <= 7,
            -FREQ_MAX <= vib <= FREQ_MAX,
            f@.len() == i,
            forall|j: int|
                0 <= j < i ==> #[trigger] f@[j] == clamp(voice_freq(notes@[j], oct, semi, det)
                    + vib, 0, FREQ_MAX as int) as i64,
        decreases count - i,
    {
        let n = notes.note_at(i);
        let nf = (n as i64) * UNIT + (oct as i64) * 12 * UNIT + (semi as i64) * UNIT + (det as i64);
        let freq = crate::osc::note_freq_at(nf);
        f.push(crate::fixed::clamp_fx(freq + vib, 0, FREQ_MAX));
        i = i + 1;
    }
    proof {
        assert(f@ =~= poly_freqs(notes@, oct, semi, det, vib as int));
    }
    f
}

impl Engine {
    /// Render one sample: the engine's whole per-sample pipeline in its
    /// fixed order. The transition is exactly `step_rel` and the output
    /// never leaves the saturation bound.
    #[verifier::rlimit(100)]
    pub fn render_sample(&mut self) -> (out: i64)
        requires
            old(self).wf(),
        ensures
            final(self).wf(),
            step_rel(*old(self), *final(self), out as int),
            final(self).params == old(self).params,
            -SAT <= out <= SAT,
    {
        let fs = self.fs;
        let gate = self.params.notes.any_held();
        let ep = env_params_at(&self.params, fs);
        let level = self.envelope.step(gate, &ep);
        let depth = vib_at(self.params.vibrato_depth);
        let rate = vib_at(self.params.vibrato_rate);
        let vib = crate::modulator::modulation(&mut self.vibrato, rate, depth, fs);
        let gs = glide_at(self.params.glide_time, fs);
        let s0: i64;
        let s1: i64;
        let s2: i64;
        let s3: i64;
        if self.params.poly_mode {
            let f0 = poly_freqs_at(&self.params.notes, self.params.v0_octave,
                self.params.v0_semitone, self.params.v0_detune, vib);
            let f1 = poly_freqs_at(&self.params.notes, self.params.v1_octave,
                self.params.v1_semitone, self.params.v1_detune, vib);
            let f2 = poly_freqs_at(&self.params.notes, self.params.v2_octave,
                self.params.v2_semitone, self.params.v2_detune, vib);
            let f3 = poly_freqs_at(&self.params.notes, self.params.v3_octave,
                self.params.v3_semitone, self.params.v3_detune, vib);
            let w0 = self.params.v0_wave;
            let w1 = self.params.v1_wave;
            let w2 = self.params.v2_wave;
            let w3 = self.params.v3_wave;
            let l0 = cc_unit_at(self.params.v0_level);
            let l1 = cc_unit_at(self.params.v1_level);
            let l2 = cc_unit_at(self.params.v2_level);
            let l3 = cc_unit_at(self.params.v3_level);
            s0 = self.voice0.sample_poly(&f0, &w0, l0, fs);
            s1 = self.voice1.sample_poly(&f1, &w1, l1, fs);
            s2 = self.voice2.sample_poly(&f2, &w2, l2, fs);
            s3 = self.voice3.sample_poly(&f3, &w3, l3, fs);
        } else {
            let last = self.params.notes.last_note();
            let w0 = self.params.v0_wave;
            let w1 = self.params.v1_wave;
            let w2 = self.params.v2_wave;
            let w3 = self.params.v3_wave;
            let l0 = cc_unit_at(self.params.v0_level);
            let l1 = cc_unit_at(self.params.v1_level);
            let l2 = cc_unit_at(self.params.v2_level);
            let l3 = cc_unit_at(self.params.v3_level);
            let t0 = crate::osc::note_freq_at((last as i64) * UNIT + (self.params.v0_octave
                as i64) * 12 * UNIT + (self.params.v0_semitone as i64) * UNIT
                + (self.params.v0_detune as i64));
            let t1 = crate::osc::note_freq_at((last as i64) * UNIT + (self.params.v1_octave
                as i64) * 12 * UNIT + (self.params.v1_semitone as i64) * UNIT
                + (self.params.v1_detune as i64));
            let t2 = crate::osc::note_freq_at((last as i64) * UNIT + (self.params.v2_octave
                as i64) * 12 * UNIT + (self.params.v2_semitone as i64) * UNIT
                + (self.params.v2_detune as i64));
            let t3 = crate::osc::note_freq_at((last as i64) * UNIT + (self.params.v3_octave
                as i64) * 12 * UNIT + (self.params.v3_semitone as i64) * UNIT
                + (self.params.v3_detune as i64));
            s0 = self.voice0.sample_mono(t0, gs, vib, &w0, l0, fs);
            s1 = self.voice1.sample_mono(t1, gs, vib, &w1, l1, fs);
            s2 = self.voice2.sample_mono(t2, gs, vib, &w2, l2, fs);
            s3 = self.voice3.sample_mono(t3, gs, vib, &w3, l3, fs);
        }
        let mixv = s0 + s1 + s2 + s3;
        proof {
            assert((mixv as int) * (level as int) <= (4 * UNIT) * ENV_ONE && -((4 * UNIT)
                * ENV_ONE) <= (mixv as int) * (level as int)) by (nonlinear_arith)
                requires
                    -4 * UNIT <= mixv <= 4 * UNIT,
                    0 <= level <= ENV_ONE,
            ;
            crate::fixed::lemma_div_tz_le((mixv as int) * (level as int), (4 * UNIT) * ENV_ONE,
                ENV_ONE as int);
            assert((4 * UNIT) * ENV_ONE == (ENV_ONE as int) * (4 * UNIT)) by (nonlinear_arith);
            vstd::arithmetic::div_mod::lemma_div_multiples_vanish(4 * UNIT, ENV_ONE as int);
        }
        let scaled = crate::fixed::div_trunc(mixv * level, ENV_ONE);
        let cut = cutoff_at(self.params.cutoff, fs);
        let q = q_at(self.params.resonance);
        let fy = self.filter.filter_sample(scaled, cut, q);
        let cbase = chorus_base_at(self.params.chorus_base_delay, fs);
        let cvar = chorus_var_at(self.params.chorus_variation, fs);
        let cfb = chorus_fb_at(self.params.chorus_feedback);
        let cmix = cc_unit_at(self.params.chorus_mix);
        let crate_hz = chorus_rate_at(self.params.chorus_rate);
        let ch = self.chorus.process_sample(fy, cbase, cvar, cfb, cmix, crate_hz, fs);
        let dt = delay_time_at(self.params.delay_time, self.max_delay_samples);
        let dfb = delay_fb_at(self.params.delay_feedback);
        let dmix = cc_unit_at(self.params.delay_mix);
        let dl = self.delay.process_sample(ch, dt, dfb, dmix);
        let rdec = reverb_decay_at(self.params.reverb_decay, fs);
        let rmix = cc_unit_at(self.params.reverb_mix);
        let rv = self.reverb.process_sample(dl, rdec, rmix);
        let vol = cc_unit_at(self.params.volume);
        proof {
            crate::fixed::lemma_mul_fx_unit_bound(rv as int, vol as int, SAT as int);
            assert((vol as int) * (rv as int) == (rv as int) * (vol as int)) by (nonlinear_arith);
        }
        crate::fixed::mul_trunc(vol, rv)
    }
}

impl Engine {
    /// Fill a buffer of `n` samples by stepping the engine, in order. The
    /// ghost trace holds every intermediate engine state: consecutive
    /// states are linked by `step_rel` through the corresponding sample.
    pub fn render(&mut self, n: usize) -> (r: (Vec<i64>, Ghost<Seq<Engine>>))
        requires
            old(self).wf(),
        ensures
            final(self).wf(),
            final(self).params == old(self).params,
            r.0@.len() == n,
            forall|i: int| 0 <= i < n ==> -SAT <= #[trigger] r.0@[i] <= SAT,
            r.1@.len() == n + 1,
            r.1@[0] == *old(self),
            r.1@[n as int] == *final(self),
            forall|i: int|
                0 <= i < n ==> #[trigger] step_rel(r.1@[i], r.1@[i + 1], r.0@[i] as int),
    {
        let mut buf: Vec<i64> = Vec::new();
        let ghost mut tr: Seq<Engine> = seq![*self];
        let mut i: usize = 0;
        while i < n
            invariant
                i <= n,
                self.wf(),
                self.params == old(self).params,
                buf@.len() == i,
                tr.len() == i + 1,
                tr[0] == *old(self),
                tr[i as int] == *self,
                forall|j: int| 0 <= j < i ==> -SAT <= #[trigger] buf@[j] <= SAT,
                forall|j: int|
                    0 <= j < i ==> #[trigger] step_rel(tr[j], tr[j + 1], buf@[j] as int),
            decreases n - i,
        {
            let ghost prev = *self;
            let s = self.render_sample();
            buf.push(s);
            proof {
                tr = tr.push(*self);
            }
            i = i + 1;
        }
        (buf, Ghost(tr))
    }

    /// Press a note: only the held-note collection moves.
    pub fn note_on(&mut self, n: u8)
        requires
            old(self).wf(),
            n < 128,
        ensures
            final(self).wf(),
            final(self).params.notes@ == crate::notes::press(old(self).params.notes@, n),
            final(self).params == (Params { notes: final(self).params.notes, ..old(self).params }),
            *final(self) == (Engine { params: final(self).params, ..*old(self) }),
    {
        self.params.note_on(n);
    }

    /// Release a note: only the held-note collection moves.
    pub fn note_off(&mut self, n: u8)
        requires
            old(self).wf(),
        ensures
            final(self).wf(),
            final(self).params.notes@ == crate::notes::release(old(self).params.notes@, n),
            final(self).params == (Params { notes: final(self).params.notes, ..old(self).params }),
            *final(self) == (Engine { params: final(self).params, ..*old(self) }),
    {
        self.params.note_off(n);
    }

    /// Apply one Control Change message per the fixed table: only the
    /// parameter store moves.
    pub fn control_change(&mut self, cc: u8, v: u8)
        requires
            old(self).wf(),
            v <= 127,
        ensures
            final(self).wf(),
            final(self).params == apply_cc(old(self).params, cc, v),
            *final(self) == (Engine { params: final(self).params, ..*old(self) }),
    {
        self.params.control_change(cc, v);
    }

    /// Decode one inbound MIDI message: a Note On presses its note (a Note
    /// On at velocity zero releases it, as the protocol allows), a Note Off
    /// releases it, a Control Change goes through the fixed table, anything
    /// else changes nothing.
    pub fn handle_midi_message(&mut self, status: u8, data1: u8, data2: u8)
        requires
            old(self).wf(),
            data1 <= 127,
            data2 <= 127,
        ensures
            final(self).wf(),
            *final(self) == (Engine { params: final(self).params, ..*old(self) }),
            (status & 0xF0) == 0x90 && data2 > 0 ==> final(self).params.notes@
                == crate::notes::press(old(self).params.notes@, data1) && final(self).params == (
            Params { notes: final(self).params.notes, ..old(self).params }),
            ((status & 0xF0) == 0x80 || ((status & 0xF0) == 0x90 && data2 == 0))
                ==> final(self).params.notes@ == crate::notes::release(old(self).params.notes@,
                data1) && final(self).params == (Params {
                notes: final(self).params.notes,
                ..old(self).params
            }),
            (status & 0xF0) == 0xB0 ==> final(self).params == apply_cc(old(self).params, data1,
                data2),
            (status & 0xF0) != 0x90 && (status & 0xF0) != 0x80 && (status & 0xF0) != 0xB0
                ==> *final(self) == *old(self),
    {
        let hi = status & 0xF0;
        if hi == 0x90 && data2 > 0 {
            self.note_on(data1);
        } else if hi == 0x80 || (hi == 0x90 && data2 == 0) {
            self.note_off(data1);
        } else if hi == 0xB0 {
            self.control_change(data1, data2);
        }
    }

    /// The outbound Control Change message that reports a knob's current
    /// Q16.16 value to the control surface.
    pub fn cc_message(controller: u8, value: i64) -> (m: (u8, u8, u8))
        requires
            controller <= 127,
        ensures
            m.0 == 0xB0u8,
            m.1 == controller,
            m.2 == cc_of_unit(value as int),
            m.2 <= 127,
    {
        (0xB0, controller, cc_value_at(value))
    }

    /// Switch between polyphonic and monophonic operation.
    pub fn set_poly_mode(&mut self, on: bool)
        requires
            old(self).wf(),
        ensures
            final(self).wf(),
            final(self).params == (Params { poly_mode: on, ..old(self).params }),
            *final(self) == (Engine { params: final(self).params, ..*old(self) }),
    {
        self.params.poly_mode = on;
    }
}

/// The engine's resting state: no note held, the envelope idle at zero,
/// the filter state empty and every delay line silent. (The oscillator
/// phases are free: they spin whether or not anything sounds.)
pub open spec fn silent(e: Engine) -> bool {
    &&& e.params.notes@.len() == 0
    &&& e.envelope.level == 0
    &&& e.envelope.state == crate::envelope::GateState::Idle
    &&& e.filter.z1 == 0
    &&& e.filter.z2 == 0
    &&& crate::ring::all_zero(e.chorus.ring.buf@)
    &&& crate::ring::all_zero(e.delay.ring.buf@)
    &&& crate::ring::all_zero(e.reverb.pre.buf@)
    &&& crate::ring::all_zero(e.reverb.early.buf@)
    &&& crate::ring::all_zero(e.reverb.comb1.buf@)
    &&& crate::ring::all_zero(e.reverb.comb2.buf@)
    &&& crate::ring::all_zero(e.reverb.comb3.buf@)
    &&& crate::ring::all_zero(e.reverb.comb4.buf@)
    &&& crate::ring::all_zero(e.reverb.ap1.buf@)
    &&& crate::ring::all_zero(e.reverb.ap2.buf@)
}

/// Writing a zero into an all-zero line leaves it all zero.
proof fn lemma_all_zero_update(s: Seq<i64>, pos: int)
    requires
        crate::ring::all_zero(s),
        0 <= pos < s.len(),
    ensures
        crate::ring::all_zero(s.update(pos, 0i64)),
{
    let u = s.update(pos, 0i64);
    assert forall|i: int| 0 <= i < u.len() implies u[i] == 0 by {
        if i != pos {
            assert(u[i] == s[i]);
        }
    }
}

/// Any fractional read of an all-zero line is zero.
proof fn lemma_read_frac_zero(buf: Seq<i64>, pos: int, d: int)
    requires
        crate::ring::all_zero(buf),
        buf.len() > 0,
    ensures
        crate::ring::read_frac(buf, pos, d) == 0,
{
    let len = buf.len() as int;
    let i0 = d / (UNIT as int);
    let frac = d % (UNIT as int);
    vstd::arithmetic::div_mod::lemma_mod_bound(pos - i0, len);
    vstd::arithmetic::div_mod::lemma_mod_bound(pos - (i0 + 1), len);
    crate::fixed::lemma_mul_fx_zero(frac);
}

/// Silent degradation: a silent engine renders an exactly zero sample and
/// is silent again afterwards — with no note held, nothing in the render
/// path can introduce sound, however the parameters are set.
pub proof fn lemma_step_silent(pre: Engine, post: Engine, out: int)
    requires
        pre.wf(),
        silent(pre),
        step_rel(pre, post, out),
    ensures
        out == 0,
        silent(post),
{
    let fs = pre.fs as int;
    let p = pre.params;
    // The envelope stays idle at zero.
    let env = env_step(pre.envelope.state, pre.envelope.level as int, false, env_params_of(p, fs));
    assert(env.1 == 0);
    // Whatever the voices produce, the zero level mutes it.
    let s0 = if p.poly_mode {
        poly_voice_out(post.voice0, 0, p.v0_wave, cc_unit(p.v0_level))
    } else {
        mono_voice_out(post.voice0, p.v0_wave, cc_unit(p.v0_level))
    };
    let s1 = if p.poly_mode {
        poly_voice_out(post.voice1, 0, p.v1_wave, cc_unit(p.v1_level))
    } else {
        mono_voice_out(post.voice1, p.v1_wave, cc_unit(p.v1_level))
    };
    let s2 = if p.poly_mode {
        poly_voice_out(post.voice2, 0, p.v2_wave, cc_unit(p.v2_level))
    } else {
        mono_voice_out(post.voice2, p.v2_wave, cc_unit(p.v2_level))
    };
    let s3 = if p.poly_mode {
        poly_voice_out(post.voice3, 0, p.v3_wave, cc_unit(p.v3_level))
    } else {
        mono_voice_out(post.voice3, p.v3_wave, cc_unit(p.v3_level))
    };
    let mixv = s0 + s1 + s2 + s3;
    assert(mixv * 0 == 0) by (nonlinear_arith);
    vstd::arithmetic::div_mod::lemma_div_of0(ENV_ONE as int);
    let scaled = div_tz(mixv * env.1, ENV_ONE as int);
    assert(scaled == 0);
    // The filter of a zero sample from empty state is zero, and empty again.
    let cut = cutoff_of(p.cutoff, fs);
    let q = q_of(p.resonance);
    let k = crate::filter::prewarp(crate::filter::warp_x(cut, fs));
    crate::fixed::lemma_mul_fx_zero(crate::filter::coeff_b0(k, q));
    crate::fixed::lemma_mul_fx_zero(crate::filter::coeff_b1(k, q));
    crate::fixed::lemma_mul_fx_zero(crate::filter::coeff_a1(k, q));
    crate::fixed::lemma_mul_fx_zero(crate::filter::coeff_a2(k, q));
    let fy = filter_out(pre.filter, scaled, cut, q);
    assert(fy == 0);
    // The chorus reads a silent line, outputs zero, writes zero.
    let ch = crate::chorus::chorus_step(
        pre.chorus.ring.buf@,
        pre.chorus.ring.write_pos as int,
        pre.chorus.lfo_phase as int,
        fy,
        chorus_base_of(p.chorus_base_delay, fs),
        chorus_var_of(p.chorus_variation, fs),
        chorus_fb_of(p.chorus_feedback),
        cc_unit(p.chorus_mix),
        chorus_rate_of(p.chorus_rate),
        fs,
    );
    lemma_read_frac_zero(
        pre.chorus.ring.buf@,
        pre.chorus.ring.write_pos as int,
        crate::fixed::clamp(
            chorus_base_of(p.chorus_base_delay, fs) + crate::fixed::mul_fx(
                crate::osc::sine_shape(pre.chorus.lfo_phase as int),
                chorus_var_of(p.chorus_variation, fs),
            ),
            UNIT as int,
            (pre.chorus.ring.buf@.len() - 2) * UNIT,
        ),
    );
    crate::fixed::lemma_mul_fx_zero(cc_unit(p.chorus_mix));
    crate::fixed::lemma_mul_fx_zero(chorus_fb_of(p.chorus_feedback));
    assert(ch.2 == 0);
    lemma_all_zero_update(pre.chorus.ring.buf@, pre.chorus.ring.write_pos as int);
    // So does the delay.
    let de = crate::delay::delay_step(
        pre.delay.ring.buf@,
        pre.delay.ring.write_pos as int,
        ch.2,
        delay_time_of(p.delay_time, pre.max_delay_samples as int),
        delay_fb_of(p.delay_feedback),
        cc_unit(p.delay_mix),
    );
    lemma_read_frac_zero(
        pre.delay.ring.buf@,
        pre.delay.ring.write_pos as int,
        crate::fixed::clamp(
            delay_time_of(p.delay_time, pre.max_delay_samples as int),
            UNIT as int,
            (pre.delay.ring.buf@.len() - 2) * UNIT,
        ),
    );
    crate::fixed::lemma_mul_fx_zero(cc_unit(p.delay_mix));
    crate::fixed::lemma_mul_fx_zero(delay_fb_of(p.delay_feedback));
    assert(de.2 == 0);
    lemma_all_zero_update(pre.delay.ring.buf@, pre.delay.ring.write_pos as int);
    // And every stage of the reverb.
    let decay = reverb_decay_of(p.reverb_decay, fs);
    let rmix = cc_unit(p.reverb_mix);
    crate::fixed::lemma_mul_fx_zero(crate::reverb::comb_feedback(
        crate::reverb::COMB_DELAY_1 as int, decay));
    crate::fixed::lemma_mul_fx_zero(crate::reverb::comb_feedback(
        crate::reverb::COMB_DELAY_2 as int, decay));
    crate::fixed::lemma_mul_fx_zero(crate::reverb::comb_feedback(
        crate::reverb::COMB_DELAY_3 as int, decay));
    crate::fixed::lemma_mul_fx_zero(crate::reverb::comb_feedback(
        crate::reverb::COMB_DELAY_4 as int, decay));
    crate::fixed::lemma_mul_fx_zero(crate::reverb::ALLPASS_GAIN as int);
    crate::fixed::lemma_mul_fx_zero(crate::reverb::EARLY_GAIN_1 as int);
    crate::fixed::lemma_mul_fx_zero(crate::reverb::EARLY_GAIN_2 as int);
    crate::fixed::lemma_mul_fx_zero(crate::reverb::EARLY_GAIN_3 as int);
    crate::fixed::lemma_mul_fx_zero(crate::reverb::EARLY_GAIN_4 as int);
    crate::fixed::lemma_mul_fx_zero(rmix);
    crate::fixed::lemma_mul_fx_zero(cc_unit(p.volume));
    vstd::arithmetic::div_mod::lemma_mod_bound(pre.reverb.pre.write_pos as int + 1,
        pre.reverb.pre.buf@.len() as int);
    lemma_all_zero_update(pre.reverb.pre.buf@, pre.reverb.pre.write_pos as int);
    lemma_all_zero_update(pre.reverb.early.buf@, pre.reverb.early.write_pos as int);
    lemma_all_zero_update(pre.reverb.comb1.buf@, pre.reverb.comb1.write_pos as int);
    lemma_all_zero_update(pre.reverb.comb2.buf@, pre.reverb.comb2.write_pos as int);
    lemma_all_zero_update(pre.reverb.comb3.buf@, pre.reverb.comb3.write_pos as int);
    lemma_all_zero_update(pre.reverb.comb4.buf@, pre.reverb.comb4.write_pos as int);
    lemma_all_zero_update(pre.reverb.ap1.buf@, pre.reverb.ap1.write_pos as int);
    lemma_all_zero_update(pre.reverb.ap2.buf@, pre.reverb.ap2.write_pos as int);
    let early_after = crate::reverb::line_step(pre.reverb.early.buf@,
        pre.reverb.early.write_pos as int, 0);
    assert(crate::reverb::early_taps(early_after.0, early_after.1) == 0) by {
        let len = early_after.0.len() as int;
        vstd::arithmetic::div_mod::lemma_mod_bound(early_after.1
            - crate::reverb::EARLY_TAP_1 as int, len);
        vstd::arithmetic::div_mod::lemma_mod_bound(early_after.1
            - crate::reverb::EARLY_TAP_2 as int, len);
        vstd::arithmetic::div_mod::lemma_mod_bound(early_after.1
            - crate::reverb::EARLY_TAP_3 as int, len);
        vstd::arithmetic::div_mod::lemma_mod_bound(early_after.1
            - crate::reverb::EARLY_TAP_4 as int, len);
        vstd::arithmetic::div_mod::lemma_mod_bound(pre.reverb.early.write_pos as int + 1, len);
    }
}

} // verus!
