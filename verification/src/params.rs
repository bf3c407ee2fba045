//! The live parameter store: every tunable control of the engine, the
//! per-voice settings of the fixed four-voice pool, and the held-note
//! collection. Controller values arrive raw (0..=127) and are scaled into
//! each field's native range where the engine reads them. The fixed
//! controller-number-to-parameter table is `apply_cc`.

use vstd::prelude::*;
use crate::fixed::{UNIT, div_tz};
use crate::notes::NoteStack;
use crate::osc::Waveform;

verus! {

/// The size of the fixed voice pool.
pub const NUM_VOICES: usize = 4;

/// The octave shift a controller value maps to: truncation of
/// `value / 127 * 6 - 3`, between three octaves down and three up.
pub open spec fn octave_of(v: u8) -> i8 {
    div_tz(6 * v - 381, 127) as i8
}

/// The semitone offset a controller value maps to: truncation of
/// `value / 127 * 14 - 7`, up to seven semitones either way.
pub open spec fn semitone_of(v: u8) -> i8 {
    div_tz(14 * v - 889, 127) as i8
}

/// The micro-detune a controller value maps to: `value / 127 - 1/2` as a
/// Q16.16 fraction of a semitone, half a semitone either way (the top of
/// the range capped one step short of the type's bound).
pub open spec fn detune_of(v: u8) -> i16 {
    crate::fixed::clamp(div_tz(v * UNIT, 127) - UNIT / 2, -32768, 32767) as i16
}

/// The live parameter store.
pub struct Params {
    /// The held-note collection with its last-note / any-held pair.
    pub notes: NoteStack,
    /// True for polyphonic operation, false for monophonic legato.
    pub poly_mode: bool,
    /// Master volume. Raw controller value (0..=127).
    pub volume: u8,
    /// Filter cutoff. Raw controller value (0..=127).
    pub cutoff: u8,
    /// Filter resonance. Raw controller value (0..=127).
    pub resonance: u8,
    /// Delay time. Raw controller value (0..=127).
    pub delay_time: u8,
    /// Delay feedback. Raw controller value (0..=127).
    pub delay_feedback: u8,
    /// Delay dry/wet mix. Raw controller value (0..=127).
    pub delay_mix: u8,
    /// Reverb decay time. Raw controller value (0..=127).
    pub reverb_decay: u8,
    /// Reverb dry/wet mix. Raw controller value (0..=127).
    pub reverb_mix: u8,
    /// Glide (portamento) time. Raw controller value (0..=127).
    pub glide_time: u8,
    /// Chorus LFO rate. Raw controller value (0..=127).
    pub chorus_rate: u8,
    /// Chorus base delay. Raw controller value (0..=127).
    pub chorus_base_delay: u8,
    /// Chorus LFO depth (delay variation). Raw controller value (0..=127).
    pub chorus_variation: u8,
    /// Chorus feedback. Raw controller value (0..=127).
    pub chorus_feedback: u8,
    /// Chorus dry/wet mix. Raw controller value (0..=127).
    pub chorus_mix: u8,
    /// Envelope attack time. Raw controller value (0..=127).
    pub attack: u8,
    /// Envelope decay time. Raw controller value (0..=127).
    pub decay: u8,
    /// Envelope sustain level. Raw controller value (0..=127).
    pub sustain: u8,
    /// Envelope release time. Raw controller value (0..=127).
    pub release: u8,
    /// Vibrato LFO rate. Raw controller value (0..=127).
    pub vibrato_rate: u8,
    /// Vibrato depth. Raw controller value (0..=127).
    pub vibrato_depth: u8,
    /// Voice 0: level (raw controller value), waveform, octave shift,
    /// semitone offset and micro-detune (Q16.16 fraction of a semitone).
    pub v0_level: u8,
    pub v0_wave: Waveform,
    pub v0_octave: i8,
    pub v0_semitone: i8,
    pub v0_detune: i16,
    /// Voice 1: level (raw controller value), waveform, octave shift,
    /// semitone offset and micro-detune (Q16.16 fraction of a semitone).
    pub v1_level: u8,
    pub v1_wave: Waveform,
    pub v1_octave: i8,
    pub v1_semitone: i8,
    pub v1_detune: i16,
    /// Voice 2: level (raw controller value), waveform, octave shift,
    /// semitone offset and micro-detune (Q16.16 fraction of a semitone).
    pub v2_level: u8,
    pub v2_wave: Waveform,
    pub v2_octave: i8,
    pub v2_semitone: i8,
    pub v2_detune: i16,
    /// Voice 3: level (raw controller value), waveform, octave shift,
    /// semitone offset and micro-detune (Q16.16 fraction of a semitone).
    pub v3_level: u8,
    pub v3_wave: Waveform,
    pub v3_octave: i8,
    pub v3_semitone: i8,
    pub v3_detune: i16,
}

/// The fixed controller-number-to-parameter table: what one Control
/// Change message does to the store. Unmapped controllers change nothing.
pub open spec fn apply_cc(p: Params, cc: u8, v: u8) -> Params {
    if cc == 1 {
        Params { volume: v, ..p }
    } else if cc == 4 {
        Params { chorus_rate: v, ..p }
    } else if cc == 5 {
        Params { chorus_base_delay: v, ..p }
    } else if cc == 8 {
        Params { chorus_feedback: v, ..p }
    } else if cc == 9 {
        Params { chorus_mix: v, ..p }
    } else if cc == 10 {
        Params { chorus_variation: v, ..p }
    } else if cc == 20 {
        Params { cutoff: v, ..p }
    } else if cc == 21 {
        Params { resonance: v, ..p }
    } else if cc == 22 {
        Params { delay_mix: v, ..p }
    } else if cc == 23 {
        Params { delay_feedback: v, ..p }
    } else if cc == 25 {
        Params { delay_time: v, ..p }
    } else if cc == 26 {
        Params { reverb_decay: v, ..p }
    } else if cc == 27 {
        Params { reverb_mix: v, ..p }
    } else if cc == 28 {
        Params { glide_time: v, ..p }
    } else if cc == 31 {
        Params { attack: v, ..p }
    } else if cc == 33 {
        Params { decay: v, ..p }
    } else if cc == 34 {
        Params { release: v, ..p }
    } else if cc == 56 {
        Params { sustain: v, ..p }
    } else if cc == 0 {
        Params { v0_level: v, ..p }
    } else if cc == 2 {
        Params { v2_level: v, ..p }
    } else if cc == 3 {
        Params { v3_level: v, ..p }
    } else if cc == 11 {
        Params { v0_octave: octave_of(v), ..p }
    } else if cc == 13 {
        Params { v1_octave: octave_of(v), ..p }
    } else if cc == 15 {
        Params { v2_octave: octave_of(v), ..p }
    } else if cc == 17 {
        Params { v3_octave: octave_of(v), ..p }
    } else if cc == 12 {
        Params { v0_semitone: semitone_of(v), ..p }
    } else if cc == 14 {
        Params { v1_semitone: semitone_of(v), ..p }
    } else if cc == 16 {
        Params { v2_semitone: semitone_of(v), ..p }
    } else if cc == 18 {
        Params { v3_semitone: semitone_of(v), ..p }
    } else if cc == 41 {
        Params { v0_detune: detune_of(v), ..p }
    } else if cc == 43 {
        Params { v1_detune: detune_of(v), ..p }
    } else if cc == 45 {
        Params { v2_detune: detune_of(v), ..p }
    } else if cc == 47 {
        Params { v3_detune: detune_of(v), ..p }
    } else {
        p
    }
}

impl Params {
    /// The note collection is well formed and every stored controller
    /// value and derived offset is in its range.
    pub open spec fn wf(&self) -> bool {
        &&& self.notes.wf()
        &&& self.volume <= 127
        &&& self.cutoff <= 127
        &&& self.resonance <= 127
        &&& self.delay_time <= 127
        &&& self.delay_feedback <= 127
        &&& self.delay_mix <= 127
        &&& self.reverb_decay <= 127
        &&& self.reverb_mix <= 127
        &&& self.glide_time <= 127
        &&& self.chorus_rate <= 127
        &&& self.chorus_base_delay <= 127
        &&& self.chorus_variation <= 127
        &&& self.chorus_feedback <= 127
        &&& self.chorus_mix <= 127
        &&& self.attack <= 127
        &&& self.decay <= 127
        &&& self.sustain <= 127
        &&& self.release <= 127
        &&& self.vibrato_rate <= 127
        &&& self.vibrato_depth <= 127
        &&& self.v0_level <= 127
        &&& -3 <= self.v0_octave <= 3
        &&& -7 <= self.v0_semitone <= 7
        &&& self.v1_level <= 127
        &&& -3 <= self.v1_octave <= 3
        &&& -7 <= self.v1_semitone <= 7
        &&& self.v2_level <= 127
        &&& -3 <= self.v2_octave <= 3
        &&& -7 <= self.v2_semitone <= 7
        &&& self.v3_level <= 127
        &&& -3 <= self.v3_octave <= 3
        &&& -7 <= self.v3_semitone <= 7
    }

    /// The store at its start-up defaults: the classic four-voice patch
    /// (sine, square an octave up, sawtooth a fifth up, detuned triangle),
    /// monophonic, nothing held, every scalar control at its resting value.
    pub fn new() -> (p: Params)
        ensures
            p.wf(),
            p.notes@ == Seq::<u8>::empty(),
            !p.poly_mode,
            p.volume == 127,
            p.cutoff == 127,
            p.resonance == 32,
            p.delay_time == 32,
            p.delay_feedback == 38,
            p.delay_mix == 32,
            p.reverb_decay == 38,
            p.reverb_mix == 32,
            p.glide_time == 6,
            p.chorus_rate == 13,
            p.chorus_base_delay == 6,
            p.chorus_variation == 3,
            p.chorus_feedback == 32,
            p.chorus_mix == 32,
            p.attack == 3,
            p.decay == 32,
            p.sustain == 100,
            p.release == 32,
            p.vibrato_rate == 0,
            p.vibrato_depth == 0,
            p.v0_level == 32 && p.v0_wave == Waveform::Sine && p.v0_octave == 0
                && p.v0_semitone == 0 && p.v0_detune == 0,
            p.v1_level == 32 && p.v1_wave == Waveform::Square && p.v1_octave == 1
                && p.v1_semitone == 0 && p.v1_detune == 0,
            p.v2_level == 32 && p.v2_wave == Waveform::Sawtooth && p.v2_octave == 0
                && p.v2_semitone == 7 && p.v2_detune == 0,
            p.v3_level == 32 && p.v3_wave == Waveform::Triangle && p.v3_octave == 0
                && p.v3_semitone == 0 && p.v3_detune == 6554,
    {
        Params {
            notes: NoteStack::new(),
            poly_mode: false,
            volume: 127,
            cutoff: 127,
            resonance: 32,
            delay_time: 32,
            delay_feedback: 38,
            delay_mix: 32,
            reverb_decay: 38,
            reverb_mix: 32,
            glide_time: 6,
            chorus_rate: 13,
            chorus_base_delay: 6,
            chorus_variation: 3,
            chorus_feedback: 32,
            chorus_mix: 32,
            attack: 3,
            decay: 32,
            sustain: 100,
            release: 32,
            vibrato_rate: 0,
            vibrato_depth: 0,
            v0_level: 32,
            v0_wave: Waveform::Sine,
            v0_octave: 0,
            v0_semitone: 0,
            v0_detune: 0,
            v1_level: 32,
            v1_wave: Waveform::Square,
            v1_octave: 1,
            v1_semitone: 0,
            v1_detune: 0,
            v2_level: 32,
            v2_wave: Waveform::Sawtooth,
            v2_octave: 0,
            v2_semitone: 7,
            v2_detune: 0,
            v3_level: 32,
            v3_wave: Waveform::Triangle,
            v3_octave: 0,
            v3_semitone: 0,
            v3_detune: 6554,
        }
    }

    /// Apply one Control Change message per the fixed table.
    pub fn control_change(&mut self, cc: u8, v: u8)
        requires
            old(self).wf(),
            v <= 127,
        ensures
            final(self).wf(),
            *final(self) == apply_cc(*old(self), cc, v),
    {
        match cc {
            1 => self.volume = v,
            4 => self.chorus_rate = v,
            5 => self.chorus_base_delay = v,
            8 => self.chorus_feedback = v,
            9 => self.chorus_mix = v,
            10 => self.chorus_variation = v,
            20 => self.cutoff = v,
            21 => self.resonance = v,
            22 => self.delay_mix = v,
            23 => self.delay_feedback = v,
            25 => self.delay_time = v,
            26 => self.reverb_decay = v,
            27 => self.reverb_mix = v,
            28 => self.glide_time = v,
            31 => self.attack = v,
            33 => self.decay = v,
            34 => self.release = v,
            56 => self.sustain = v,
            0 => self.v0_level = v,
            2 => self.v2_level = v,
            3 => self.v3_level = v,
            11 => self.v0_octave = octave_at(v),
            13 => self.v1_octave = octave_at(v),
            15 => self.v2_octave = octave_at(v),
            17 => self.v3_octave = octave_at(v),
            12 => self.v0_semitone = semitone_at(v),
            14 => self.v1_semitone = semitone_at(v),
            16 => self.v2_semitone = semitone_at(v),
            18 => self.v3_semitone = semitone_at(v),
            41 => self.v0_detune = detune_at(v),
            43 => self.v1_detune = detune_at(v),
            45 => self.v2_detune = detune_at(v),
            47 => self.v3_detune = detune_at(v),
            _ => (),
        }
    }

    /// Press a note in the collection.
    pub fn note_on(&mut self, n: u8)
        requires
            old(self).wf(),
            n < 128,
        ensures
            final(self).wf(),
            final(self).notes@ == crate::notes::press(old(self).notes@, n),
            *final(self) == (Params { notes: final(self).notes, ..*old(self) }),
    {
        self.notes.note_on(n);
    }

    /// Release a note in the collection.
    pub fn note_off(&mut self, n: u8)
        requires
            old(self).wf(),
        ensures
            final(self).wf(),
            final(self).notes@ == crate::notes::release(old(self).notes@, n),
            *final(self) == (Params { notes: final(self).notes, ..*old(self) }),
    {
        self.notes.note_off(n);
    }
}

/// The octave shift for a controller value.
pub fn octave_at(v: u8) -> (r: i8)
    requires
        v <= 127,
    ensures
        r == octave_of(v),
        -3 <= r <= 3,
{
    let t = crate::fixed::div_trunc(6 * (v as i64) - 381, 127);
    t as i8
}

/// The semitone offset for a controller value.
pub fn semitone_at(v: u8) -> (r: i8)
    requires
        v <= 127,
    ensures
        r == semitone_of(v),
        -7 <= r <= 7,
{
    let t = crate::fixed::div_trunc(14 * (v as i64) - 889, 127);
    t as i8
}

/// The micro-detune for a controller value.
pub fn detune_at(v: u8) -> (r: i16)
    requires
        v <= 127,
    ensures
        r == detune_of(v),
        -32768 <= r <= 32767,
{
    let t = crate::fixed::div_trunc((v as i64) * UNIT, 127) - UNIT / 2;
    let c = crate::fixed::clamp_fx(t, -32768, 32767);
    c as i16
}

} // verus!
