//! A polyphonic, MIDI-driven software synthesizer engine.
//!
//! The engine turns note events and controller values into a digital audio
//! signal: a shared parameter store feeds a per-voice oscillator, an ADSR
//! envelope, a resonant low-pass filter, and a chain of time-domain effects
//! (chorus, delay, reverb), pulled together once per output buffer.
//!
//! All audio values are fixed-point integers (see [`fixed`]), so every stage
//! is total: no sample can ever become NaN or infinite, and every feedback
//! loop is proved bounded. The engine's per-sample behaviour is pinned
//! exactly by [`engine::step_rel`]; on top of the exact contracts the
//! library states and proves, among others:
//!
//! - envelope totality, path soundness and the timed ADSR run — full scale
//!   within one sample of the attack time, exactly the sustain level through
//!   the hold, exact silence within one sample of the release time
//!   ([`envelope::lemma_env_run_in_range`], [`envelope::lemma_env_step_edges`],
//!   [`envelope::lemma_adsr_timeline`]);
//! - filter boundedness for every cutoff and resonance over any run
//!   ([`filter::lemma_df2t_run_bounded`]);
//! - the delay at zero feedback and full mix is a pure shift, runs are
//!   deterministic and always bounded ([`delay::lemma_delay_zero_feedback`],
//!   [`delay::lemma_delay_run_deterministic`], [`delay::lemma_delay_run_bounded`]);
//! - a chorus with zero variation is exactly a fixed delay
//!   ([`chorus::lemma_chorus_variation_zero`]);
//! - the held-note collection never holds a note twice, under any
//!   interleaving of presses and releases ([`notes::lemma_ops_no_dups`]);
//! - a silent engine renders exact silence, forever
//!   ([`engine::lemma_step_silent`]).

pub mod fixed;
pub mod notes;
pub mod envelope;
pub mod osc;
pub mod glide;
pub mod modulator;
pub mod voice;
pub mod filter;
pub mod ring;
pub mod delay;
pub mod chorus;
pub mod reverb;
pub mod params;
pub mod engine;
pub mod surface;
