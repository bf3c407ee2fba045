//! The reverb: a short fixed pre-delay, a set of early-reflection taps read
//! from one shared line, four parallel comb filters whose feedback is
//! derived from the configured decay time (so the tail's -60 dB point
//! aligns with it), and two serial all-pass diffusers, blended with the dry
//! signal by the mix parameter.
//!
//! The comb feedback is `10 ^ (-3 * delay_seconds / decay_time)`, computed
//! in fixed point as a power of two (`10^e = 2^(e * log2(10))`) with a cubic
//! approximation of `2^-t` on the unit interval, and clamped below one so
//! the tail always dies away.

use vstd::prelude::*;
use crate::fixed::{UNIT, SAT, div_tz, mul_fx, clamp};
use crate::ring::Ring;

verus! {

/// `3 * log2(10)` in Q16.16: the exponent scale of the decay formula.
pub const DECAY_EXP_SCALE: i64 = 653116;

/// The comb delays, in samples.
pub const COMB_DELAY_1: usize = 1557;

pub const COMB_DELAY_2: usize = 1617;

pub const COMB_DELAY_3: usize = 1491;

pub const COMB_DELAY_4: usize = 1422;

/// The all-pass delays, in samples, and their fixed gain (0.7).
pub const ALLPASS_DELAY_1: usize = 225;

pub const ALLPASS_DELAY_2: usize = 556;

pub const ALLPASS_GAIN: i64 = 45875;

/// The early-reflection line length and taps (delay, Q16.16 gain).
pub const EARLY_LEN: usize = 6000;

pub const EARLY_TAP_1: usize = 2345;

pub const EARLY_GAIN_1: i64 = 51118;

pub const EARLY_TAP_2: usize = 3456;

pub const EARLY_GAIN_2: i64 = 42598;

pub const EARLY_TAP_3: usize = 4567;

pub const EARLY_GAIN_3: i64 = 36045;

pub const EARLY_TAP_4: usize = 5678;

pub const EARLY_GAIN_4: i64 = 29491;

/// One step of a plain delay line of `len` slots: the output is the entry
/// one ahead of the cursor — the input written `len - 1` calls earlier —
/// and the input replaces the cursor's slot.
pub open spec fn line_step(buf: Seq<i64>, pos: int, x: int) -> (Seq<i64>, int, int) {
    let len = buf.len() as int;
    let out = buf[(pos + 1) % len] as int;
    (buf.update(pos, clamp(x, -SAT as int, SAT as int) as i64), (pos + 1) % len, out)
}

/// One comb-filter step: the delayed sample comes out, the input plus the
/// fed-back delayed sample (saturated) goes in.
pub open spec fn comb_step(buf: Seq<i64>, pos: int, x: int, fb: int) -> (Seq<i64>, int, int) {
    let delayed = buf[pos] as int;
    let w = clamp(x + mul_fx(fb, delayed), -SAT as int, SAT as int);
    (buf.update(pos, w as i64), (pos + 1) % (buf.len() as int), delayed)
}

/// One all-pass step: `out = delayed - g * x` (saturated), and
/// `out * g + x` (saturated) goes into the line — diffusion that leaves the
/// magnitude spectrum alone.
pub open spec fn allpass_step(buf: Seq<i64>, pos: int, x: int, g: int) -> (Seq<i64>, int, int) {
    let delayed = buf[pos] as int;
    let out = clamp(delayed - mul_fx(g, x), -SAT as int, SAT as int);
    let w = clamp(mul_fx(g, out) + x, -SAT as int, SAT as int);
    (buf.update(pos, w as i64), (pos + 1) % (buf.len() as int), out)
}

/// The summed early reflections after the input has entered the line.
pub open spec fn early_taps(buf: Seq<i64>, pos: int) -> int {
    let len = buf.len() as int;
    mul_fx(EARLY_GAIN_1 as int, buf[crate::ring::back_index(pos, EARLY_TAP_1 as int, len)] as int)
        + mul_fx(EARLY_GAIN_2 as int, buf[crate::ring::back_index(pos, EARLY_TAP_2 as int,
        len)] as int) + mul_fx(EARLY_GAIN_3 as int, buf[crate::ring::back_index(pos,
        EARLY_TAP_3 as int, len)] as int) + mul_fx(EARLY_GAIN_4 as int, buf[
        crate::ring::back_index(pos, EARLY_TAP_4 as int, len)] as int)
}

/// The cubic approximation of `2^(-f)` for a fraction `f` in `[0, UNIT)`.
pub open spec fn exp2_frac(f: int) -> int {
    UNIT - mul_fx(45426, f) + mul_fx(15744, mul_fx(f, f)) - mul_fx(3638, mul_fx(mul_fx(f, f), f))
}

/// The comb feedback for a line of `delay` samples at a decay of `decay`
/// samples: `10 ^ (-3 * delay / decay)`, clamped below one; a zero decay
/// silences the tail at once.
pub open spec fn comb_feedback(delay: int, decay: int) -> int {
    if decay <= 0 {
        0
    } else {
        let e = div_tz(delay * DECAY_EXP_SCALE, decay);
        let i = e / (UNIT as int);
        let f = e % (UNIT as int);
        if i >= 17 {
            0
        } else {
            clamp(
                div_tz(exp2_frac(f), vstd::arithmetic::power2::pow2(i as nat) as int),
                0,
                crate::delay::FEEDBACK_MAX as int,
            )
        }
    }
}

/// On the unit interval the exponential approximation stays within
/// `[0, 2 * UNIT]`.
proof fn lemma_exp2_frac_bounds(f: int)
    requires
        0 <= f < UNIT,
    ensures
        0 <= exp2_frac(f) <= 2 * UNIT,
{
    crate::fixed::lemma_mul_fx_unit_bound(45426, f, 45426);
    assert(0 <= 45426 * f) by (nonlinear_arith)
        requires
            0 <= f,
    ;
    crate::fixed::lemma_div_tz_bounds(45426 * f, UNIT as int);
    crate::fixed::lemma_mul_fx_unit_bound(f, f, UNIT as int);
    assert(0 <= f * f) by (nonlinear_arith)
        requires
            0 <= f,
    ;
    crate::fixed::lemma_div_tz_bounds(f * f, UNIT as int);
    let f2 = mul_fx(f, f);
    crate::fixed::lemma_mul_fx_unit_bound(15744, f2, 15744);
    assert(0 <= 15744 * f2) by (nonlinear_arith)
        requires
            0 <= f2,
    ;
    crate::fixed::lemma_div_tz_bounds(15744 * f2, UNIT as int);
    crate::fixed::lemma_mul_fx_unit_bound(f2, f, UNIT as int);
    assert(0 <= f2 * f) by (nonlinear_arith)
        requires
            0 <= f2,
            0 <= f,
    ;
    crate::fixed::lemma_div_tz_bounds(f2 * f, UNIT as int);
    let f3 = mul_fx(f2, f);
    crate::fixed::lemma_mul_fx_unit_bound(3638, f3, 3638);
    assert(0 <= 3638 * f3) by (nonlinear_arith)
        requires
            0 <= f3,
    ;
    crate::fixed::lemma_div_tz_bounds(3638 * f3, UNIT as int);
}

/// The reverb effect: its delay lines, the comb feedbacks and the decay
/// they were derived from.
pub struct Reverb {
    /// The fixed pre-delay line.
    pub pre: Ring,
    /// The early-reflection line.
    pub early: Ring,
    /// The four parallel comb lines.
    pub comb1: Ring,
    pub comb2: Ring,
    pub comb3: Ring,
    pub comb4: Ring,
    /// The two serial all-pass lines.
    pub ap1: Ring,
    pub ap2: Ring,
    /// The comb feedbacks, derived from `last_decay`.
    pub fb1: i64,
    pub fb2: i64,
    pub fb3: i64,
    pub fb4: i64,
    /// The decay (in samples) the feedbacks were computed for.
    pub last_decay: i64,
}

/// The whole transition one reverb sample makes: pre-delay, early taps and
/// comb bank on the delayed signal, the comb sum diffused through both
/// all-passes, the wet sum blended with the dry input by `mix`.
pub open spec fn reverb_rel(pre: Reverb, post: Reverb, x: int, decay: int, mix: int, out: int)
    -> bool {
    let fb1 = comb_feedback(COMB_DELAY_1 as int, decay);
    let fb2 = comb_feedback(COMB_DELAY_2 as int, decay);
    let fb3 = comb_feedback(COMB_DELAY_3 as int, decay);
    let fb4 = comb_feedback(COMB_DELAY_4 as int, decay);
    let pr = line_step(pre.pre.buf@, pre.pre.write_pos as int, x);
    let d = pr.2;
    let early = line_step(pre.early.buf@, pre.early.write_pos as int, d);
    let e = early_taps(early.0, early.1);
    let c1 = comb_step(pre.comb1.buf@, pre.comb1.write_pos as int, d, fb1);
    let c2 = comb_step(pre.comb2.buf@, pre.comb2.write_pos as int, d, fb2);
    let c3 = comb_step(pre.comb3.buf@, pre.comb3.write_pos as int, d, fb3);
    let c4 = comb_step(pre.comb4.buf@, pre.comb4.write_pos as int, d, fb4);
    let late_in = clamp(c1.2 + c2.2 + c3.2 + c4.2, -SAT as int, SAT as int);
    let a1 = allpass_step(pre.ap1.buf@, pre.ap1.write_pos as int, late_in, ALLPASS_GAIN as int);
    let a2 = allpass_step(pre.ap2.buf@, pre.ap2.write_pos as int, a1.2, ALLPASS_GAIN as int);
    let wet = clamp(e + a2.2, -SAT as int, SAT as int);
    &&& post.last_decay == decay
    &&& post.pre.buf@ == pr.0 && post.pre.write_pos == pr.1
    &&& post.early.buf@ == early.0 && post.early.write_pos == early.1
    &&& post.comb1.buf@ == c1.0 && post.comb1.write_pos == c1.1
    &&& post.comb2.buf@ == c2.0 && post.comb2.write_pos == c2.1
    &&& post.comb3.buf@ == c3.0 && post.comb3.write_pos == c3.1
    &&& post.comb4.buf@ == c4.0 && post.comb4.write_pos == c4.1
    &&& post.ap1.buf@ == a1.0 && post.ap1.write_pos == a1.1
    &&& post.ap2.buf@ == a2.0 && post.ap2.write_pos == a2.1
    &&& out == x + mul_fx(mix, wet - x)
}

/// The output of one reverb sample, determined by the starting state.
pub open spec fn reverb_out(pre: Reverb, x: int, decay: int, mix: int) -> int {
    let fb1 = comb_feedback(COMB_DELAY_1 as int, decay);
    let fb2 = comb_feedback(COMB_DELAY_2 as int, decay);
    let fb3 = comb_feedback(COMB_DELAY_3 as int, decay);
    let fb4 = comb_feedback(COMB_DELAY_4 as int, decay);
    let pr = line_step(pre.pre.buf@, pre.pre.write_pos as int, x);
    let d = pr.2;
    let early = line_step(pre.early.buf@, pre.early.write_pos as int, d);
    let e = early_taps(early.0, early.1);
    let c1 = comb_step(pre.comb1.buf@, pre.comb1.write_pos as int, d, fb1);
    let c2 = comb_step(pre.comb2.buf@, pre.comb2.write_pos as int, d, fb2);
    let c3 = comb_step(pre.comb3.buf@, pre.comb3.write_pos as int, d, fb3);
    let c4 = comb_step(pre.comb4.buf@, pre.comb4.write_pos as int, d, fb4);
    let late_in = clamp(c1.2 + c2.2 + c3.2 + c4.2, -SAT as int, SAT as int);
    let a1 = allpass_step(pre.ap1.buf@, pre.ap1.write_pos as int, late_in, ALLPASS_GAIN as int);
    let a2 = allpass_step(pre.ap2.buf@, pre.ap2.write_pos as int, a1.2, ALLPASS_GAIN as int);
    let wet = clamp(e + a2.2, -SAT as int, SAT as int);
    x + mul_fx(mix, wet - x)
}

impl Reverb {
    /// Every line is well formed at its fixed length, and the feedbacks are
    /// exactly those the decay prescribes.
    pub open spec fn wf(&self) -> bool {
        &&& self.pre.wf()
        &&& 2 <= self.pre.buf@.len()
        &&& self.early.wf()
        &&& self.early.buf@.len() == EARLY_LEN
        &&& self.comb1.wf()
        &&& self.comb1.buf@.len() == COMB_DELAY_1
        &&& self.comb2.wf()
        &&& self.comb2.buf@.len() == COMB_DELAY_2
        &&& self.comb3.wf()
        &&& self.comb3.buf@.len() == COMB_DELAY_3
        &&& self.comb4.wf()
        &&& self.comb4.buf@.len() == COMB_DELAY_4
        &&& self.ap1.wf()
        &&& self.ap1.buf@.len() == ALLPASS_DELAY_1
        &&& self.ap2.wf()
        &&& self.ap2.buf@.len() == ALLPASS_DELAY_2
        &&& 0 <= self.last_decay
        &&& self.fb1 == comb_feedback(COMB_DELAY_1 as int, self.last_decay as int)
        &&& self.fb2 == comb_feedback(COMB_DELAY_2 as int, self.last_decay as int)
        &&& self.fb3 == comb_feedback(COMB_DELAY_3 as int, self.last_decay as int)
        &&& self.fb4 == comb_feedback(COMB_DELAY_4 as int, self.last_decay as int)
    }

    /// A silent reverb at sample rate `fs`: the pre-delay line holds 50 ms
    /// of samples, every line starts silent with its cursor at the front,
    /// and the comb feedbacks rest at zero until a decay is heard.
    pub fn new(fs: i64) -> (r: Reverb)
        requires
            1000 <= fs <= 192000,
        ensures
            r.wf(),
            r.last_decay == 0,
            r.fb1 == 0 && r.fb2 == 0 && r.fb3 == 0 && r.fb4 == 0,
            r.pre.buf@.len() == fs / 20,
            r.pre.write_pos == 0 && crate::ring::all_zero(r.pre.buf@),
            r.early.write_pos == 0 && crate::ring::all_zero(r.early.buf@),
            r.comb1.write_pos == 0 && crate::ring::all_zero(r.comb1.buf@),
            r.comb2.write_pos == 0 && crate::ring::all_zero(r.comb2.buf@),
            r.comb3.write_pos == 0 && crate::ring::all_zero(r.comb3.buf@),
            r.comb4.write_pos == 0 && crate::ring::all_zero(r.comb4.buf@),
            r.ap1.write_pos == 0 && crate::ring::all_zero(r.ap1.buf@),
            r.ap2.write_pos == 0 && crate::ring::all_zero(r.ap2.buf@),
    {
        let pre_len = (fs / 20) as usize;
        Reverb {
            pre: Ring::new(pre_len),
            early: Ring::new(EARLY_LEN),
            comb1: Ring::new(COMB_DELAY_1),
            comb2: Ring::new(COMB_DELAY_2),
            comb3: Ring::new(COMB_DELAY_3),
            comb4: Ring::new(COMB_DELAY_4),
            ap1: Ring::new(ALLPASS_DELAY_1),
            ap2: Ring::new(ALLPASS_DELAY_2),
            fb1: 0,
            fb2: 0,
            fb3: 0,
            fb4: 0,
            last_decay: 0,
        }
    }

    /// The feedback of a comb of `delay` samples at `decay` samples.
    fn feedback_for(delay: usize, decay: i64) -> (fb: i64)
        requires
            1 <= delay <= 2048,
            0 <= decay,
        ensures
            fb == comb_feedback(delay as int, decay as int),
            0 <= fb <= crate::delay::FEEDBACK_MAX,
    {
        if decay <= 0 {
            return 0;
        }
        let e = crate::fixed::div_trunc((delay as i64) * DECAY_EXP_SCALE, decay);
        let i = ((e as u64) / (UNIT as u64)) as i64;
        let f = e - i * UNIT;
        proof {
            vstd::arithmetic::div_mod::lemma_fundamental_div_mod(e as int, UNIT as int);
            vstd::arithmetic::div_mod::lemma_mod_bound(e as int, UNIT as int);
            vstd::arithmetic::div_mod::lemma_div_pos_is_pos(e as int, UNIT as int);
        }
        if i >= 17 {
            return 0;
        }
        proof {
            lemma_exp2_frac_bounds(f as int);
        }
        let f2 = crate::fixed::mul_trunc(f, f);
        proof {
            crate::fixed::lemma_mul_fx_unit_bound(f as int, f as int, UNIT as int);
        }
        let f3 = crate::fixed::mul_trunc(f2, f);
        let v = UNIT - crate::fixed::mul_trunc(45426, f) + crate::fixed::mul_trunc(15744, f2)
            - crate::fixed::mul_trunc(3638, f3);
        let mut j: i64 = 0;
        let mut w: i64 = v;
        proof {
            vstd::arithmetic::power2::lemma2_to64();
        }
        while j < i
            invariant
                0 <= j <= i < 17,
                0 <= v <= 2 * UNIT,
                w == div_tz(v as int, vstd::arithmetic::power2::pow2(j as nat) as int),
                0 <= w <= 2 * UNIT,
            decreases i - j,
        {
            proof {
                vstd::arithmetic::power2::lemma_pow2_pos(j as nat);
                vstd::arithmetic::power2::lemma_pow2_pos((j + 1) as nat);
                vstd::arithmetic::power2::lemma_pow2_unfold((j + 1) as nat);
                vstd::arithmetic::div_mod::lemma_div_denominator(
                    v as int,
                    vstd::arithmetic::power2::pow2(j as nat) as int,
                    2,
                );
                assert(vstd::arithmetic::power2::pow2(j as nat) as int * 2 ==
                    vstd::arithmetic::power2::pow2((j + 1) as nat) as int) by (nonlinear_arith)
                    requires
                        vstd::arithmetic::power2::pow2((j + 1) as nat) == 2
                            * vstd::arithmetic::power2::pow2(j as nat),
                ;
                crate::fixed::lemma_div_tz_bounds(w as int, 2);
            }
            w = w / 2;
            j = j + 1;
        }
        crate::fixed::clamp_fx(w, 0, crate::delay::FEEDBACK_MAX)
    }

    /// Process one sample at the given decay (samples) and dry/wet mix:
    /// pre-delay, then early reflections and the comb bank in parallel on
    /// the delayed signal, the comb sum diffused through both all-passes,
    /// and the wet sum blended with the dry input. The output is pinned
    /// exactly and stays within the saturation bound.
    pub fn process_sample(&mut self, x: i64, decay: i64, mix: i64) -> (out: i64)
        requires
            old(self).wf(),
            -SAT <= x <= SAT,
            0 <= decay,
            0 <= mix <= UNIT,
        ensures
            final(self).wf(),
            reverb_rel(*old(self), *final(self), x as int, decay as int, mix as int, out as int),
            out == reverb_out(*old(self), x as int, decay as int, mix as int),
            -SAT <= out <= SAT,
    {
        if decay != self.last_decay {
            self.fb1 = Self::feedback_for(COMB_DELAY_1, decay);
            self.fb2 = Self::feedback_for(COMB_DELAY_2, decay);
            self.fb3 = Self::feedback_for(COMB_DELAY_3, decay);
            self.fb4 = Self::feedback_for(COMB_DELAY_4, decay);
            self.last_decay = decay;
        }
        let d = Self::line_sample(&mut self.pre, x);
        let _ = Self::line_sample(&mut self.early, d);
        let e = Self::early_sum(&self.early);
        let c1 = Self::comb_sample(&mut self.comb1, d, self.fb1);
        let c2 = Self::comb_sample(&mut self.comb2, d, self.fb2);
        let c3 = Self::comb_sample(&mut self.comb3, d, self.fb3);
        let c4 = Self::comb_sample(&mut self.comb4, d, self.fb4);
        let late_in = crate::fixed::clamp_fx(c1 + c2 + c3 + c4, -SAT, SAT);
        let a1 = Self::allpass_sample(&mut self.ap1, late_in);
        let a2 = Self::allpass_sample(&mut self.ap2, a1);
        let wet = crate::fixed::clamp_fx(e + a2, -SAT, SAT);
        proof {
            crate::ring::lemma_mix_between(x as int, wet as int, mix as int);
            assert((mix as int) * ((wet - x) as int) == ((wet - x) as int) * (mix as int))
                by (nonlinear_arith);
        }
        x + crate::fixed::mul_trunc(mix, wet - x)
    }

    /// One step of a plain delay line: its delay is one less than its
    /// length, as a write-then-advance ring gives.
    fn line_sample(r: &mut Ring, x: i64) -> (out: i64)
        requires
            old(r).wf(),
            -SAT <= x <= SAT,
        ensures
            final(r).wf(),
            final(r).buf@.len() == old(r).buf@.len(),
            ({
                let st = line_step(old(r).buf@, old(r).write_pos as int, x as int);
                &&& final(r).buf@ == st.0
                &&& final(r).write_pos == st.1
                &&& out == st.2
            }),
            -SAT <= out <= SAT,
    {
        let len = r.len();
        let out = r.read_back(len - 1);
        proof {
            let l = len as int;
            let p = r.write_pos as int;
            assert(crate::ring::back_index(p, l - 1, l) == (p + 1) % l) by {
                vstd::arithmetic::div_mod::lemma_mod_add_multiples_vanish(p + 1 - l, l);
            }
        }
        r.push(x);
        out
    }

    /// One comb step.
    fn comb_sample(r: &mut Ring, x: i64, fb: i64) -> (out: i64)
        requires
            old(r).wf(),
            -SAT <= x <= SAT,
            0 <= fb <= UNIT,
        ensures
            final(r).wf(),
            final(r).buf@.len() == old(r).buf@.len(),
            ({
                let st = comb_step(old(r).buf@, old(r).write_pos as int, x as int, fb as int);
                &&& final(r).buf@ == st.0
                &&& final(r).write_pos == st.1
                &&& out == st.2
            }),
            -SAT <= out <= SAT,
    {
        let delayed = self_read_zero(r);
        proof {
            crate::fixed::lemma_mul_fx_unit_bound(delayed as int, fb as int, SAT as int);
            assert((fb as int) * (delayed as int) == (delayed as int) * (fb as int))
                by (nonlinear_arith);
        }
        let w = x + crate::fixed::mul_trunc(fb, delayed);
        r.push(w);
        delayed
    }

    /// One all-pass step.
    fn allpass_sample(r: &mut Ring, x: i64) -> (out: i64)
        requires
            old(r).wf(),
            -SAT <= x <= SAT,
        ensures
            final(r).wf(),
            final(r).buf@.len() == old(r).buf@.len(),
            ({
                let st = allpass_step(old(r).buf@, old(r).write_pos as int, x as int,
                    ALLPASS_GAIN as int);
                &&& final(r).buf@ == st.0
                &&& final(r).write_pos == st.1
                &&& out == st.2
            }),
            -SAT <= out <= SAT,
    {
        let delayed = self_read_zero(r);
        proof {
            crate::fixed::lemma_mul_fx_unit_bound(x as int, ALLPASS_GAIN as int, SAT as int);
            assert((ALLPASS_GAIN as int) * (x as int) == (x as int) * (ALLPASS_GAIN as int))
                by (nonlinear_arith);
        }
        let out = crate::fixed::clamp_fx(delayed - crate::fixed::mul_trunc(ALLPASS_GAIN, x), -SAT,
            SAT);
        proof {
            crate::fixed::lemma_mul_fx_unit_bound(out as int, ALLPASS_GAIN as int, SAT as int);
            assert((ALLPASS_GAIN as int) * (out as int) == (out as int) * (ALLPASS_GAIN as int))
                by (nonlinear_arith);
        }
        let w = crate::fixed::mul_trunc(ALLPASS_GAIN, out) + x;
        r.push(w);
        out
    }

    /// The summed early reflections.
    fn early_sum(r: &Ring) -> (e: i64)
        requires
            r.wf(),
            r.buf@.len() == EARLY_LEN,
        ensures
            e == early_taps(r.buf@, r.write_pos as int),
            -4 * SAT <= e <= 4 * SAT,
    {
        let t1 = r.read_back(EARLY_TAP_1);
        let t2 = r.read_back(EARLY_TAP_2);
        let t3 = r.read_back(EARLY_TAP_3);
        let t4 = r.read_back(EARLY_TAP_4);
        proof {
            crate::fixed::lemma_mul_fx_unit_bound(t1 as int, EARLY_GAIN_1 as int, SAT as int);
            crate::fixed::lemma_mul_fx_unit_bound(t2 as int, EARLY_GAIN_2 as int, SAT as int);
            crate::fixed::lemma_mul_fx_unit_bound(t3 as int, EARLY_GAIN_3 as int, SAT as int);
            crate::fixed::lemma_mul_fx_unit_bound(t4 as int, EARLY_GAIN_4 as int, SAT as int);
            assert((EARLY_GAIN_1 as int) * (t1 as int) == (t1 as int) * (EARLY_GAIN_1 as int)
                && (EARLY_GAIN_2 as int) * (t2 as int) == (t2 as int) * (EARLY_GAIN_2 as int)
                && (EARLY_GAIN_3 as int) * (t3 as int) == (t3 as int) * (EARLY_GAIN_3 as int)
                && (EARLY_GAIN_4 as int) * (t4 as int) == (t4 as int) * (EARLY_GAIN_4 as int))
                by (nonlinear_arith);
        }
        crate::fixed::mul_trunc(EARLY_GAIN_1, t1) + crate::fixed::mul_trunc(EARLY_GAIN_2, t2)
            + crate::fixed::mul_trunc(EARLY_GAIN_3, t3) + crate::fixed::mul_trunc(EARLY_GAIN_4, t4)
    }
}

/// The oldest entry of a ring: the slot the cursor is about to overwrite,
/// written a full line length ago.
fn self_read_zero(r: &Ring) -> (s: i64)
    requires
        r.wf(),
    ensures
        s == r.buf@[r.write_pos as int],
        -SAT <= s <= SAT,
{
    let s = r.read_back(0);
    proof {
        vstd::arithmetic::div_mod::lemma_small_mod(r.write_pos as nat, r.buf@.len() as nat);
    }
    s
}

} // verus!
