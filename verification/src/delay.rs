//! The delay effect: a ring buffer read at a fractional offset, mixed with
//! the dry signal, with the write fed back through a bounded feedback gain.
//!
//! With feedback zero and a fully wet mix, the effect is exactly a pure
//! `k`-sample shift: `lemma_delay_zero_feedback` proves the output at time
//! `t` equals the input at time `t - k`, and `lemma_delay_run_deterministic`
//! that two runs from equal states on equal inputs are bit-identical.

use vstd::prelude::*;
use crate::fixed::{UNIT, SAT, mul_fx, clamp};
use crate::ring::{Ring, back_index, read_frac};

verus! {

/// The largest admissible feedback gain: just under one (0.98), so the
/// recirculating energy always dies away.
pub const FEEDBACK_MAX: i64 = 64225;

/// One delay sample at delay `d` (Q16.16 samples), feedback `fb` and mix
/// `mix`: the new buffer, the new cursor and the output. The delay is
/// clamped to at least one sample and at most the oldest usable tap; the
/// write is `input + feedback * delayed`, saturated.
pub open spec fn delay_step(buf: Seq<i64>, pos: int, x: int, d: int, fb: int, mix: int) -> (
    Seq<i64>,
    int,
    int,
) {
    let len = buf.len() as int;
    let dc = clamp(d, UNIT as int, (len - 2) * UNIT);
    let y = read_frac(buf, pos, dc);
    let out = x + mul_fx(mix, y - x);
    let w = clamp(x + mul_fx(fb, y), -SAT as int, SAT as int);
    (buf.update(pos, w as i64), (pos + 1) % len, out)
}

/// The outputs of a whole delay run over an input sequence at fixed
/// parameters.
pub open spec fn delay_run(buf: Seq<i64>, pos: int, inputs: Seq<i64>, d: int, fb: int, mix: int)
    -> Seq<int>
    decreases inputs.len(),
{
    if inputs.len() == 0 {
        Seq::empty()
    } else {
        let st = delay_step(buf, pos, inputs[0] as int, d, fb, mix);
        seq![st.2] + delay_run(st.0, st.1, inputs.drop_first(), d, fb, mix)
    }
}

/// A delay run produces one output per input.
pub proof fn lemma_delay_run_len(buf: Seq<i64>, pos: int, inputs: Seq<i64>, d: int, fb: int, mix: int)
    ensures
        delay_run(buf, pos, inputs, d, fb, mix).len() == inputs.len(),
    decreases inputs.len(),
{
    if inputs.len() > 0 {
        let st = delay_step(buf, pos, inputs[0] as int, d, fb, mix);
        lemma_delay_run_len(st.0, st.1, inputs.drop_first(), d, fb, mix);
    }
}

/// The delay effect: its ring buffer.
pub struct Delay {
    /// The delay line.
    pub ring: Ring,
}

impl Delay {
    /// The ring is well formed and long enough for one whole delayed tap.
    pub open spec fn wf(&self) -> bool {
        &&& self.ring.wf()
        &&& self.ring.buf@.len() >= 3
    }

    /// A silent delay able to hold `max_delay_samples` samples (one extra
    /// slot keeps interpolation simple at the wrap).
    pub fn new(max_delay_samples: usize) -> (dl: Delay)
        requires
            2 <= max_delay_samples,
            max_delay_samples + 1 <= crate::ring::MAX_RING,
        ensures
            dl.wf(),
            dl.ring.buf@.len() == max_delay_samples + 1,
            dl.ring.write_pos == 0,
            forall|i: int| 0 <= i < dl.ring.buf@.len() ==> #[trigger] dl.ring.buf@[i] == 0,
    {
        Delay { ring: Ring::new(max_delay_samples + 1) }
    }

    /// Process one sample: read the delayed value, mix dry and wet, write
    /// back the input plus feedback, advance. The result is exactly
    /// `delay_step` and stays within the saturation bound.
    pub fn process_sample(&mut self, x: i64, d: i64, fb: i64, mix: i64) -> (out: i64)
        requires
            old(self).wf(),
            -SAT <= x <= SAT,
            0 <= d,
            0 <= fb <= FEEDBACK_MAX,
            0 <= mix <= UNIT,
        ensures
            final(self).wf(),
            final(self).ring.buf@.len() == old(self).ring.buf@.len(),
            ({
                let st = delay_step(
                    old(self).ring.buf@,
                    old(self).ring.write_pos as int,
                    x as int,
                    d as int,
                    fb as int,
                    mix as int,
                );
                &&& final(self).ring.buf@ == st.0
                &&& final(self).ring.write_pos == st.1
                &&& out == st.2
            }),
            -SAT <= out <= SAT,
    {
        let len = self.ring.len();
        proof {
            assert(2 * UNIT <= (len - 2) * UNIT + UNIT + UNIT) by (nonlinear_arith)
                requires
                    len >= 2,
            ;
            assert((len as int - 2) * UNIT >= 0) by (nonlinear_arith)
                requires
                    len >= 2,
            ;
        }
        let dc = crate::fixed::clamp_fx(d, UNIT, (len as i64 - 2) * UNIT);
        let y = self.ring.read_frac_at(dc);
        proof {
            crate::ring::lemma_mix_between(x as int, y as int, mix as int);
            crate::fixed::lemma_mul_fx_unit_bound(y as int, fb as int, SAT as int);
        }
        let out = x + crate::fixed::mul_trunc(mix, y - x);
        proof {
            assert((mix as int) * ((y - x) as int) == ((y - x) as int) * (mix as int))
                by (nonlinear_arith);
            assert((fb as int) * (y as int) == (y as int) * (fb as int)) by (nonlinear_arith);
        }
        let w = x + crate::fixed::mul_trunc(fb, y);
        self.ring.push(w);
        out
    }
}

/// An integer number of samples has no fractional part, so the interpolated
/// read at `k * UNIT` is exactly the tap `k` positions back.
proof fn lemma_read_frac_integer(buf: Seq<i64>, pos: int, k: int)
    requires
        1 <= k,
        k + 1 < buf.len(),
    ensures
        read_frac(buf, pos, k * UNIT) == buf[back_index(pos, k, buf.len() as int)],
{
    assert(k * UNIT == (UNIT as int) * k) by (nonlinear_arith);
    vstd::arithmetic::div_mod::lemma_div_multiples_vanish(k, UNIT as int);
    vstd::arithmetic::div_mod::lemma_mod_multiples_basic(k, UNIT as int);
    crate::fixed::lemma_mul_fx_zero(
        buf[back_index(pos, k + 1, buf.len() as int)] as int - buf[back_index(
            pos,
            k,
            buf.len() as int,
        )] as int,
    );
}

/// With feedback zero and a fully wet mix, one step outputs exactly the tap
/// `k` samples back and writes the input unchanged.
proof fn lemma_delay_step_pure(buf: Seq<i64>, pos: int, x: int, k: int)
    requires
        1 <= k <= buf.len() - 2,
        0 <= pos < buf.len(),
        -SAT <= x <= SAT,
    ensures
        ({
            let st = delay_step(buf, pos, x, k * UNIT, 0, UNIT as int);
            &&& st.2 == buf[back_index(pos, k, buf.len() as int)]
            &&& st.0 == buf.update(pos, x as i64)
            &&& st.1 == (pos + 1) % (buf.len() as int)
        }),
{
    let len = buf.len() as int;
    assert(UNIT <= k * UNIT <= (len - 2) * UNIT) by (nonlinear_arith)
        requires
            1 <= k <= len - 2,
    ;
    lemma_read_frac_integer(buf, pos, k);
    let y = read_frac(buf, pos, k * UNIT);
    crate::ring::lemma_mix_between(x, y, UNIT as int);
    crate::fixed::lemma_mul_fx_zero(y);
}

/// The generalized shift identity: `past` is what the run has already
/// consumed (its last `k` entries sit behind the cursor), and every output
/// whose tap falls inside `past` or this run reproduces the input `k`
/// samples earlier.
proof fn lemma_delay_run_shift(buf: Seq<i64>, pos: int, past: Seq<i64>, inputs: Seq<i64>, k: int)
    requires
        2 <= buf.len(),
        0 <= pos < buf.len(),
        1 <= k <= buf.len() - 2,
        forall|i: int| 0 <= i < inputs.len() ==> -SAT <= #[trigger] inputs[i] <= SAT,
        forall|j: int|
            1 <= j <= k && j <= past.len() ==> buf[back_index(pos, j, buf.len() as int)]
                == past[past.len() - j],
    ensures
        forall|t: int|
            0 <= t < inputs.len() && k <= t + past.len()
                ==> #[trigger] delay_run(buf, pos, inputs, k * UNIT, 0, UNIT as int)[t] == (
            if t >= k {
                inputs[t - k] as int
            } else {
                past[past.len() - k + t] as int
            }),
    decreases inputs.len(),
{
    if inputs.len() == 0 {
        return ;
    }
    let len = buf.len() as int;
    let x0 = inputs[0];
    lemma_delay_step_pure(buf, pos, x0 as int, k);
    let st = delay_step(buf, pos, x0 as int, k * UNIT, 0, UNIT as int);
    let buf2 = st.0;
    let pos2 = st.1;
    let past2 = past.push(x0);
    assert(0 <= pos2 < len) by {
        vstd::arithmetic::div_mod::lemma_mod_bound(pos + 1, len);
    }
    assert forall|j: int|
        1 <= j <= k && j <= past2.len() implies buf2[back_index(pos2, j, len)] == past2[past2.len()
        - j] by {
        if pos + 1 == len {
            assert(pos2 == 0) by {
                vstd::arithmetic::div_mod::lemma_mod_self_0(len);
            }
            assert(back_index(pos2, j, len) == back_index(pos, j - 1, len)) by {
                vstd::arithmetic::div_mod::lemma_mod_add_multiples_vanish(0 - j, len);
                assert(pos - (j - 1) == 0 - j + len);
            }
        } else {
            assert(pos2 == pos + 1) by {
                vstd::arithmetic::div_mod::lemma_small_mod((pos + 1) as nat, len as nat);
            }
            assert(back_index(pos2, j, len) == back_index(pos, j - 1, len));
        }
        let bi = back_index(pos, j - 1, len);
        assert(0 <= bi < len) by {
            vstd::arithmetic::div_mod::lemma_mod_bound(pos - (j - 1), len);
        }
        if j == 1 {
            assert(bi == pos) by {
                vstd::arithmetic::div_mod::lemma_small_mod(pos as nat, len as nat);
            }
        } else {
            assert(bi != pos) by {
                if pos - (j - 1) >= 0 {
                    vstd::arithmetic::div_mod::lemma_small_mod((pos - (j - 1)) as nat, len as nat);
                } else {
                    vstd::arithmetic::div_mod::lemma_mod_add_multiples_vanish(pos - (j - 1), len);
                    vstd::arithmetic::div_mod::lemma_small_mod(
                        (pos - (j - 1) + len) as nat,
                        len as nat,
                    );
                }
            }
        }
    }
    lemma_delay_run_shift(buf2, pos2, past2, inputs.drop_first(), k);
    let outs = delay_run(buf, pos, inputs, k * UNIT, 0, UNIT as int);
    let rest = delay_run(buf2, pos2, inputs.drop_first(), k * UNIT, 0, UNIT as int);
    lemma_delay_run_len(buf, pos, inputs, k * UNIT, 0, UNIT as int);
    lemma_delay_run_len(buf2, pos2, inputs.drop_first(), k * UNIT, 0, UNIT as int);
    assert(outs == seq![st.2] + rest);
    assert forall|t: int|
        0 <= t < inputs.len() && k <= t + past.len() implies #[trigger] outs[t] == (if t >= k {
        inputs[t - k] as int
    } else {
        past[past.len() - k + t] as int
    }) by {
        if t == 0 {
            assert(outs[0] == st.2);
        } else {
            assert(outs[t] == rest[t - 1]);
            assert(rest[t - 1] == (if t - 1 >= k {
                inputs.drop_first()[t - 1 - k] as int
            } else {
                past2[past2.len() - k + (t - 1)] as int
            }));
            if t - 1 < k {
                if t == k {
                    assert(past2[past2.len() - 1] == x0);
                } else {
                    assert(past2[past.len() - k + t] == past[past.len() - k + t]);
                }
            }
        }
    }
}

/// Pure shift: with feedback zero and a fully wet mix at an integer delay of
/// `k` samples, the output at every time `t >= k` is exactly the input at
/// `t - k`.
pub proof fn lemma_delay_zero_feedback(buf: Seq<i64>, pos: int, inputs: Seq<i64>, k: int)
    requires
        2 <= buf.len(),
        0 <= pos < buf.len(),
        1 <= k <= buf.len() - 2,
        forall|i: int| 0 <= i < inputs.len() ==> -SAT <= #[trigger] inputs[i] <= SAT,
    ensures
        delay_run(buf, pos, inputs, k * UNIT, 0, UNIT as int).len() == inputs.len(),
        forall|t: int|
            k <= t < inputs.len() ==> #[trigger] delay_run(buf, pos, inputs, k * UNIT, 0,
                UNIT as int)[t] == inputs[t - k] as int,
{
    lemma_delay_run_len(buf, pos, inputs, k * UNIT, 0, UNIT as int);
    lemma_delay_run_shift(buf, pos, Seq::empty(), inputs, k);
}

/// One step keeps the buffer saturated and its output within the
/// saturation bound, for every delay, feedback and mix setting.
proof fn lemma_delay_step_bounded(buf: Seq<i64>, pos: int, x: int, d: int, fb: int, mix: int)
    requires
        3 <= buf.len(),
        0 <= pos < buf.len(),
        -SAT <= x <= SAT,
        0 <= mix <= UNIT,
        forall|i: int| 0 <= i < buf.len() ==> -SAT <= #[trigger] buf[i] <= SAT,
    ensures
        ({
            let st = delay_step(buf, pos, x, d, fb, mix);
            &&& -SAT <= st.2 <= SAT
            &&& st.0.len() == buf.len()
            &&& 0 <= st.1 < buf.len()
            &&& forall|i: int| 0 <= i < st.0.len() ==> -SAT <= #[trigger] st.0[i] <= SAT
        }),
{
    let len = buf.len() as int;
    let dc = clamp(d, UNIT as int, (len - 2) * UNIT);
    assert(UNIT <= (len - 2) * UNIT) by (nonlinear_arith)
        requires
            3 <= len,
    ;
    let i0 = dc / (UNIT as int);
    let frac = dc % (UNIT as int);
    vstd::arithmetic::div_mod::lemma_mod_bound(dc, UNIT as int);
    vstd::arithmetic::div_mod::lemma_mod_bound(pos - i0, len);
    vstd::arithmetic::div_mod::lemma_mod_bound(pos - (i0 + 1), len);
    let y0 = buf[crate::ring::back_index(pos, i0, len)] as int;
    let y1 = buf[crate::ring::back_index(pos, i0 + 1, len)] as int;
    crate::ring::lemma_lerp_between(y0, y1, frac);
    let y = crate::ring::read_frac(buf, pos, dc);
    crate::ring::lemma_mix_between(x, y, mix);
    vstd::arithmetic::div_mod::lemma_mod_bound(pos + 1, len);
}

/// Bounded recirculation: whatever the delay, feedback and mix settings,
/// a delay run over bounded inputs from a saturated buffer keeps every
/// output within the saturation bound — the feedback loop cannot run away.
pub proof fn lemma_delay_run_bounded(
    buf: Seq<i64>,
    pos: int,
    inputs: Seq<i64>,
    d: int,
    fb: int,
    mix: int,
)
    requires
        3 <= buf.len(),
        0 <= pos < buf.len(),
        0 <= mix <= UNIT,
        forall|i: int| 0 <= i < buf.len() ==> -SAT <= #[trigger] buf[i] <= SAT,
        forall|i: int| 0 <= i < inputs.len() ==> -SAT <= #[trigger] inputs[i] <= SAT,
    ensures
        forall|t: int|
            0 <= t < delay_run(buf, pos, inputs, d, fb, mix).len() ==> -SAT <= #[trigger]
            delay_run(buf, pos, inputs, d, fb, mix)[t] <= SAT,
    decreases inputs.len(),
{
    if inputs.len() > 0 {
        lemma_delay_step_bounded(buf, pos, inputs[0] as int, d, fb, mix);
        let st = delay_step(buf, pos, inputs[0] as int, d, fb, mix);
        lemma_delay_run_bounded(st.0, st.1, inputs.drop_first(), d, fb, mix);
        let outs = delay_run(buf, pos, inputs, d, fb, mix);
        let rest = delay_run(st.0, st.1, inputs.drop_first(), d, fb, mix);
        assert forall|t: int| 0 <= t < outs.len() implies -SAT <= #[trigger] outs[t] <= SAT by {
            if t == 0 {
                assert(outs[0] == st.2);
            } else {
                assert(outs[t] == rest[t - 1]);
            }
        }
    }
}

/// Determinism: a delay run is a function of its starting state, its inputs
/// and its parameters alone — two equal runs are bit-identical.
pub proof fn lemma_delay_run_deterministic(
    buf1: Seq<i64>,
    pos1: int,
    in1: Seq<i64>,
    buf2: Seq<i64>,
    pos2: int,
    in2: Seq<i64>,
    d: int,
    fb: int,
    mix: int,
)
    requires
        buf1 == buf2,
        pos1 == pos2,
        in1 == in2,
    ensures
        delay_run(buf1, pos1, in1, d, fb, mix) == delay_run(buf2, pos2, in2, d, fb, mix),
{
}

} // verus!
