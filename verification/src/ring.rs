//! The fixed-length ring buffer (delay line) under every time-domain effect.
//!
//! A ring is a vector of samples and a write cursor. Reading `k` samples
//! back means indexing `k` positions behind the cursor, wrapping around;
//! a fractional read interpolates linearly between the two neighbouring
//! taps. Everything a ring holds stays within the saturation bound, so no
//! feedback loop can grow without bound.

use vstd::prelude::*;
use crate::fixed::{UNIT, SAT, mul_fx};

verus! {

/// The longest supported delay line (enough for several seconds at any
/// supported sample rate).
pub const MAX_RING: usize = 1048576;

/// True when every entry of a delay line is zero.
pub open spec fn all_zero(s: Seq<i64>) -> bool {
    forall|i: int| 0 <= i < s.len() ==> #[trigger] s[i] == 0
}

/// The index `k` samples behind `pos` in a ring of length `len`.
pub open spec fn back_index(pos: int, k: int, len: int) -> int {
    (pos - k) % len
}

/// The linearly interpolated sample `d` (Q16.16 samples) behind the cursor:
/// the tap at the integer part, moved toward the next older tap by the
/// fractional part.
pub open spec fn read_frac(buf: Seq<i64>, pos: int, d: int) -> int {
    let i0 = d / (UNIT as int);
    let frac = d % (UNIT as int);
    let y0 = buf[back_index(pos, i0, buf.len() as int)] as int;
    let y1 = buf[back_index(pos, i0 + 1, buf.len() as int)] as int;
    y0 + mul_fx(frac, y1 - y0)
}

/// A fixed-length delay line with a write cursor.
pub struct Ring {
    /// The stored samples.
    pub buf: Vec<i64>,
    /// Where the next sample will be written.
    pub write_pos: usize,
}

impl Ring {
    /// The cursor is inside the buffer and every entry is a bounded sample.
    pub open spec fn wf(&self) -> bool {
        &&& 2 <= self.buf@.len() <= MAX_RING
        &&& self.write_pos < self.buf@.len()
        &&& forall|i: int| 0 <= i < self.buf@.len() ==> -SAT <= #[trigger] self.buf@[i] <= SAT
    }

    /// A silent ring of `len` samples.
    pub fn new(len: usize) -> (r: Ring)
        requires
            2 <= len <= MAX_RING,
        ensures
            r.wf(),
            r.buf@.len() == len,
            r.write_pos == 0,
            all_zero(r.buf@),
            forall|i: int| 0 <= i < len ==> #[trigger] r.buf@[i] == 0,
    {
        let mut buf: Vec<i64> = Vec::new();
        let mut i: usize = 0;
        while i < len
            invariant
                i <= len,
                buf@.len() == i,
                forall|j: int| 0 <= j < i ==> #[trigger] buf@[j] == 0,
            decreases len - i,
        {
            buf.push(0);
            i = i + 1;
        }
        Ring { buf, write_pos: 0 }
    }

    /// How many samples the ring holds.
    pub fn len(&self) -> (n: usize)
        ensures
            n == self.buf@.len(),
    {
        self.buf.len()
    }

    /// The sample `k` positions behind the cursor (`k` may wrap).
    pub fn read_back(&self, k: usize) -> (s: i64)
        requires
            self.wf(),
            k < self.buf@.len(),
        ensures
            s == self.buf@[back_index(self.write_pos as int, k as int, self.buf@.len() as int)],
            -SAT <= s <= SAT,
    {
        let len = self.buf.len();
        let idx = if k <= self.write_pos {
            self.write_pos - k
        } else {
            self.write_pos + (len - k)
        };
        proof {
            let p = self.write_pos as int;
            let l = len as int;
            if k <= self.write_pos {
                vstd::arithmetic::div_mod::lemma_small_mod((p - k) as nat, l as nat);
            } else {
                vstd::arithmetic::div_mod::lemma_mod_add_multiples_vanish(p - k, l);
                vstd::arithmetic::div_mod::lemma_small_mod((p - k + l) as nat, l as nat);
            }
        }
        *self.buf.get(idx).unwrap()
    }

    /// The linearly interpolated sample `d` (Q16.16 samples) behind the
    /// cursor; the read never reaches past the oldest usable tap.
    pub fn read_frac_at(&self, d: i64) -> (s: i64)
        requires
            self.wf(),
            0 <= d,
            d <= (self.buf@.len() - 2) * UNIT,
        ensures
            s == read_frac(self.buf@, self.write_pos as int, d as int),
            -SAT <= s <= SAT,
    {
        let i0 = ((d as u64) / (UNIT as u64)) as usize;
        let frac = d - (i0 as i64) * UNIT;
        proof {
            let l = self.buf@.len() as int;
            vstd::arithmetic::div_mod::lemma_fundamental_div_mod(d as int, UNIT as int);
            vstd::arithmetic::div_mod::lemma_mod_bound(d as int, UNIT as int);
            assert((d as int) / (UNIT as int) <= l - 2) by {
                vstd::arithmetic::div_mod::lemma_div_is_ordered(d as int, (l - 2) * UNIT,
                    UNIT as int);
                vstd::arithmetic::div_mod::lemma_div_multiples_vanish(l - 2, UNIT as int);
            }
            vstd::arithmetic::div_mod::lemma_div_pos_is_pos(d as int, UNIT as int);
        }
        let y0 = self.read_back(i0);
        let y1 = self.read_back(i0 + 1);
        proof {
            crate::fixed::lemma_mul_fx_unit_bound(y1 as int - y0 as int, frac as int, 2 * SAT);
            assert((frac as int) * ((y1 - y0) as int) == ((y1 - y0) as int) * (frac as int))
                by (nonlinear_arith);
            lemma_lerp_between(y0 as int, y1 as int, frac as int);
        }
        y0 + crate::fixed::mul_trunc(frac, y1 - y0)
    }

    /// Write `v` at the cursor (saturated) and advance the cursor one step.
    pub fn push(&mut self, v: i64)
        requires
            old(self).wf(),
            -2 * SAT <= v <= 2 * SAT,
        ensures
            final(self).wf(),
            final(self).buf@ == old(self).buf@.update(
                old(self).write_pos as int,
                crate::fixed::clamp(v as int, -SAT as int, SAT as int) as i64,
            ),
            final(self).write_pos == (old(self).write_pos + 1) % (old(self).buf@.len() as int),
    {
        let w = crate::fixed::clamp_fx(v, -SAT, SAT);
        let pos = self.write_pos;
        self.buf[pos] = w;
        let len = self.buf.len();
        self.write_pos = if pos + 1 >= len {
            0
        } else {
            pos + 1
        };
        proof {
            let l = len as int;
            if pos + 1 >= len {
                assert((pos + 1) % l == 0) by {
                    vstd::arithmetic::div_mod::lemma_mod_self_0(l);
                }
            } else {
                vstd::arithmetic::div_mod::lemma_small_mod((pos + 1) as nat, l as nat);
            }
        }
    }
}

/// Moving from `y0` toward `y1` by a fraction of at most one lands between
/// the two.
pub proof fn lemma_lerp_between(y0: int, y1: int, frac: int)
    requires
        0 <= frac < UNIT,
    ensures
        y0 <= y1 ==> y0 <= y0 + mul_fx(frac, y1 - y0) <= y1,
        y1 <= y0 ==> y1 <= y0 + mul_fx(frac, y1 - y0) <= y0,
{
    let d = y1 - y0;
    assert(0 <= d ==> (0 <= frac * d <= UNIT * d)) by (nonlinear_arith)
        requires
            0 <= frac < UNIT,
    ;
    assert(d < 0 ==> (UNIT * d <= frac * d <= 0)) by (nonlinear_arith)
        requires
            0 <= frac < UNIT,
    ;
    if d >= 0 {
        crate::fixed::lemma_div_tz_le(frac * d, UNIT * d, UNIT as int);
        vstd::arithmetic::div_mod::lemma_div_multiples_vanish(d, UNIT as int);
    } else {
        crate::fixed::lemma_div_tz_le(frac * d, UNIT * (-d), UNIT as int);
        vstd::arithmetic::div_mod::lemma_div_multiples_vanish(-d, UNIT as int);
    }
}

/// Mixing `x` toward `y` by a fraction of at most one lands between the two.
pub proof fn lemma_mix_between(x: int, y: int, mix: int)
    requires
        0 <= mix <= UNIT,
    ensures
        x <= y ==> x <= x + mul_fx(mix, y - x) <= y,
        y <= x ==> y <= x + mul_fx(mix, y - x) <= x,
        mix == UNIT ==> x + mul_fx(mix, y - x) == y,
{
    let d = y - x;
    assert(0 <= d ==> (0 <= mix * d <= UNIT * d)) by (nonlinear_arith)
        requires
            0 <= mix <= UNIT,
    ;
    assert(d < 0 ==> (UNIT * d <= mix * d <= 0)) by (nonlinear_arith)
        requires
            0 <= mix <= UNIT,
    ;
    if d >= 0 {
        crate::fixed::lemma_div_tz_le(mix * d, UNIT * d, UNIT as int);
        vstd::arithmetic::div_mod::lemma_div_multiples_vanish(d, UNIT as int);
    } else {
        crate::fixed::lemma_div_tz_le(mix * d, UNIT * (-d), UNIT as int);
        vstd::arithmetic::div_mod::lemma_div_multiples_vanish(-d, UNIT as int);
    }
    if mix == UNIT {
        lemma_div_tz_exact_multiple(d);
    }
}

/// Scaling by exactly one unit is the identity.
pub proof fn lemma_div_tz_exact_multiple(a: int)
    ensures
        mul_fx(UNIT as int, a) == a,
        mul_fx(a, UNIT as int) == a,
{
    if a >= 0 {
        vstd::arithmetic::div_mod::lemma_div_multiples_vanish(a, UNIT as int);
        assert(UNIT * a == a * UNIT) by (nonlinear_arith);
    } else {
        vstd::arithmetic::div_mod::lemma_div_multiples_vanish(-a, UNIT as int);
        assert(UNIT * a == a * UNIT && -(UNIT * a) == UNIT * (-a)) by (nonlinear_arith);
    }
}

} // verus!
