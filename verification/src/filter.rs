//! The resonant second-order (biquad) low-pass filter.
//!
//! Coefficients come from the bilinear transform with frequency pre-warping
//! (`k` approximates `tan(pi * f0 / fs)` by a fixed-point polynomial, with
//! the upper half of the range taken through the reciprocal), normalized so
//! the leading denominator coefficient is one. The per-sample recurrence is
//! the Direct-Form-II-Transposed structure; its output and both state
//! variables saturate at fixed bounds, so the filter's response is bounded
//! for every cutoff in `(0, 0.499 * fs]` and every admissible resonance, on
//! any input and for any length of run. Coefficients are recomputed only
//! when cutoff or resonance changed since the previous sample.

use vstd::prelude::*;
use crate::fixed::{UNIT, SAT, div_tz, mul_fx, clamp};

verus! {

/// Pi in Q16.16.
pub const PI_FX: i64 = 205887;

/// A quarter turn (pi/4) in Q16.16: the split point of the tangent.
pub const PI_4: i64 = 51472;

/// A half turn (pi/2) in Q16.16.
pub const PI_2: i64 = 102944;

/// The smallest pre-warp angle: cutoffs at or below zero clamp here.
pub const X_MIN: i64 = 1;

/// The largest pre-warp angle, `0.499 * pi` in Q16.16: cutoffs are clamped
/// below the Nyquist frequency to keep the filter away from instability.
pub const X_MAX: i64 = 102737;

/// An upper bound on the pre-warped `k` over the whole admissible range.
pub const K_MAX: i64 = 21000000;

/// The smallest admissible quality factor (0.01 in Q16.16).
pub const Q_MIN: i64 = 655;

/// The largest admissible quality factor (16.0 in Q16.16).
pub const Q_MAX: i64 = 1048576;

/// The saturation bound of the two filter state variables.
pub const Z_BOUND: i64 = 8388608;

/// The fixed-point tangent polynomial, adequate on `[0, PI_4]`:
/// `x + x^3/3 + 2 x^5/15 + 17 x^7/315`.
pub open spec fn tan_poly(x: int) -> int {
    let x2 = mul_fx(x, x);
    let x3 = mul_fx(x2, x);
    let x5 = mul_fx(x3, x2);
    let x7 = mul_fx(x5, x2);
    x + div_tz(x3, 3) + div_tz(2 * x5, 15) + div_tz(17 * x7, 315)
}

/// The pre-warped frequency coefficient: the tangent of `x`, taken directly
/// on the lower half of the quarter turn and through the reciprocal above it.
pub open spec fn prewarp(x: int) -> int {
    if x <= PI_4 {
        tan_poly(x)
    } else {
        div_tz((UNIT as int) * (UNIT as int), tan_poly(PI_2 - x))
    }
}

/// The pre-warp angle for a cutoff (Q16.16 hertz) at sample rate `fs`:
/// `pi * f0 / fs`, clamped into `[X_MIN, X_MAX]`.
pub open spec fn warp_x(cutoff: int, fs: int) -> int {
    clamp(div_tz(cutoff * PI_FX, fs * UNIT), X_MIN as int, X_MAX as int)
}

/// The unnormalized denominator constant `1 + k/q + k^2`.
pub open spec fn den_a0(k: int, q: int) -> int {
    UNIT + div_tz(k * UNIT, q) + mul_fx(k, k)
}

/// Normalized numerator coefficient `b0 = k^2 / a0` (and `b2 = b0`).
pub open spec fn coeff_b0(k: int, q: int) -> int {
    div_tz(mul_fx(k, k) * UNIT, den_a0(k, q))
}

/// Normalized numerator coefficient `b1 = 2 k^2 / a0`.
pub open spec fn coeff_b1(k: int, q: int) -> int {
    div_tz(2 * mul_fx(k, k) * UNIT, den_a0(k, q))
}

/// Normalized feedback coefficient `a1 = 2 (k^2 - 1) / a0`.
pub open spec fn coeff_a1(k: int, q: int) -> int {
    div_tz(2 * (mul_fx(k, k) - UNIT) * UNIT, den_a0(k, q))
}

/// Normalized feedback coefficient `a2 = (1 - k/q + k^2) / a0`.
pub open spec fn coeff_a2(k: int, q: int) -> int {
    div_tz((UNIT - div_tz(k * UNIT, q) + mul_fx(k, k)) * UNIT, den_a0(k, q))
}

/// One Direct-Form-II-Transposed sample: the output and the two next state
/// variables, each saturated at its bound.
pub open spec fn df2t_step(
    b0: int,
    b1: int,
    b2: int,
    a1: int,
    a2: int,
    z1: int,
    z2: int,
    x: int,
) -> (int, int, int) {
    let y = clamp(mul_fx(b0, x) + z1, -SAT as int, SAT as int);
    let z1n = clamp(mul_fx(b1, x) + z2 - mul_fx(a1, y), -Z_BOUND as int, Z_BOUND as int);
    let z2n = clamp(mul_fx(b2, x) - mul_fx(a2, y), -Z_BOUND as int, Z_BOUND as int);
    (y, z1n, z2n)
}

/// On `[0, PI_4]` the tangent polynomial stays within useful bounds.
proof fn lemma_tan_poly_bounds(x: int)
    requires
        0 <= x <= PI_4,
    ensures
        x <= tan_poly(x) <= 2 * UNIT,
        mul_fx(x, x) <= UNIT,
{
    let x2 = mul_fx(x, x);
    crate::fixed::lemma_mul_fx_unit_bound(x, x, UNIT as int);
    assert(0 <= x * x) by (nonlinear_arith)
        requires
            0 <= x,
    ;
    crate::fixed::lemma_div_tz_bounds(x * x, UNIT as int);
    let x3 = mul_fx(x2, x);
    crate::fixed::lemma_mul_fx_unit_bound(x2, x, UNIT as int);
    assert(0 <= x2 * x) by (nonlinear_arith)
        requires
            0 <= x2,
            0 <= x,
    ;
    crate::fixed::lemma_div_tz_bounds(x2 * x, UNIT as int);
    let x5 = mul_fx(x3, x2);
    crate::fixed::lemma_mul_fx_unit_bound(x3, x2, UNIT as int);
    assert(0 <= x3 * x2) by (nonlinear_arith)
        requires
            0 <= x3,
            0 <= x2,
    ;
    crate::fixed::lemma_div_tz_bounds(x3 * x2, UNIT as int);
    let x7 = mul_fx(x5, x2);
    crate::fixed::lemma_mul_fx_unit_bound(x5, x2, UNIT as int);
    assert(0 <= x5 * x2) by (nonlinear_arith)
        requires
            0 <= x5,
            0 <= x2,
    ;
    crate::fixed::lemma_div_tz_bounds(x5 * x2, UNIT as int);
    crate::fixed::lemma_div_tz_bounds(x3, 3);
    crate::fixed::lemma_div_tz_bounds(2 * x5, 15);
    crate::fixed::lemma_div_tz_bounds(17 * x7, 315);
}

/// Over the admissible angle range the pre-warped `k` is positive and
/// bounded by `K_MAX`.
pub proof fn lemma_prewarp_bounds(x: int)
    requires
        X_MIN <= x <= X_MAX,
    ensures
        1 <= prewarp(x) <= K_MAX,
{
    if x <= PI_4 {
        lemma_tan_poly_bounds(x);
    } else {
        let y = PI_2 - x;
        lemma_tan_poly_bounds(y);
        let t = tan_poly(y);
        crate::fixed::lemma_div_tz_le((UNIT as int) * (UNIT as int), (UNIT as int) * (UNIT as int),
            t);
        assert((UNIT as int) * (UNIT as int) / t <= (UNIT as int) * (UNIT as int) / 207) by {
            vstd::arithmetic::div_mod::lemma_div_is_ordered_by_denominator(
                (UNIT as int) * (UNIT as int),
                207,
                t,
            );
        }
        assert((UNIT as int) * (UNIT as int) / t >= 1) by {
            assert(t * 1 <= (UNIT as int) * (UNIT as int));
            vstd::arithmetic::div_mod::lemma_div_is_ordered(t, (UNIT as int) * (UNIT as int), t);
            vstd::arithmetic::div_mod::lemma_div_by_self(t);
        }
    }
}

/// The normalized coefficients stay within fixed bounds: `|b0|, |b2|, |a2|`
/// within one unit, `|b1|, |a1|` within two.
pub proof fn lemma_coeff_bounds(k: int, q: int)
    requires
        1 <= k <= K_MAX,
        Q_MIN <= q <= Q_MAX,
    ensures
        den_a0(k, q) >= UNIT,
        0 <= coeff_b0(k, q) <= UNIT,
        0 <= coeff_b1(k, q) <= 2 * UNIT,
        -2 * UNIT <= coeff_a1(k, q) <= 2 * UNIT,
        -UNIT <= coeff_a2(k, q) <= UNIT,
{
    let k2 = mul_fx(k, k);
    let kq = div_tz(k * UNIT, q);
    let a0 = den_a0(k, q);
    assert(0 <= k * k && 0 <= k * UNIT) by (nonlinear_arith)
        requires
            1 <= k,
    ;
    crate::fixed::lemma_div_tz_bounds(k * k, UNIT as int);
    crate::fixed::lemma_div_tz_bounds(k * UNIT, q);
    assert(k2 >= 0);
    assert(kq >= 0);
    assert(a0 >= UNIT);
    // b0: 0 <= k2 <= a0 so k2 * UNIT / a0 is within [0, UNIT]
    assert(k2 * UNIT <= a0 * UNIT && 0 <= k2 * UNIT) by (nonlinear_arith)
        requires
            0 <= k2,
            k2 <= a0,
    ;
    crate::fixed::lemma_div_tz_le(k2 * UNIT, a0 * UNIT, a0);
    assert(a0 * UNIT == UNIT * a0) by (nonlinear_arith);
    vstd::arithmetic::div_mod::lemma_div_multiples_vanish(UNIT as int, a0);
    // b1: 0 <= 2 k2 <= 2 a0
    assert(2 * k2 * UNIT <= a0 * (2 * UNIT) && 0 <= 2 * k2 * UNIT) by (nonlinear_arith)
        requires
            0 <= k2,
            k2 <= a0,
    ;
    crate::fixed::lemma_div_tz_le(2 * k2 * UNIT, a0 * (2 * UNIT), a0);
    vstd::arithmetic::div_mod::lemma_div_multiples_vanish(2 * UNIT, a0);
    // a1: |2 (k2 - UNIT)| <= 2 a0
    assert(-(a0 * (2 * UNIT)) <= 2 * (k2 - UNIT) * UNIT <= a0 * (2 * UNIT)) by (nonlinear_arith)
        requires
            0 <= k2 <= a0,
            UNIT <= a0,
    ;
    crate::fixed::lemma_div_tz_le(2 * (k2 - UNIT) * UNIT, a0 * (2 * UNIT), a0);
    // a2: |UNIT - kq + k2| <= a0
    assert(-(a0 * UNIT) <= (UNIT - kq + k2) * UNIT <= a0 * UNIT) by (nonlinear_arith)
        requires
            0 <= k2,
            0 <= kq,
            a0 == UNIT + kq + k2,
    ;
    crate::fixed::lemma_div_tz_le((UNIT - kq + k2) * UNIT, a0 * UNIT, a0);
}

/// The output of one filtered sample, determined by the starting state.
pub open spec fn filter_out(pre: LowPassFilter, x: int, cutoff: int, q: int) -> int {
    let k = prewarp(warp_x(cutoff, pre.fs as int));
    df2t_step(
        coeff_b0(k, q),
        coeff_b1(k, q),
        coeff_b0(k, q),
        coeff_a1(k, q),
        coeff_a2(k, q),
        pre.z1 as int,
        pre.z2 as int,
        x,
    ).0
}

/// The whole transition one filtered sample makes: the coefficients follow
/// the given cutoff and resonance, the state advances by the saturated
/// Direct-Form-II-Transposed step, and `y` is its output.
pub open spec fn filter_rel(
    pre: LowPassFilter,
    post: LowPassFilter,
    x: int,
    cutoff: int,
    q: int,
    y: int,
) -> bool {
    let k = prewarp(warp_x(cutoff, pre.fs as int));
    let step = df2t_step(
        coeff_b0(k, q),
        coeff_b1(k, q),
        coeff_b0(k, q),
        coeff_a1(k, q),
        coeff_a2(k, q),
        pre.z1 as int,
        pre.z2 as int,
        x,
    );
    &&& post.fs == pre.fs
    &&& post.last_cutoff == cutoff
    &&& post.last_q == q
    &&& y == step.0
    &&& post.z1 == step.1
    &&& post.z2 == step.2
}

/// The filter: normalized coefficients, the two-sample state, and the
/// parameter pair the coefficients were derived from.
pub struct LowPassFilter {
    /// Sample rate in hertz.
    pub fs: i64,
    /// Normalized coefficients.
    pub b0: i64,
    pub b1: i64,
    pub b2: i64,
    pub a1: i64,
    pub a2: i64,
    /// Direct-Form-II-Transposed state.
    pub z1: i64,
    pub z2: i64,
    /// The cutoff (Q16.16 hertz) the coefficients were computed for.
    pub last_cutoff: i64,
    /// The quality factor (Q16.16) the coefficients were computed for.
    pub last_q: i64,
}

impl LowPassFilter {
    /// The coefficients are exactly those derived from the last-seen cutoff
    /// and resonance, everything is within its bound.
    pub open spec fn wf(&self) -> bool {
        &&& 1 <= self.fs <= 192000
        &&& 0 <= self.last_cutoff <= crate::osc::FREQ_MAX
        &&& Q_MIN <= self.last_q <= Q_MAX
        &&& {
            let k = prewarp(warp_x(self.last_cutoff as int, self.fs as int));
            &&& self.b0 == coeff_b0(k, self.last_q as int)
            &&& self.b1 == coeff_b1(k, self.last_q as int)
            &&& self.b2 == coeff_b0(k, self.last_q as int)
            &&& self.a1 == coeff_a1(k, self.last_q as int)
            &&& self.a2 == coeff_a2(k, self.last_q as int)
        }
        &&& -Z_BOUND <= self.z1 <= Z_BOUND
        &&& -Z_BOUND <= self.z2 <= Z_BOUND
    }

    /// Compute the coefficients for one cutoff/resonance pair.
    fn compute_coeffs(fs: i64, cutoff: i64, q: i64) -> (c: (i64, i64, i64, i64, i64))
        requires
            1 <= fs <= 192000,
            0 <= cutoff <= crate::osc::FREQ_MAX,
            Q_MIN <= q <= Q_MAX,
        ensures
            ({
                let k = prewarp(warp_x(cutoff as int, fs as int));
                &&& c.0 == coeff_b0(k, q as int)
                &&& c.1 == coeff_b1(k, q as int)
                &&& c.2 == coeff_a1(k, q as int)
                &&& c.3 == coeff_a2(k, q as int)
                &&& c.4 == k
            }),
    {
        proof {
            assert(0 <= (cutoff as int) * (PI_FX as int) <= 0x4000_0000_0000_0000 - 1)
                by (nonlinear_arith)
                requires
                    0 <= cutoff <= crate::osc::FREQ_MAX,
            ;
        }
        let num = cutoff * PI_FX;
        let den = fs * UNIT;
        let x_raw = crate::fixed::div_trunc(num, den);
        let x = crate::fixed::clamp_fx(x_raw, X_MIN, X_MAX);
        let k = if x <= PI_4 {
            Self::tan_poly_at(x)
        } else {
            let t = Self::tan_poly_at(PI_2 - x);
            proof {
                lemma_tan_poly_bounds(PI_2 - x);
            }
            crate::fixed::div_trunc(UNIT * UNIT, t)
        };
        proof {
            lemma_prewarp_bounds(x as int);
            lemma_coeff_bounds(k as int, q as int);
            assert(0 <= (k as int) * (k as int) <= (K_MAX as int) * (K_MAX as int)
                && 0 <= (k as int) * UNIT <= (K_MAX as int) * UNIT) by (nonlinear_arith)
                requires
                    1 <= k <= K_MAX,
            ;
            crate::fixed::lemma_div_tz_le((k as int) * (k as int), (K_MAX as int) * (K_MAX as int),
                UNIT as int);
            crate::fixed::lemma_div_tz_le((k as int) * UNIT, (K_MAX as int) * UNIT, q as int);
            vstd::arithmetic::div_mod::lemma_div_is_ordered_by_denominator(
                (K_MAX as int) * UNIT,
                Q_MIN as int,
                q as int,
            );
        }
        let k2 = crate::fixed::div_trunc(k * k, UNIT);
        let kq = crate::fixed::div_trunc(k * UNIT, q);
        let a0 = UNIT + kq + k2;
        proof {
            assert((k2 as int) * UNIT < 0x4000_0000_0000_0000 && 2 * (k2 as int) * UNIT
                < 0x4000_0000_0000_0000 && -0x4000_0000_0000_0000 < 2 * ((k2 as int) - UNIT) * UNIT
                && 2 * ((k2 as int) - UNIT) * UNIT < 0x4000_0000_0000_0000
                && -0x4000_0000_0000_0000 < ((UNIT as int) - kq + k2) * UNIT
                && ((UNIT as int) - kq + k2) * UNIT < 0x4000_0000_0000_0000) by (nonlinear_arith)
                requires
                    0 <= k2 <= (K_MAX as int) * (K_MAX as int) / (UNIT as int),
                    0 <= kq <= (K_MAX as int) * UNIT / (Q_MIN as int),
                    K_MAX == 21000000,
                    Q_MIN == 655,
                    UNIT == 65536,
            ;
        }
        let b0 = crate::fixed::div_trunc(k2 * UNIT, a0);
        let b1 = crate::fixed::div_trunc(2 * k2 * UNIT, a0);
        let a1 = crate::fixed::div_trunc(2 * (k2 - UNIT) * UNIT, a0);
        let a2 = crate::fixed::div_trunc((UNIT - kq + k2) * UNIT, a0);
        (b0, b1, a1, a2, k)
    }

    /// The tangent polynomial on `[0, PI_4]`.
    fn tan_poly_at(x: i64) -> (t: i64)
        requires
            0 <= x <= PI_4,
        ensures
            t == tan_poly(x as int),
            x <= t <= 2 * UNIT,
    {
        proof {
            lemma_tan_poly_bounds(x as int);
        }
        let x2 = crate::fixed::mul_trunc(x, x);
        let x3 = crate::fixed::mul_trunc(x2, x);
        let x5 = crate::fixed::mul_trunc(x3, x2);
        let x7 = crate::fixed::mul_trunc(x5, x2);
        x + crate::fixed::div_trunc(x3, 3) + crate::fixed::div_trunc(2 * x5, 15)
            + crate::fixed::div_trunc(17 * x7, 315)
    }

    /// A fresh filter at the given sample rate, derived for a fully open
    /// cutoff at the default resonance, with silent state.
    pub fn new(fs: i64) -> (f: LowPassFilter)
        requires
            1 <= fs <= 192000,
        ensures
            f.wf(),
            f.fs == fs,
            f.z1 == 0,
            f.z2 == 0,
    {
        let cutoff = crate::fixed::clamp_fx(fs / 2 * UNIT, 0, crate::osc::FREQ_MAX);
        let q: i64 = 46341;
        let c = Self::compute_coeffs(fs, cutoff, q);
        LowPassFilter {
            fs,
            b0: c.0,
            b1: c.1,
            b2: c.0,
            a1: c.2,
            a2: c.3,
            z1: 0,
            z2: 0,
            last_cutoff: cutoff,
            last_q: q,
        }
    }

    /// Filter one sample at the given cutoff (Q16.16 hertz) and resonance.
    /// Coefficients are recomputed only when either parameter changed. The
    /// output is the saturated Direct-Form-II-Transposed step and never
    /// leaves `[-SAT, SAT]`, whatever the parameters — the filter cannot
    /// diverge.
    pub fn filter_sample(&mut self, x: i64, cutoff: i64, q: i64) -> (y: i64)
        requires
            old(self).wf(),
            -SAT <= x <= SAT,
            0 <= cutoff <= crate::osc::FREQ_MAX,
            Q_MIN <= q <= Q_MAX,
        ensures
            final(self).wf(),
            filter_rel(*old(self), *final(self), x as int, cutoff as int, q as int, y as int),
            y == filter_out(*old(self), x as int, cutoff as int, q as int),
            -SAT <= y <= SAT,
    {
        if cutoff != self.last_cutoff || q != self.last_q {
            let c = Self::compute_coeffs(self.fs, cutoff, q);
            self.b0 = c.0;
            self.b1 = c.1;
            self.b2 = c.0;
            self.a1 = c.2;
            self.a2 = c.3;
            self.last_cutoff = cutoff;
            self.last_q = q;
        }
        proof {
            let k = prewarp(warp_x(self.last_cutoff as int, self.fs as int));
            lemma_prewarp_bounds(warp_x(self.last_cutoff as int, self.fs as int));
            lemma_coeff_bounds(k, self.last_q as int);
            lemma_scaled_product_bound(self.b0 as int, x as int, UNIT as int, SAT as int);
            lemma_scaled_product_bound(self.b1 as int, x as int, 2 * UNIT, SAT as int);
            lemma_scaled_product_bound(self.b2 as int, x as int, UNIT as int, SAT as int);
        }
        let y = crate::fixed::clamp_fx(crate::fixed::mul_trunc(self.b0, x) + self.z1, -SAT, SAT);
        proof {
            lemma_scaled_product_bound(self.a1 as int, y as int, 2 * UNIT, SAT as int);
            lemma_scaled_product_bound(self.a2 as int, y as int, UNIT as int, SAT as int);
        }
        let z1n = crate::fixed::clamp_fx(
            crate::fixed::mul_trunc(self.b1, x) + self.z2 - crate::fixed::mul_trunc(self.a1, y),
            -Z_BOUND,
            Z_BOUND,
        );
        let z2n = crate::fixed::clamp_fx(
            crate::fixed::mul_trunc(self.b2, x) - crate::fixed::mul_trunc(self.a2, y),
            -Z_BOUND,
            Z_BOUND,
        );
        self.z1 = z1n;
        self.z2 = z2n;
        y
    }
}

/// The fixed-point product of a coefficient bounded by a multiple of one
/// unit and a sample bounded by `ms` is bounded by the same multiple of `ms`.
proof fn lemma_scaled_product_bound(c: int, x: int, mc: int, ms: int)
    requires
        0 <= ms,
        -mc <= c <= mc,
        -ms <= x <= ms,
        mc == UNIT || mc == 2 * UNIT,
    ensures
        mc == UNIT ==> -ms <= mul_fx(c, x) <= ms,
        mc == 2 * UNIT ==> -2 * ms <= mul_fx(c, x) <= 2 * ms,
{
    assert(-(mc * ms) <= c * x <= mc * ms) by (nonlinear_arith)
        requires
            -mc <= c <= mc,
            -ms <= x <= ms,
            0 <= ms,
            0 <= mc,
    ;
    crate::fixed::lemma_div_tz_le(c * x, mc * ms, UNIT as int);
    if mc == UNIT {
        vstd::arithmetic::div_mod::lemma_div_multiples_vanish(ms, UNIT as int);
        assert(mc * ms == UNIT * ms) by (nonlinear_arith)
            requires
                mc == UNIT,
        ;
    } else {
        vstd::arithmetic::div_mod::lemma_div_multiples_vanish(2 * ms, UNIT as int);
        assert(mc * ms == UNIT * (2 * ms)) by (nonlinear_arith)
            requires
                mc == 2 * UNIT,
        ;
    }
}

/// The outputs of a whole filter run over an input sequence, at fixed
/// coefficients, starting from state `(z1, z2)`.
pub open spec fn df2t_run(
    b0: int,
    b1: int,
    b2: int,
    a1: int,
    a2: int,
    z1: int,
    z2: int,
    inputs: Seq<int>,
) -> Seq<int>
    decreases inputs.len(),
{
    if inputs.len() == 0 {
        Seq::empty()
    } else {
        let step = df2t_step(b0, b1, b2, a1, a2, z1, z2, inputs[0]);
        seq![step.0] + df2t_run(b0, b1, b2, a1, a2, step.1, step.2, inputs.drop_first())
    }
}

/// Filter stability: for any coefficients, any starting state and any input
/// sequence of any length, every output of the run stays within the
/// saturation bound — the response cannot grow without bound.
pub proof fn lemma_df2t_run_bounded(
    b0: int,
    b1: int,
    b2: int,
    a1: int,
    a2: int,
    z1: int,
    z2: int,
    inputs: Seq<int>,
)
    ensures
        forall|i: int|
            0 <= i < df2t_run(b0, b1, b2, a1, a2, z1, z2, inputs).len()
                ==> -SAT <= #[trigger] df2t_run(b0, b1, b2, a1, a2, z1, z2, inputs)[i] <= SAT,
    decreases inputs.len(),
{
    if inputs.len() > 0 {
        let step = df2t_step(b0, b1, b2, a1, a2, z1, z2, inputs[0]);
        lemma_df2t_run_bounded(b0, b1, b2, a1, a2, step.1, step.2, inputs.drop_first());
        let run = df2t_run(b0, b1, b2, a1, a2, z1, z2, inputs);
        let rest = df2t_run(b0, b1, b2, a1, a2, step.1, step.2, inputs.drop_first());
        assert forall|i: int| 0 <= i < run.len() implies -SAT <= #[trigger] run[i] <= SAT by {
            if i == 0 {
                assert(run[0] == step.0);
            } else {
                assert(run[i] == rest[i - 1]);
            }
        }
    }
}

} // verus!
