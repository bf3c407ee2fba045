//! Q16.16 fixed-point arithmetic for audio samples, levels and mixes.
//!
//! A value `x` stands for the real number `x / UNIT`. Keeping every signal in
//! integers makes each stage a total function: no division can produce NaN,
//! and every result is pinned exactly by its contract.

use vstd::prelude::*;

verus! {

/// The fixed-point representation of 1.0.
pub const UNIT: i64 = 65536;

/// The saturation bound for audio samples: 16.0 in fixed point. Every stage
/// of the engine clamps what it feeds into a feedback path to `[-SAT, SAT]`,
/// so no delay line or filter state can grow without bound.
pub const SAT: i64 = 1048576;

/// Operand bound under which `a * b` (both bounded by it) cannot overflow `i64`.
pub const MUL_BOUND: i64 = 0x7FFF_FFFF;

/// Truncating (toward zero) division by a positive divisor, as the machine
/// performs it; equals Euclidean division for a non-negative dividend.
pub open spec fn div_tz(a: int, d: int) -> int {
    if a >= 0 {
        a / d
    } else {
        -((-a) / d)
    }
}

/// The fixed-point product of `a` and `b`: `a * b / UNIT`, truncated.
pub open spec fn mul_fx(a: int, b: int) -> int {
    div_tz(a * b, UNIT as int)
}

/// `x` clamped to `[lo, hi]`.
pub open spec fn clamp(x: int, lo: int, hi: int) -> int {
    if x < lo {
        lo
    } else if x > hi {
        hi
    } else {
        x
    }
}

/// Truncating toward zero never increases magnitude and keeps the sign.
pub proof fn lemma_div_tz_bounds(a: int, d: int)
    requires
        0 < d,
    ensures
        a >= 0 ==> 0 <= div_tz(a, d) <= a,
        a <= 0 ==> a <= div_tz(a, d) <= 0,
{
    if a >= 0 {
        vstd::arithmetic::div_mod::lemma_div_nonincreasing(a, d);
        vstd::arithmetic::div_mod::lemma_div_pos_is_pos(a, d);
    } else {
        vstd::arithmetic::div_mod::lemma_div_nonincreasing(-a, d);
        vstd::arithmetic::div_mod::lemma_div_pos_is_pos(-a, d);
    }
}

/// Truncating division is monotone in the magnitude of the dividend:
/// if `|a| <= m` then `|div_tz(a, d)| <= m / d`.
pub proof fn lemma_div_tz_le(a: int, m: int, d: int)
    requires
        0 < d,
        -m <= a <= m,
    ensures
        -(m / d) <= div_tz(a, d) <= m / d,
{
    if a >= 0 {
        vstd::arithmetic::div_mod::lemma_div_is_ordered(a, m, d);
        vstd::arithmetic::div_mod::lemma_div_pos_is_pos(a, d);
    } else {
        vstd::arithmetic::div_mod::lemma_div_is_ordered(-a, m, d);
        vstd::arithmetic::div_mod::lemma_div_pos_is_pos(-a, d);
    }
}

/// Scaling by a factor of at most 1.0 in magnitude never increases magnitude:
/// if `|b| <= UNIT` and `|a| <= m` then `|mul_fx(a, b)| <= m`.
pub proof fn lemma_mul_fx_unit_bound(a: int, b: int, m: int)
    requires
        0 <= m,
        -m <= a <= m,
        -UNIT <= b <= UNIT,
    ensures
        -m <= mul_fx(a, b) <= m,
{
    assert(-(m * UNIT) <= a * b <= m * UNIT) by (nonlinear_arith)
        requires
            0 <= m,
            -m <= a <= m,
            -UNIT <= b <= UNIT,
    ;
    lemma_div_tz_le(a * b, m * UNIT, UNIT as int);
    vstd::arithmetic::div_mod::lemma_div_multiples_vanish(m, UNIT as int);
}

/// A zero factor gives a zero fixed-point product, on either side.
pub proof fn lemma_mul_fx_zero(a: int)
    ensures
        mul_fx(a, 0) == 0,
        mul_fx(0, a) == 0,
{
    assert(a * 0 == 0 && 0 * a == 0) by (nonlinear_arith);
    vstd::arithmetic::div_mod::lemma_div_of0(UNIT as int);
}

/// Truncating division of `a` by a positive divisor `d`.
pub fn div_trunc(a: i64, d: i64) -> (r: i64)
    requires
        0 < d,
        -0x4000_0000_0000_0000 < a < 0x4000_0000_0000_0000,
    ensures
        r == div_tz(a as int, d as int),
        a >= 0 ==> 0 <= r <= a,
        a <= 0 ==> a <= r <= 0,
{
    proof {
        lemma_div_tz_bounds(a as int, d as int);
    }
    if a >= 0 {
        ((a as u64) / (d as u64)) as i64
    } else {
        let n = (-a) as u64;
        -((n / (d as u64)) as i64)
    }
}

/// The fixed-point product of `a` and `b`.
pub fn mul_trunc(a: i64, b: i64) -> (r: i64)
    requires
        -MUL_BOUND <= a <= MUL_BOUND,
        -MUL_BOUND <= b <= MUL_BOUND,
    ensures
        r == mul_fx(a as int, b as int),
{
    proof {
        assert(-0x4000_0000_0000_0000 < (a as int) * (b as int) < 0x4000_0000_0000_0000)
            by (nonlinear_arith)
            requires
                -MUL_BOUND <= a <= MUL_BOUND,
                -MUL_BOUND <= b <= MUL_BOUND,
        ;
    }
    let p: i64 = a * b;
    div_trunc(p, UNIT)
}

/// `x` clamped to `[lo, hi]`.
pub fn clamp_fx(x: i64, lo: i64, hi: i64) -> (r: i64)
    requires
        lo <= hi,
    ensures
        r == clamp(x as int, lo as int, hi as int),
        lo <= r <= hi,
{
    if x < lo {
        lo
    } else if x > hi {
        hi
    } else {
        x
    }
}

} // verus!
