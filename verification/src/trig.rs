//! Sine, cosine and tangent on fixed-point angles, by range reduction to
//! `[-pi/2, pi/2]` and a truncated Taylor series. The specifications state
//! the computed polynomial exactly; results are clamped to `[-1, 1]`.

use vstd::prelude::*;
use crate::fixed::{Fx, FX_ONE, abs_i, mul_fx, div_fx, clamp_i};
use crate::transform::lemma_mul_fx_bound;

verus! {

/// The raw fixed-point value of pi (rounded down).
pub const PI_RAW: i64 = 205887;

/// The raw fixed-point value of pi / 2.
pub const HALF_PI_RAW: i64 = 102943;

/// Largest angle magnitude the trigonometric functions accept: a little
/// above two pi.
pub const ANGLE_BOUND: i64 = 0x70000;

/// One fold of range reduction: angles beyond half a turn are brought back
/// by a full turn.
pub open spec fn wrap_angle_s(t: int) -> int {
    if t > PI_RAW {
        t - 2 * PI_RAW
    } else if t < -PI_RAW {
        t + 2 * PI_RAW
    } else {
        t
    }
}

/// Taylor polynomial for sine, adequate on `[-pi/2, pi/2]`.
pub open spec fn sin_apx_s(t: int) -> int {
    let t2 = mul_fx(t, t);
    let t3 = mul_fx(t2, t);
    let t5 = mul_fx(t3, t2);
    let t7 = mul_fx(t5, t2);
    let t9 = mul_fx(t7, t2);
    t - div_fx(t3, 6 * FX_ONE) + div_fx(t5, 120 * FX_ONE) - div_fx(t7, 5040 * FX_ONE)
        + div_fx(t9, 362880 * FX_ONE)
}

/// Taylor polynomial for cosine, adequate on `[-pi/2, pi/2]`.
pub open spec fn cos_apx_s(t: int) -> int {
    let t2 = mul_fx(t, t);
    let t4 = mul_fx(t2, t2);
    let t6 = mul_fx(t4, t2);
    let t8 = mul_fx(t6, t2);
    (FX_ONE as int) - div_fx(t2, 2 * FX_ONE) + div_fx(t4, 24 * FX_ONE) - div_fx(
        t6,
        720 * FX_ONE,
    ) + div_fx(t8, 40320 * FX_ONE)
}

/// Fixed-point sine: reduce, reflect into the series' range, clamp.
pub open spec fn sin_s(t: int) -> int {
    let w = wrap_angle_s(t);
    let r = if w > HALF_PI_RAW {
        sin_apx_s(PI_RAW - w)
    } else if w < -HALF_PI_RAW {
        sin_apx_s(-PI_RAW - w)
    } else {
        sin_apx_s(w)
    };
    clamp_i(r, -FX_ONE, FX_ONE as int)
}

/// Fixed-point cosine: reduce, reflect into the series' range, clamp.
pub open spec fn cos_s(t: int) -> int {
    let w = wrap_angle_s(t);
    let r = if w > HALF_PI_RAW {
        -cos_apx_s(PI_RAW - w)
    } else if w < -HALF_PI_RAW {
        -cos_apx_s(PI_RAW + w)
    } else {
        cos_apx_s(w)
    };
    clamp_i(r, -FX_ONE, FX_ONE as int)
}

/// Fixed-point tangent: the quotient of the two, zero where the computed
/// cosine vanishes.
pub open spec fn tan_s(t: int) -> int {
    if cos_s(t) == 0 {
        0
    } else {
        div_fx(sin_s(t), cos_s(t))
    }
}

/// Evaluates the sine polynomial on a reduced angle.
#[verifier::rlimit(60)]
fn sin_apx(t: Fx) -> (r: Fx)
    requires
        abs_i(t@) <= 2 * PI_RAW,
    ensures
        r@ == sin_apx_s(t@),
        abs_i(r@) <= 0x2000_0000_0000_0000,
{
    proof {
        lemma_pow_bounds(t@);
    }
    let t2: Fx = t.mul(t);
    let t3: Fx = t2.mul(t);
    let t5: Fx = t3.mul(t2);
    let t7: Fx = t5.mul(t2);
    let t9: Fx = t7.mul(t2);
    let s3: Fx = t3.div(Fx::of(6));
    let s5: Fx = t5.div(Fx::of(120));
    let s7: Fx = t7.div(Fx::of(5040));
    let s9: Fx = t9.div(Fx::of(362880));
    t.sub(s3).add(s5).sub(s7).add(s9)
}

/// Evaluates the cosine polynomial on a reduced angle.
#[verifier::rlimit(60)]
fn cos_apx(t: Fx) -> (r: Fx)
    requires
        abs_i(t@) <= 2 * PI_RAW,
    ensures
        r@ == cos_apx_s(t@),
        abs_i(r@) <= 0x2000_0000_0000_0000,
{
    proof {
        lemma_pow_bounds(t@);
    }
    let t2: Fx = t.mul(t);
    let t4: Fx = t2.mul(t2);
    let t6: Fx = t4.mul(t2);
    let t8: Fx = t6.mul(t2);
    let c2: Fx = t2.div(Fx::of(2));
    let c4: Fx = t4.div(Fx::of(24));
    let c6: Fx = t6.div(Fx::of(720));
    let c8: Fx = t8.div(Fx::of(40320));
    Fx::one().sub(c2).add(c4).sub(c6).add(c8)
}

/// Bounds on the powers of a reduced angle, to feed the arithmetic.
proof fn lemma_pow_bounds(t: int)
    requires
        abs_i(t) <= 2 * PI_RAW,
    ensures
        abs_i(mul_fx(t, t)) <= 0x28_0000,
        abs_i(mul_fx(mul_fx(t, t), t)) <= 0x100_0000,
        abs_i(mul_fx(mul_fx(mul_fx(t, t), t), mul_fx(t, t))) <= 0x2800_0000,
        abs_i(mul_fx(mul_fx(mul_fx(mul_fx(t, t), t), mul_fx(t, t)), mul_fx(t, t)))
            <= 0x7_0000_0000,
        abs_i(
            mul_fx(
                mul_fx(mul_fx(mul_fx(mul_fx(t, t), t), mul_fx(t, t)), mul_fx(t, t)),
                mul_fx(t, t),
            ),
        ) <= 0x120_0000_0000,
        abs_i(mul_fx(mul_fx(t, t), mul_fx(t, t))) <= 0x640_0000,
        abs_i(mul_fx(mul_fx(mul_fx(t, t), mul_fx(t, t)), mul_fx(t, t))) <= 0x1_0000_0000,
        abs_i(
            mul_fx(mul_fx(mul_fx(mul_fx(t, t), mul_fx(t, t)), mul_fx(t, t)), mul_fx(t, t)),
        ) <= 0x30_0000_0000,
{
    assert(411774 * 411774 <= 0x28_0000 * 65536) by (nonlinear_arith);
    assert(0x28_0000 * 411774 <= 0x100_0000 * 65536) by (nonlinear_arith);
    assert(0x28_0000 * 0x28_0000 <= 0x640_0000 * 65536) by (nonlinear_arith);
    assert(0x100_0000 * 0x28_0000 <= 0x2800_0000 * 65536) by (nonlinear_arith);
    assert(0x640_0000 * 0x28_0000 <= 0x1_0000_0000 * 65536) by (nonlinear_arith);
    assert(0x2800_0000 * 0x28_0000 <= 0x7_0000_0000 * 65536) by (nonlinear_arith);
    assert(0x1_0000_0000 * 0x28_0000 <= 0x30_0000_0000 * 65536) by (nonlinear_arith);
    assert(0x7_0000_0000 * 0x28_0000 <= 0x120_0000_0000 * 65536) by (nonlinear_arith);
    assert(2 * PI_RAW <= 411774);
    let t2 = mul_fx(t, t);
    lemma_mul_fx_bound(t, t, 411774, 411774, 0x28_0000);
    let t3 = mul_fx(t2, t);
    lemma_mul_fx_bound(t2, t, 0x28_0000, 411774, 0x100_0000);
    let t4 = mul_fx(t2, t2);
    lemma_mul_fx_bound(t2, t2, 0x28_0000, 0x28_0000, 0x640_0000);
    let t5 = mul_fx(t3, t2);
    lemma_mul_fx_bound(t3, t2, 0x100_0000, 0x28_0000, 0x2800_0000);
    let t6 = mul_fx(t4, t2);
    lemma_mul_fx_bound(t4, t2, 0x640_0000, 0x28_0000, 0x1_0000_0000);
    let t7 = mul_fx(t5, t2);
    lemma_mul_fx_bound(t5, t2, 0x2800_0000, 0x28_0000, 0x7_0000_0000);
    let t8 = mul_fx(t6, t2);
    lemma_mul_fx_bound(t6, t2, 0x1_0000_0000, 0x28_0000, 0x30_0000_0000);
    let t9 = mul_fx(t7, t2);
    lemma_mul_fx_bound(t7, t2, 0x7_0000_0000, 0x28_0000, 0x120_0000_0000);
}

/// Brings an angle within half a turn of zero.
fn wrap_angle(t: Fx) -> (r: Fx)
    requires
        abs_i(t@) <= ANGLE_BOUND,
    ensures
        r@ == wrap_angle_s(t@),
        abs_i(r@) <= 2 * PI_RAW,
{
    if t.raw > PI_RAW {
        Fx { raw: t.raw - 2 * PI_RAW }
    } else if t.raw < -PI_RAW {
        Fx { raw: t.raw + 2 * PI_RAW }
    } else {
        t
    }
}

/// Fixed-point sine of an angle within `ANGLE_BOUND`.
pub fn sin_fx(t: Fx) -> (r: Fx)
    requires
        abs_i(t@) <= ANGLE_BOUND,
    ensures
        r@ == sin_s(t@),
        abs_i(r@) <= FX_ONE,
{
    let w: Fx = wrap_angle(t);
    let raw: Fx = if w.raw > HALF_PI_RAW {
        sin_apx(Fx { raw: PI_RAW - w.raw })
    } else if w.raw < -HALF_PI_RAW {
        sin_apx(Fx { raw: -PI_RAW - w.raw })
    } else {
        sin_apx(w)
    };
    let one: Fx = Fx::one();
    raw.clamp(one.neg(), one)
}

/// Fixed-point cosine of an angle within `ANGLE_BOUND`.
pub fn cos_fx(t: Fx) -> (r: Fx)
    requires
        abs_i(t@) <= ANGLE_BOUND,
    ensures
        r@ == cos_s(t@),
        abs_i(r@) <= FX_ONE,
{
    let w: Fx = wrap_angle(t);
    let raw: Fx = if w.raw > HALF_PI_RAW {
        cos_apx(Fx { raw: PI_RAW - w.raw }).neg()
    } else if w.raw < -HALF_PI_RAW {
        cos_apx(Fx { raw: PI_RAW + w.raw }).neg()
    } else {
        cos_apx(w)
    };
    let one: Fx = Fx::one();
    raw.clamp(one.neg(), one)
}

/// Fixed-point tangent of an angle within `ANGLE_BOUND`.
pub fn tan_fx(t: Fx) -> (r: Fx)
    requires
        abs_i(t@) <= ANGLE_BOUND,
    ensures
        r@ == tan_s(t@),
        abs_i(r@) <= 0x1_0000_0000,
{
    let s: Fx = sin_fx(t);
    let c: Fx = cos_fx(t);
    if c.raw == 0 {
        Fx::zero()
    } else {
        s.div(c)
    }
}

} // verus!
