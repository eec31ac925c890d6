//! The gamma-corrected rendering driver: display encoding of linear
//! radiance, direct lighting with an optional glossy reflection bounce, and
//! the whole-image render loop.

use vstd::prelude::*;
use crate::fixed::{Fx, FX_ONE, mul_fx, div_fx, div_t, lemma_div_t_abs, lemma_div_t_nonneg};
use crate::util::{Color, C3, rgb_add, rgb_div, rgb_clamp_0_1, rgb_01_to_255, rgb_to_u8, Rgb8, random_in_cone};
use crate::scene::{Scene, lights_of};
use crate::light::{Light, object_mat_wf};
use crate::ray::{Ray, RayG};
use crate::objects::object::{Object, object_hit_s};
use crate::objects::face::on_face_s;
use crate::vector::{Vec3, V3};
use crate::scene::scene_hit_s;
use crate::raytracer::simple::{energy_outcome_ok, surface_outcome_s, surface_shading_s, LIGHT_ENERGY_BOUND};
use crate::camera::viewport_s;
use crate::raytracer::sampler::{PixelSampler, Uniform};
use crate::raytracer::simple::Image;

verus! {

/// Raw threshold below which the display encoding is linear.
pub const GAMMA_LIN_MAX: i64 = 205;

/// The raw fixed-point slope of the linear segment (12.92).
pub const GAMMA_SLOPE: i64 = 846725;

/// The raw fixed-point gain of the power segment (1.055).
pub const GAMMA_GAIN: i64 = 69140;

/// The raw fixed-point offset of the power segment (0.055).
pub const GAMMA_OFF: i64 = 3604;

/// The encoded value at the segment boundary; the power segment is floored
/// here so the encoding stays monotone under quantization.
pub const GAMMA_KNEE: i64 = 2648;

/// The internal root scale: roots are searched at this resolution.
pub const ROOT_SCALE: u64 = 1024;

/// The seventh power of the root scale.
pub const ROOT_SCALE_7: u128 = 0x40_0000_0000_0000_0000;

/// Third power.
pub open spec fn p3(y: int) -> int {
    y * y * y
}

/// Sixth power.
pub open spec fn p6(y: int) -> int {
    p3(y) * p3(y)
}

/// Twelfth power.
pub open spec fn p12(y: int) -> int {
    p6(y) * p6(y)
}

/// Fifth power.
pub open spec fn p5(c: int) -> int {
    c * c * c * c * c
}

/// Cubing is monotone on nonnegative values.
proof fn lemma_p3_mono(a: int, b: int)
    requires
        0 <= a <= b,
    ensures
        0 <= p3(a) <= p3(b),
{
    assert(0 <= a * a * a <= b * b * b) by (nonlinear_arith)
        requires 0 <= a <= b;
}

/// The twelfth power is monotone on nonnegative values.
proof fn lemma_p12_mono(a: int, b: int)
    requires
        0 <= a <= b,
    ensures
        0 <= p12(a) <= p12(b),
{
    lemma_p3_mono(a, b);
    assert(0 <= p3(a) * p3(a) <= p3(b) * p3(b)) by (nonlinear_arith)
        requires 0 <= p3(a) <= p3(b);
    assert(0 <= p6(a) * p6(a) <= p6(b) * p6(b)) by (nonlinear_arith)
        requires 0 <= p6(a) <= p6(b);
}

/// The fifth power is monotone on nonnegative values.
proof fn lemma_p5_mono(a: int, b: int)
    requires
        0 <= a <= b,
    ensures
        0 <= p5(a) <= p5(b),
{
    assert(0 <= a * a * a * a * a <= b * b * b * b * b) by (nonlinear_arith)
        requires 0 <= a <= b;
}

/// `y` is the floor of the five-twelfths power of `ct` at the root scale.
pub open spec fn is_gamma_root(ct: int, y: int) -> bool {
    0 <= y <= ROOT_SCALE && p12(y) <= p5(ct) * ROOT_SCALE_7 && (y == ROOT_SCALE || p12(y + 1)
        > p5(ct) * ROOT_SCALE_7)
}

/// The root itself.
pub open spec fn gamma_root_s(ct: int) -> int {
    choose|y: int| #[trigger] is_gamma_root(ct, y)
}

/// The root exists for every scaled channel.
proof fn lemma_gamma_root_exists(ct: int)
    requires
        0 <= ct <= ROOT_SCALE,
    ensures
        is_gamma_root(ct, gamma_root_s(ct)),
{
    assert(p5(ct) * ROOT_SCALE_7 >= 0) by (nonlinear_arith)
        requires ct >= 0;
    assert(p12(0) == 0) by (nonlinear_arith);
    lemma_gamma_root_from(ct, 0);
}

/// Climbing from a satisfying lower point reaches the root.
proof fn lemma_gamma_root_from(ct: int, k: int)
    requires
        0 <= ct <= ROOT_SCALE,
        0 <= k <= ROOT_SCALE,
        p12(k) <= p5(ct) * ROOT_SCALE_7,
    ensures
        is_gamma_root(ct, gamma_root_s(ct)),
    decreases ROOT_SCALE - k,
{
    if k == ROOT_SCALE {
        assert(is_gamma_root(ct, k as int));
    } else if p12(k + 1) > p5(ct) * ROOT_SCALE_7 {
        assert(is_gamma_root(ct, k));
    } else {
        lemma_gamma_root_from(ct, k + 1);
    }
}

/// Any satisfying value is the root.
proof fn lemma_gamma_root_is(ct: int, y: int)
    requires
        0 <= ct <= ROOT_SCALE,
        is_gamma_root(ct, y),
    ensures
        gamma_root_s(ct) == y,
{
    let q = gamma_root_s(ct);
    assert(is_gamma_root(ct, q)) by {
        lemma_gamma_root_exists(ct);
    }
    if q < y {
        lemma_p12_mono(q + 1, y);
        assert(false);
    } else if y < q {
        lemma_p12_mono(y + 1, q);
        assert(false);
    }
}

/// Roots grow with the channel.
proof fn lemma_gamma_root_mono(ca: int, cb: int)
    requires
        0 <= ca <= cb <= ROOT_SCALE,
    ensures
        gamma_root_s(ca) <= gamma_root_s(cb),
{
    lemma_gamma_root_exists(ca);
    lemma_gamma_root_exists(cb);
    let ya = gamma_root_s(ca);
    let yb = gamma_root_s(cb);
    lemma_p5_mono(ca, cb);
    assert(p5(ca) * ROOT_SCALE_7 <= p5(cb) * ROOT_SCALE_7) by (nonlinear_arith)
        requires 0 <= p5(ca) <= p5(cb);
    if yb < ya {
        lemma_p12_mono(yb + 1, ya);
        assert(false);
    }
}

/// The display encoding of one linear channel in `[0, 1]`: linear near
/// zero, then the five-twelfths-power segment, floored at the knee so
/// quantization cannot break monotonicity.
pub open spec fn gamma_encode_s(c: int) -> int {
    if c <= GAMMA_LIN_MAX {
        mul_fx(c, GAMMA_SLOPE as int)
    } else {
        let y = gamma_root_s(c / 64);
        let e = mul_fx(64 * y, GAMMA_GAIN as int) - GAMMA_OFF;
        if e < GAMMA_KNEE {
            GAMMA_KNEE as int
        } else {
            e
        }
    }
}

/// The twelfth power, computed wide.
fn pow12_u128(y: u64) -> (r: u128)
    requires
        y <= 1025,
    ensures
        r as int == p12(y as int),
{
    proof {
        assert(0 <= (y as int) * (y as int) <= 1025 * 1025) by (nonlinear_arith)
            requires y <= 1025;
        assert(0 <= (y as int) * (y as int) * (y as int) < 0x1_0000_0000_0000_0000)
            by (nonlinear_arith)
            requires y <= 1025;
    }
    let y3: u128 = (y as u128) * (y as u128) * (y as u128);
    proof {
        assert((y3 as int) * (y3 as int) < 0x1_0000_0000_0000_0000_0000_0000_0000_0000)
            by (nonlinear_arith)
            requires 0 <= y3 < 0x1_0000_0000_0000_0000;
    }
    let y6: u128 = y3 * y3;
    proof {
        assert(p6(y as int) < 0x4000_0000_0000_0000) by (nonlinear_arith)
            requires y <= 1025;
        assert((y6 as int) * (y6 as int) < 0x1_0000_0000_0000_0000_0000_0000_0000_0000)
            by (nonlinear_arith)
            requires 0 <= y6 < 0x4000_0000_0000_0000;
    }
    y6 * y6
}

/// The root's comparison target, computed wide.
fn root_target(ct: u64) -> (r: u128)
    requires
        ct <= 1024,
    ensures
        r as int == p5(ct as int) * ROOT_SCALE_7,
{
    proof {
        assert(0 <= p5(ct as int) <= 0x10_0000_0000_0000) by (nonlinear_arith)
            requires ct <= 1024;
        assert(p5(ct as int) * ROOT_SCALE_7 < 0x1_0000_0000_0000_0000_0000_0000_0000_0000)
            by (nonlinear_arith)
            requires 0 <= p5(ct as int) <= 0x10_0000_0000_0000;
    }
    proof {
        assert(0 <= (ct as int) * (ct as int) <= 1024 * 1024) by (nonlinear_arith)
            requires ct <= 1024;
    }
    let c2: u128 = (ct as u128) * (ct as u128);
    proof {
        assert(0 <= (c2 as int) * (c2 as int) <= 0x1_0000_0000_0000) by (nonlinear_arith)
            requires 0 <= c2 <= 1024 * 1024;
        assert(0 <= (c2 as int) * (c2 as int) * (ct as int) <= 0x4_0000_0000_0000)
            by (nonlinear_arith)
            requires
                0 <= c2 <= 1024 * 1024,
                ct <= 1024,
        ;
    }
    let c5: u128 = c2 * c2 * (ct as u128);
    proof {
        assert(0 <= (c5 as int) * (ROOT_SCALE_7 as int)
            < 0x1_0000_0000_0000_0000_0000_0000_0000_0000) by (nonlinear_arith)
            requires
                0 <= c5 <= 0x4_0000_0000_0000,
                ROOT_SCALE_7 == 0x40_0000_0000_0000_0000,
        ;
    }
    proof {
        assert(c5 as int == p5(ct as int)) by (nonlinear_arith)
            requires
                c2 == (ct as int) * (ct as int),
                c5 == (c2 as int) * (c2 as int) * (ct as int),
                ct <= 1024,
        ;
    }
    c5 * ROOT_SCALE_7
}

/// Binary search for the five-twelfths-power root.
fn gamma_root(ct: u64) -> (y: u64)
    requires
        ct <= 1024,
    ensures
        is_gamma_root(ct as int, y as int),
        y as int == gamma_root_s(ct as int),
        y <= 1024,
{
    let target: u128 = root_target(ct);
    let mut lo: u64 = 0;
    let mut hi: u64 = 1025;
    proof {
        assert(p12(0) == 0) by (nonlinear_arith);
        assert(p5(ct as int) * ROOT_SCALE_7 >= 0) by (nonlinear_arith)
            requires ct >= 0;
        lemma_p5_mono(ct as int, 1024);
        assert(p5(1024) * ROOT_SCALE_7 < p12(1025)) by (nonlinear_arith);
        assert(p5(ct as int) * ROOT_SCALE_7 <= p5(1024) * ROOT_SCALE_7) by (nonlinear_arith)
            requires 0 <= p5(ct as int) <= p5(1024);
    }
    while hi - lo > 1
        invariant
            ct <= 1024,
            target as int == p5(ct as int) * ROOT_SCALE_7,
            lo < hi <= 1025,
            p12(lo as int) <= target,
            p12(hi as int) > target,
        decreases hi - lo,
    {
        let mid: u64 = lo + (hi - lo) / 2;
        let pm: u128 = pow12_u128(mid);
        if pm <= target {
            lo = mid;
        } else {
            hi = mid;
        }
    }
    proof {
        lemma_gamma_root_is(ct as int, lo as int);
    }
    lo
}

/// The display encoding of one channel.
pub fn gamma_channel(c: Fx) -> (r: Fx)
    requires
        0 <= c@ <= FX_ONE,
    ensures
        r@ == gamma_encode_s(c@),
        0 <= r@ <= FX_ONE,
{
    if c.raw <= GAMMA_LIN_MAX {
        proof {
            crate::fixed::lemma_i64_prod_fits(c@, GAMMA_SLOPE as int);
            lemma_div_t_abs(c@ * GAMMA_SLOPE, FX_ONE as int);
            lemma_div_t_nonneg(c@ * GAMMA_SLOPE, FX_ONE as int);
            assert(c@ * GAMMA_SLOPE >= 0) by (nonlinear_arith)
                requires c@ >= 0;
            assert(c@ * GAMMA_SLOPE <= 205 * 846725) by (nonlinear_arith)
                requires 0 <= c@ <= 205;
            vstd::arithmetic::div_mod::lemma_div_is_ordered(
                c@ * GAMMA_SLOPE,
                205int * 846725,
                FX_ONE as int,
            );
            vstd::arithmetic::div_mod::lemma_fundamental_div_mod_converse(
                205int * 846725,
                65536int,
                2648int,
                39297int,
            );
        }
        let p: i128 = (c.raw as i128) * (GAMMA_SLOPE as i128);
        let q: i128 = p.checked_div(FX_ONE as i128).unwrap();
        Fx { raw: q as i64 }
    } else {
        let ct: u64 = (c.raw as u64) / 64;
        proof {
            assert(ct as int == c@ / 64);
            assert(c@ / 64 <= 65536int / 64) by {
                vstd::arithmetic::div_mod::lemma_div_is_ordered(c@, FX_ONE as int, 64int);
            }
        }
        let y: u64 = gamma_root(ct);
        let root: Fx = Fx { raw: (y * 64) as i64 };
        proof {
            assert(0x1_0000 * 69140 <= 69140 * 65536) by (nonlinear_arith);
            crate::transform::lemma_mul_fx_bound(root@, GAMMA_GAIN as int, 0x1_0000, 69140, 69140);
            crate::fixed::lemma_i64_prod_fits(root@, GAMMA_GAIN as int);
            lemma_div_t_nonneg(root@ * GAMMA_GAIN, FX_ONE as int);
            assert(root@ * GAMMA_GAIN >= 0) by (nonlinear_arith)
                requires root@ >= 0;
        }
        let e: Fx = root.mul(Fx { raw: GAMMA_GAIN }).sub(Fx { raw: GAMMA_OFF });
        if e.raw < GAMMA_KNEE {
            Fx { raw: GAMMA_KNEE }
        } else {
            proof {
                lemma_mul_fx_mono(root@, FX_ONE as int, GAMMA_GAIN as int);
                vstd::arithmetic::div_mod::lemma_fundamental_div_mod_converse(
                    65536int * 69140,
                    65536int,
                    69140int,
                    0int,
                );
            }
            e
        }
    }
}

/// The rescaled product is monotone in its first argument, for a
/// nonnegative factor.
proof fn lemma_mul_fx_mono(a: int, b: int, k: int)
    requires
        a <= b,
        0 <= k,
    ensures
        mul_fx(a, k) <= mul_fx(b, k),
{
    assert(a * k <= b * k) by (nonlinear_arith)
        requires
            a <= b,
            0 <= k;
    lemma_div_t_shift(a * k, b * k);
}

/// Truncating division by the scale is monotone.
proof fn lemma_div_t_shift(p: int, q: int)
    requires
        p <= q,
    ensures
        div_t(p, FX_ONE as int) <= div_t(q, FX_ONE as int),
{
    let s = FX_ONE as int;
    if 0 <= p {
        lemma_div_t_nonneg(p, s);
        lemma_div_t_nonneg(q, s);
        lemma_div_t_abs(p, s);
        lemma_div_t_abs(q, s);
        vstd::arithmetic::div_mod::lemma_div_is_ordered(p, q, s);
    } else if q < 0 {
        lemma_div_t_abs(p, s);
        lemma_div_t_abs(q, s);
        vstd::arithmetic::div_mod::lemma_div_is_ordered(-q, -p, s);
    } else {
        lemma_div_t_nonneg(q, s);
        lemma_div_t_abs(p, s);
    }
}

/// Display encoding is monotone: a brighter linear channel never encodes
/// darker.
pub proof fn lemma_gamma_monotone(a: int, b: int)
    requires
        0 <= a <= b <= FX_ONE,
    ensures
        gamma_encode_s(a) <= gamma_encode_s(b),
{
    if b <= GAMMA_LIN_MAX {
        lemma_mul_fx_mono(a, b, GAMMA_SLOPE as int);
    } else if a <= GAMMA_LIN_MAX {
        lemma_mul_fx_mono(a, GAMMA_LIN_MAX as int, GAMMA_SLOPE as int);
        vstd::arithmetic::div_mod::lemma_fundamental_div_mod_converse(
            205int * 846725,
            65536int,
            2648int,
            39297int,
        );
    } else {
        vstd::arithmetic::div_mod::lemma_div_is_ordered(a, b, 64int);
        vstd::arithmetic::div_mod::lemma_div_is_ordered(b, FX_ONE as int, 64int);
        vstd::arithmetic::div_mod::lemma_div_pos_is_pos(a, 64int);
        lemma_gamma_root_mono(a / 64, b / 64);
        lemma_gamma_root_exists(a / 64);
        lemma_gamma_root_exists(b / 64);
        lemma_mul_fx_mono(64 * gamma_root_s(a / 64), 64 * gamma_root_s(b / 64), GAMMA_GAIN as int);
    }
}

/// `z` is the floor of the twelve-fifths power of `ut` at the root scale.
pub open spec fn is_gamma_croot(ut: int, z: int) -> bool {
    0 <= z <= ROOT_SCALE && p5(z) * ROOT_SCALE_7 <= p12(ut) && (z == ROOT_SCALE || p5(z + 1)
        * ROOT_SCALE_7 > p12(ut))
}

/// The inverse root itself.
pub open spec fn gamma_croot_s(ut: int) -> int {
    choose|z: int| #[trigger] is_gamma_croot(ut, z)
}

/// The inverse root exists for every scaled channel.
proof fn lemma_gamma_croot_exists(ut: int)
    requires
        0 <= ut <= ROOT_SCALE,
    ensures
        is_gamma_croot(ut, gamma_croot_s(ut)),
{
    assert(p12(ut) >= 0) by (nonlinear_arith)
        requires ut >= 0;
    assert(p5(0) * ROOT_SCALE_7 == 0) by (nonlinear_arith);
    lemma_gamma_croot_from(ut, 0);
}

/// Climbing from a satisfying lower point reaches the inverse root.
proof fn lemma_gamma_croot_from(ut: int, k: int)
    requires
        0 <= ut <= ROOT_SCALE,
        0 <= k <= ROOT_SCALE,
        p5(k) * ROOT_SCALE_7 <= p12(ut),
    ensures
        is_gamma_croot(ut, gamma_croot_s(ut)),
    decreases ROOT_SCALE - k,
{
    if k == ROOT_SCALE {
        assert(is_gamma_croot(ut, k as int));
    } else if p5(k + 1) * ROOT_SCALE_7 > p12(ut) {
        assert(is_gamma_croot(ut, k));
    } else {
        lemma_gamma_croot_from(ut, k + 1);
    }
}

/// Any satisfying value is the inverse root.
proof fn lemma_gamma_croot_is(ut: int, z: int)
    requires
        0 <= ut <= ROOT_SCALE,
        is_gamma_croot(ut, z),
    ensures
        gamma_croot_s(ut) == z,
{
    let q = gamma_croot_s(ut);
    assert(is_gamma_croot(ut, q)) by {
        lemma_gamma_croot_exists(ut);
    }
    if q < z {
        lemma_p5_mono(q + 1, z);
        assert(p5(q + 1) * ROOT_SCALE_7 <= p5(z) * ROOT_SCALE_7) by (nonlinear_arith)
            requires 0 <= p5(q + 1) <= p5(z);
        assert(false);
    } else if z < q {
        lemma_p5_mono(z + 1, q);
        assert(p5(z + 1) * ROOT_SCALE_7 <= p5(q) * ROOT_SCALE_7) by (nonlinear_arith)
            requires 0 <= p5(z + 1) <= p5(q);
        assert(false);
    }
}

/// The display decoding of one encoded channel in `[0, 1]`: the inverse of
/// the linear segment near zero, the twelve-fifths power above.
pub open spec fn gamma_decode_s(e: int) -> int {
    if e <= 2651 {
        div_fx(e, GAMMA_SLOPE as int)
    } else {
        64 * gamma_croot_s(div_fx(e + GAMMA_OFF, GAMMA_GAIN as int) / 64)
    }
}

/// The fifth power times the scale, computed wide.
fn pow5_scaled_u128(z: u64) -> (r: u128)
    requires
        z <= 1025,
    ensures
        r as int == p5(z as int) * ROOT_SCALE_7,
{
    proof {
        assert(0 <= (z as int) * (z as int) <= 1025 * 1025) by (nonlinear_arith)
            requires z <= 1025;
    }
    let z2: u128 = (z as u128) * (z as u128);
    proof {
        assert(0 <= (z2 as int) * (z2 as int) <= 0x2_0000_0000_0000) by (nonlinear_arith)
            requires 0 <= z2 <= 1025 * 1025;
        assert(0 <= (z2 as int) * (z2 as int) * (z as int) <= 0x8_0000_0000_0000)
            by (nonlinear_arith)
            requires
                0 <= z2 <= 1025 * 1025,
                z <= 1025,
        ;
    }
    let z5: u128 = z2 * z2 * (z as u128);
    proof {
        assert(z5 as int == p5(z as int)) by (nonlinear_arith)
            requires
                z2 == (z as int) * (z as int),
                z5 == (z2 as int) * (z2 as int) * (z as int),
                z <= 1025,
        ;
        assert(0 <= (z5 as int) * (ROOT_SCALE_7 as int)
            < 0x1_0000_0000_0000_0000_0000_0000_0000_0000) by (nonlinear_arith)
            requires
                0 <= z5 <= 0x8_0000_0000_0000,
                ROOT_SCALE_7 == 0x40_0000_0000_0000_0000,
        ;
    }
    z5 * ROOT_SCALE_7
}

/// Binary search for the twelve-fifths-power root.
fn gamma_croot(ut: u64) -> (z: u64)
    requires
        ut <= 1024,
    ensures
        is_gamma_croot(ut as int, z as int),
        z as int == gamma_croot_s(ut as int),
        z <= 1024,
{
    let target: u128 = pow12_u128(ut);
    let mut lo: u64 = 0;
    let mut hi: u64 = 1025;
    proof {
        assert(p5(0) * ROOT_SCALE_7 == 0) by (nonlinear_arith);
        assert(p12(ut as int) >= 0) by (nonlinear_arith)
            requires ut >= 0;
        lemma_p12_mono(ut as int, 1024);
        assert(p12(1024) < p5(1025) * ROOT_SCALE_7) by (nonlinear_arith);
    }
    while hi - lo > 1
        invariant
            ut <= 1024,
            target as int == p12(ut as int),
            lo < hi <= 1025,
            p5(lo as int) * ROOT_SCALE_7 <= target,
            p5(hi as int) * ROOT_SCALE_7 > target,
        decreases hi - lo,
    {
        let mid: u64 = lo + (hi - lo) / 2;
        let pm: u128 = pow5_scaled_u128(mid);
        if pm <= target {
            lo = mid;
        } else {
            hi = mid;
        }
    }
    proof {
        lemma_gamma_croot_is(ut as int, lo as int);
    }
    lo
}

/// The display decoding of one channel: the inverse used to test that the
/// encoding round-trips.
pub fn gamma_decode_channel(e: Fx) -> (r: Fx)
    requires
        0 <= e@ <= FX_ONE,
    ensures
        r@ == gamma_decode_s(e@),
        0 <= r@ <= FX_ONE,
{
    if e.raw <= 2651 {
        proof {
            crate::fixed::lemma_i64_prod_fits(e@, FX_ONE as int);
            lemma_div_t_abs(e@ * FX_ONE, GAMMA_SLOPE as int);
            lemma_div_t_nonneg(e@ * FX_ONE, GAMMA_SLOPE as int);
        }
        let q: i128 = ((e.raw as i128) * (FX_ONE as i128)).checked_div(
            GAMMA_SLOPE as i128,
        ).unwrap();
        Fx { raw: q as i64 }
    } else {
        proof {
            crate::fixed::lemma_i64_prod_fits(e@ + GAMMA_OFF, FX_ONE as int);
            lemma_div_t_abs((e@ + GAMMA_OFF) * FX_ONE, GAMMA_GAIN as int);
            lemma_div_t_nonneg((e@ + GAMMA_OFF) * FX_ONE, GAMMA_GAIN as int);
            crate::transform::lemma_div_fx_bound(
                e@ + GAMMA_OFF,
                GAMMA_GAIN as int,
                69140,
                69140,
                65536,
            );
        }
        let u: i128 = (((e.raw + GAMMA_OFF) as i128) * (FX_ONE as i128)).checked_div(
            GAMMA_GAIN as i128,
        ).unwrap();
        let ut: u64 = ((u as i64) as u64) / 64;
        proof {
            assert(ut as int == div_fx(e@ + GAMMA_OFF, GAMMA_GAIN as int) / 64);
            vstd::arithmetic::div_mod::lemma_div_is_ordered(
                div_fx(e@ + GAMMA_OFF, GAMMA_GAIN as int),
                FX_ONE as int,
                64int,
            );
        }
        let z: u64 = gamma_croot(ut);
        Fx { raw: (z * 64) as i64 }
    }
}

/// Display encoding of a color, channel by channel.
pub open spec fn correct_gamma_s(c: C3) -> C3 {
    C3 { r: gamma_encode_s(c.r), g: gamma_encode_s(c.g), b: gamma_encode_s(c.b) }
}

/// Display-encodes a linear color with channels in `[0, 1]`.
pub fn correct_gamma(p: &Color) -> (r: Color)
    requires
        p@.in_unit(),
    ensures
        r@ == correct_gamma_s(p@),
        r@.in_unit(),
{
    Color { r: gamma_channel(p.r), g: gamma_channel(p.g), b: gamma_channel(p.b) }
}

/// The sum of a sequence of colors.
pub open spec fn sum_c3(es: Seq<C3>) -> C3
    decreases es.len(),
{
    if es.len() == 0 {
        C3 { r: 0, g: 0, b: 0 }
    } else {
        crate::util::rgb_add_s(sum_c3(es.drop_last()), es.last())
    }
}

/// The display pixel for a pixel's sample-energy sum at density `n2`
/// samples: average, clamp to the unit range, gamma-encode, scale to a
/// byte per channel.
pub open spec fn finalize_px_s(sum: C3, n2: int) -> Rgb8 {
    let avg = crate::util::rgb_clamp01_s(crate::util::rgb_div_s(sum, n2 * FX_ONE));
    let shown = correct_gamma_s(avg);
    let scaled = crate::util::rgb_mul_s(shown, 255 * FX_ONE);
    Rgb8 {
        r: crate::util::channel_to_u8_s(scaled.r) as u8,
        g: crate::util::channel_to_u8_s(scaled.g) as u8,
        b: crate::util::channel_to_u8_s(scaled.b) as u8,
    }
}

/// Scenes and settings the gamma-corrected driver accepts.
pub open spec fn trace_wf(scene: Scene, bounces: u32) -> bool {
    scene.wf() && lights_of(scene.objects@).len() <= 0x400 && bounces <= 8
}

/// What a bounced sample may report: the background on a miss; a struck
/// light's diffuse intensity; and, when no bounce budget is left so no
/// reflection is cast, exactly the direct-lighting shading fold for a
/// struck surface. The color is bounded in every case.
pub open spec fn bounce_outcome_ok(sc: Scene, r: RayG, bounces: int, c: C3) -> bool {
    &&& (scene_hit_s(sc.objects@, r) is None ==> c == sc.bg@)
    &&& (scene_hit_s(sc.objects@, r) is Some ==> {
        let (w, h) = scene_hit_s(sc.objects@, r)->0;
        &&& (sc.objects@[w] matches Object::Light(l) ==> c == l.material.diffuse_intensity@)
        &&& (bounces == 0 && sc.objects@[w] is Surface ==> surface_outcome_s(
            sc.objects@,
            sc.objects@[w],
            h.0,
            h.2,
            crate::camera::eye_position_s(sc.camera),
            c,
        ))
    })
    &&& c.bounded(FX_ONE + lights_of(sc.objects@).len() * LIGHT_ENERGY_BOUND)
}

/// The radiance of a ray under direct lighting: exactly the background on
/// a miss, a struck light's diffuse intensity, or the ambient color plus
/// the shadow-tested light_termution of every light. The bounce budget plays
/// no part here; `reflection_ray` is the bouncing variant.
pub fn ray_energy(scene: &Scene, ray: &Ray, _bounces: u32) -> (c: Color)
    requires
        scene.wf(),
        lights_of(scene.objects@).len() <= 0x400,
        ray@.wf(),
    ensures
        energy_outcome_ok(*scene, ray@, c@),
{
    let ghost nl = lights_of(scene.objects@).len() as int;
    match scene.intersects(ray) {
        None => {
            proof {
                lemma_trace_bound_mono(scene.bg@, nl);
            }
            scene.background()
        },
        Some(intersect) => {
            match intersect.object {
                Object::Light(l) => {
                    proof {
                        assert((*intersect.object).wf());
                        lemma_trace_bound_mono(l.material.diffuse_intensity@, nl);
                    }
                    l.light_material().diffuse_intensity
                },
                Object::Surface(_) => crate::raytracer::simple::shade_surface_at(
                    scene,
                    &intersect,
                ),
            }
        },
    }
}

/// A unit-range color is within the per-sample bound for any light count.
proof fn lemma_trace_bound_mono(c: C3, nl: int)
    requires
        c.in_unit(),
        0 <= nl,
    ensures
        c.bounded(FX_ONE + nl * LIGHT_ENERGY_BOUND),
{
    assert(nl * LIGHT_ENERGY_BOUND >= 0) by (nonlinear_arith)
        requires nl >= 0;
}

/// The radiance of a ray with glossy reflection: direct lighting as in
/// `ray_energy` and, while the bounce budget lasts, one recursive ray in a
/// sampled cone about each visible light's mirror direction. The recursive
/// light_termution is clamped to the unit range before it is added, so bounce
/// energy stays bounded at any depth.
#[verifier::rlimit(100)]
pub fn reflection_ray(scene: &Scene, ray: &Ray, bounces: u32) -> (c: Color)
    requires
        trace_wf(*scene, bounces),
        ray@.wf(),
    ensures
        bounce_outcome_ok(*scene, ray@, bounces as int, c@),
    decreases bounces,
{
    let ghost s = scene.objects@;
    let ghost nl = lights_of(s).len() as int;
    match scene.intersects(ray) {
        None => {
            proof {
                lemma_trace_bound_mono(scene.bg@, nl);
            }
            scene.background()
        },
        Some(intersect) => {
            match intersect.object {
                Object::Light(l) => {
                    proof {
                        assert((*intersect.object).wf());
                        lemma_trace_bound_mono(l.material.diffuse_intensity@, nl);
                    }
                    l.light_material().diffuse_intensity
                },
                Object::Surface(_) => {
                    proof {
                        crate::raytracer::simple::lemma_surface_mat_wf(*intersect.object);
                        crate::scene::lemma_lights_of_wf(s);
                    }
                    let m = intersect.object.material();
                    let mut pixel: Color = m.ambient_color();
                    let lights = scene.lights();
                    let eye = scene.camera().eye_position();
                    let ghost mut ps: Seq<V3> = Seq::empty();
                    let mut li: usize = 0;
                    while li < lights.len()
                        invariant
                            trace_wf(*scene, bounces),
                            s == scene.objects@,
                            lights@.len() == nl,
                            nl == lights_of(s).len(),
                            nl <= 0x400,
                            forall|j: int|
                                0 <= j < lights@.len() ==> (*#[trigger] lights@[j]) == lights_of(
                                    s,
                                )[j],
                            forall|j: int|
                                0 <= j < lights_of(s).len() ==> (#[trigger] lights_of(
                                    s,
                                )[j]).wf(),
                            li <= nl,
                            ps.len() == li,
                            forall|k: int|
                                0 <= k < li ==> on_face_s(lights_of(s)[k].face, #[trigger] ps[k]),
                            bounces == 0 ==> pixel@ == surface_shading_s(
                                s,
                                *intersect.object,
                                intersect.position@,
                                intersect.normal@,
                                eye@,
                                ps,
                                li as int,
                            ),
                            pixel@.bounded(FX_ONE + li * LIGHT_ENERGY_BOUND),
                            object_mat_wf(*intersect.object),
                            intersect.normal@.bounded(crate::transform::MAT_BOUND as int),
                            intersect.position@.bounded(crate::ray::HIT_BOUND as int),
                            eye@ == crate::camera::eye_position_s(scene.camera),
                            eye@.bounded(crate::ray::RAY_BOUND as int),
                        decreases nl - li,
                    {
                        let light: &Light = lights[li];
                        proof {
                            assert(0 <= li as int && (li as int) < lights_of(s).len());
                            assert(*lights@[li as int] == lights_of(s)[li as int]);
                            assert(lights_of(s)[li as int].wf());
                        }
                        let p: Vec3 = light.random_on_face();
                        proof {
                            crate::raytracer::simple::lemma_light_sample_in_world(*light, p@);
                        }
                        let cand = crate::raytracer::simple::shadow_toward(
                            scene,
                            intersect.position,
                            intersect.normal,
                            light,
                            p,
                        );
                        let ghost ps_old = ps;
                        proof {
                            ps = ps.push(p@);
                            crate::raytracer::simple::lemma_shading_prefix_pub(
                                s,
                                *intersect.object,
                                intersect.position@,
                                intersect.normal@,
                                eye@,
                                ps_old,
                                ps,
                                li as int,
                            );
                        }
                        match cand {
                            None => (),
                            Some(shadow_hit) => {
                                let shadow_ray = Ray::between(
                                    intersect.position,
                                    shadow_hit.position,
                                );
                                let d: Color = light.shade_diffuse(&intersect, &shadow_ray);
                                let sp: Color = light.shade_specular(eye, &intersect, &shadow_ray);
                                let mut light_term: Color = rgb_add(&d, &sp);
                                if bounces != 0 {
                                    let l_dir = shadow_ray.direction.normalize();
                                    proof {
                                        crate::light::lemma_reflect_dir_bounds(
                                            l_dir@,
                                            intersect.normal@,
                                        );
                                    }
                                    let dln: Fx = l_dir.dot(intersect.normal);
                                    let two_dln: Fx = dln.add(dln);
                                    proof {
                                        crate::light::lemma_reflect_prods(
                                            intersect.normal@,
                                            two_dln@,
                                        );
                                    }
                                    let rdir = intersect.normal.scale(two_dln).sub(l_dir);
                                    let cone = random_in_cone(rdir, Fx { raw: 34315 });
                                    let refl_ray = Ray::new(intersect.position, cone);
                                    let refl = reflection_ray(scene, &refl_ray, bounces - 1);
                                    let refl_clamped = rgb_clamp_0_1(&refl);
                                    light_term = rgb_add(&light_term, &refl_clamped);
                                }
                                proof {
                                    lemma_bounce_add(pixel@, light_term@, li as int, nl);
                                }
                                pixel = rgb_add(&light_term, &pixel);
                            },
                        }
                        li = li + 1;
                    }
                    pixel
                },
            }
        },
    }
}

/// Adding one light's bounded light_termution keeps the running bound and the
/// sums within range.
proof fn lemma_bounce_add(acc: C3, light_term: C3, li: int, nl: int)
    requires
        acc.bounded(FX_ONE + li * LIGHT_ENERGY_BOUND),
        light_term.bounded(LIGHT_ENERGY_BOUND as int),
        0 <= li < nl <= 0x400,
    ensures
        crate::util::rgb_add_s(light_term, acc).bounded(FX_ONE + (li + 1) * LIGHT_ENERGY_BOUND),
        acc.bounded(0x2000_0000_0000),
        light_term.bounded(0x2000_0000_0000),
{
    assert((li + 1) * LIGHT_ENERGY_BOUND == li * LIGHT_ENERGY_BOUND + LIGHT_ENERGY_BOUND)
        by (nonlinear_arith);
    assert(li * LIGHT_ENERGY_BOUND <= 0x400 * LIGHT_ENERGY_BOUND) by (nonlinear_arith)
        requires 0 <= li <= 0x400;
}

/// One traced sample of the driver, at the given fixed-point coordinates:
/// the camera casts a ray and the energy is an admissible bounced outcome
/// for it.
pub open spec fn trace_sample_ok(sc: Scene, bounces: int, sx: int, sy: int, c: C3) -> bool {
    &&& crate::camera::pixel_ray_s(sc.camera, sx, sy) is Some
    &&& bounce_outcome_ok(sc, crate::camera::pixel_ray_s(sc.camera, sx, sy)->0, bounces, c)
}

/// The content of one driver pixel: the samples sit at the uniform grid
/// centers of the pixel, and the pixel is the tone-mapped average of
/// admissible bounced energies for the rays through them.
#[verifier::opaque]
pub open spec fn traced_pixel_ok(
    sc: Scene,
    n: int,
    bounces: int,
    px: int,
    py: int,
    out: Rgb8,
) -> bool {
    exists|es: Seq<C3>|
        es.len() == n * n && (forall|k: int|
            0 <= k < es.len() ==> trace_sample_ok(
                sc,
                bounces,
                px * FX_ONE + crate::raytracer::sampler::uniform_off_s(k / n, n),
                py * FX_ONE + crate::raytracer::sampler::uniform_off_s(k % n, n),
                #[trigger] es[k],
            )) && out == finalize_px_s(sum_c3(es), n * n)
}

/// One raster row of the driver, at scene row `y` (bottom-up): each column
/// is the tone-mapped average of bounced sample energies at its uniform
/// grid centers. A caller can drive rows one by one and report progress
/// between them.
pub fn render_row(scene: &Scene, n: u32, bounces: u32, y: u32, width: u32) -> (row: Vec<Rgb8>)
    requires
        trace_wf(*scene, bounces),
        1 <= n <= 0x40,
        width as int == viewport_s(scene.camera).0,
        (y as int) < viewport_s(scene.camera).1,
    ensures
        row@.len() == width,
        forall|x: int|
            0 <= x < width ==> #[trigger] traced_pixel_ok(
                *scene,
                n as int,
                bounces as int,
                x,
                y as int,
                row@[x],
            ),
{
    let sampler: Uniform = Uniform;
    proof {
        assert(n * n <= 0x1000) by (nonlinear_arith)
            requires n <= 0x40;
    }
    let n2: Fx = Fx::of((n * n) as i32);
    let mut row: Vec<Rgb8> = Vec::new();
    let mut x: u32 = 0;
    while x < width
        invariant
            trace_wf(*scene, bounces),
            1 <= n <= 0x40,
            n2@ == n as int * n as int * FX_ONE,
            width as int == viewport_s(scene.camera).0,
            (y as int) < viewport_s(scene.camera).1,
            x <= width,
            row@.len() == x,
            forall|xq: int|
                0 <= xq < x ==> #[trigger] traced_pixel_ok(
                    *scene,
                    n as int,
                    bounces as int,
                    xq,
                    y as int,
                    row@[xq],
                ),
        decreases width - x,
    {
        proof {
            crate::raytracer::simple::lemma_camera_viewport_small(scene.camera);
        }
        let samples = sampler.samples((x, y), n);
        proof {
            assert(n * n <= 0x1000) by (nonlinear_arith)
                requires n <= 0x40;
            assert(n2@ >= FX_ONE) by (nonlinear_arith)
                requires
                    n2@ == n as int * n as int * FX_ONE,
                    n >= 1,
            ;
        }
        let mut energy: Color = Color::black();
        let ghost mut es: Seq<C3> = Seq::empty();
        let mut k: usize = 0;
        while k < samples.len()
            invariant
                trace_wf(*scene, bounces),
                1 <= n <= 0x40,
                samples@.len() == n as int * n as int,
                samples@.len() <= 0x1000,
                forall|q: int|
                    0 <= q < samples@.len() ==> crate::raytracer::sampler::sample_in_pixel(
                        #[trigger] samples@[q],
                        x as int,
                        y as int,
                    ),
                forall|q: int|
                    0 <= q < samples@.len() ==> (#[trigger] samples@[q]).0@ == x as int * FX_ONE
                        + crate::raytracer::sampler::uniform_off_s(q / (n as int), n as int)
                        && samples@[q].1@ == y as int * FX_ONE
                        + crate::raytracer::sampler::uniform_off_s(q % (n as int), n as int),
                (x as int) < viewport_s(scene.camera).0,
                (y as int) < viewport_s(scene.camera).1,
                k <= samples@.len(),
                es.len() == k,
                energy@ == sum_c3(es),
                forall|q: int|
                    0 <= q < k ==> trace_sample_ok(
                        *scene,
                        bounces as int,
                        samples@[q].0@,
                        samples@[q].1@,
                        #[trigger] es[q],
                    ),
                energy@.bounded(k * (FX_ONE + 0x400 * LIGHT_ENERGY_BOUND)),
            decreases samples@.len() - k,
        {
            let (sx, sy) = samples[k];
            proof {
                crate::raytracer::simple::lemma_sample_gives_ray(
                    scene.camera,
                    samples@[k as int],
                    x as int,
                    y as int,
                );
            }
            let ray: Ray = scene.camera().pixel_ray((sx, sy)).unwrap();
            let e: Color = reflection_ray(scene, &ray, bounces);
            proof {
                lemma_render_energy_step(
                    energy@,
                    e@,
                    k as int,
                    lights_of(scene.objects@).len() as int,
                );
                assert(es.push(e@).drop_last() =~= es);
                es = es.push(e@);
            }
            energy = rgb_add(&energy, &e);
            k = k + 1;
        }
        proof {
            lemma_render_energy_total(energy@, samples@.len() as int);
        }
        let ghost sum = energy@;
        energy = rgb_clamp_0_1(&rgb_div(&energy, n2));
        let shown: Color = correct_gamma(&energy);
        let p: Rgb8 = rgb_to_u8(&rgb_01_to_255(&shown));
        proof {
            assert(p == finalize_px_s(sum, n as int * n as int));
            assert(forall|q: int|
                0 <= q < es.len() ==> trace_sample_ok(
                    *scene,
                    bounces as int,
                    x as int * FX_ONE + crate::raytracer::sampler::uniform_off_s(
                        q / (n as int),
                        n as int,
                    ),
                    y as int * FX_ONE + crate::raytracer::sampler::uniform_off_s(
                        q % (n as int),
                        n as int,
                    ),
                    #[trigger] es[q],
                ));
            reveal(traced_pixel_ok);
            assert(traced_pixel_ok(*scene, n as int, bounces as int, x as int, y as int, p));
        }
        row.push(p);
        x = x + 1;
    }
    row
}

/// Renders the scene with uniform per-pixel sampling, glossy bounces, and
/// display-encoded output: every output pixel is the tone-mapped average
/// of bounced sample energies at its grid centers, rows flipped so the
/// image comes out upright.
pub fn render(scene: &Scene, n: u32, bounces: u32) -> (img: Image)
    requires
        trace_wf(*scene, bounces),
        1 <= n <= 0x40,
    ensures
        img.wf(),
        img.width as int == viewport_s(scene.camera).0,
        img.height as int == viewport_s(scene.camera).1,
        forall|x: int, yi: int|
            0 <= x < img.width && 0 <= yi < img.height ==> #[trigger] traced_pixel_ok(
                *scene,
                n as int,
                bounces as int,
                x,
                img.height - 1 - yi,
                img.pixels@[yi * img.width as int + x],
            ),
{
    let (width, height) = scene.camera().viewport();
    proof {
        crate::raytracer::simple::lemma_camera_viewport_small(scene.camera);
    }
    let mut img: Image = Image::new(width, height);
    let mut yi: u32 = 0;
    while yi < height
        invariant
            trace_wf(*scene, bounces),
            1 <= n <= 0x40,
            width as int == viewport_s(scene.camera).0,
            height as int == viewport_s(scene.camera).1,
            yi <= height,
            img.wf(),
            img.width == width,
            img.height == height,
            forall|xq: int, yq: int|
                0 <= xq < width && 0 <= yq < yi ==> #[trigger] traced_pixel_ok(
                    *scene,
                    n as int,
                    bounces as int,
                    xq,
                    height - 1 - yq,
                    img.pixels@[yq * width as int + xq],
                ),
        decreases height - yi,
    {
        let y: u32 = height - 1 - yi;
        let row: Vec<Rgb8> = render_row(scene, n, bounces, y, width);
        let mut x: u32 = 0;
        while x < width
            invariant
                trace_wf(*scene, bounces),
                1 <= n <= 0x40,
                width as int == viewport_s(scene.camera).0,
                height as int == viewport_s(scene.camera).1,
                row@.len() == width,
                forall|xq: int|
                    0 <= xq < width ==> #[trigger] traced_pixel_ok(
                        *scene,
                        n as int,
                        bounces as int,
                        xq,
                        y as int,
                        row@[xq],
                    ),
                y == height - 1 - yi,
                yi < height,
                x <= width,
                img.wf(),
                img.width == width,
                img.height == height,
                forall|xq: int, yq: int|
                    0 <= xq < width && 0 <= yq < yi ==> #[trigger] traced_pixel_ok(
                        *scene,
                        n as int,
                        bounces as int,
                        xq,
                        height - 1 - yq,
                        img.pixels@[yq * width as int + xq],
                    ),
                forall|xq: int|
                    0 <= xq < x ==> #[trigger] traced_pixel_ok(
                        *scene,
                        n as int,
                        bounces as int,
                        xq,
                        y as int,
                        img.pixels@[yi as int * width as int + xq],
                    ),
            decreases width - x,
        {
            let ghost before = img.pixels@;
            img.put_pixel(x, yi, row[x as usize]);
            proof {
                crate::raytracer::simple::lemma_write_keeps_others(
                    before,
                    img.pixels@,
                    width as int,
                    height as int,
                    x as int,
                    yi as int,
                    row@[x as int],
                );
                assert(traced_pixel_ok(
                    *scene,
                    n as int,
                    bounces as int,
                    x as int,
                    y as int,
                    img.pixels@[yi as int * width as int + x as int],
                ));
            }
            x = x + 1;
        }
        yi = yi + 1;
    }
    img
}

/// Accumulating one more driver sample keeps the running bound.
proof fn lemma_render_energy_step(acc: C3, e: C3, k: int, nl: int)
    requires
        acc.bounded(k * (FX_ONE + 0x400 * LIGHT_ENERGY_BOUND)),
        e.bounded(FX_ONE + nl * LIGHT_ENERGY_BOUND),
        0 <= k <= 0x1000,
        0 <= nl <= 0x400,
    ensures
        crate::util::rgb_add_s(acc, e).bounded((k + 1) * (FX_ONE + 0x400 * LIGHT_ENERGY_BOUND)),
        acc.bounded(0x2000_0000_0000),
        e.bounded(0x2000_0000_0000),
{
    assert(nl * LIGHT_ENERGY_BOUND <= 0x400 * LIGHT_ENERGY_BOUND) by (nonlinear_arith)
        requires 0 <= nl <= 0x400;
    assert((k + 1) * (FX_ONE + 0x400 * LIGHT_ENERGY_BOUND) == k * (FX_ONE + 0x400
        * LIGHT_ENERGY_BOUND) + (FX_ONE + 0x400 * LIGHT_ENERGY_BOUND)) by (nonlinear_arith);
    assert(k * (FX_ONE + 0x400 * LIGHT_ENERGY_BOUND) <= 0x1000 * (FX_ONE + 0x400
        * LIGHT_ENERGY_BOUND)) by (nonlinear_arith)
        requires 0 <= k <= 0x1000;
}

/// A full driver sample sum stays within the division bound.
proof fn lemma_render_energy_total(c: C3, k: int)
    requires
        c.bounded(k * (FX_ONE + 0x400 * LIGHT_ENERGY_BOUND)),
        0 <= k <= 0x1000,
    ensures
        c.bounded(crate::fixed::FX_DIV_BOUND as int),
{
    assert(k * (FX_ONE + 0x400 * LIGHT_ENERGY_BOUND) <= 0x1000 * (FX_ONE + 0x400
        * LIGHT_ENERGY_BOUND)) by (nonlinear_arith)
        requires 0 <= k <= 0x1000;
}

} // verus!
