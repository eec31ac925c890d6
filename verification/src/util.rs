//! Linear RGB colors over fixed-point channels, the channel arithmetic the
//! shading model uses, and small general helpers.

use vstd::prelude::*;
use crate::fixed::{Fx, FX_ONE, FX_MUL_BOUND, FX_DIV_BOUND, abs_i, mul_fx, div_fx, clamp_i};

verus! {

/// The mathematical value of a color: its three raw channels.
pub ghost struct C3 {
    pub r: int,
    pub g: int,
    pub b: int,
}

impl C3 {
    pub open spec fn bounded(self, b: int) -> bool {
        abs_i(self.r) <= b && abs_i(self.g) <= b && abs_i(self.b) <= b
    }

    /// Every channel within `[0, 1]`.
    pub open spec fn in_unit(self) -> bool {
        0 <= self.r <= FX_ONE && 0 <= self.g <= FX_ONE && 0 <= self.b <= FX_ONE
    }
}

pub open spec fn rgb_add_s(a: C3, b: C3) -> C3 {
    C3 { r: a.r + b.r, g: a.g + b.g, b: a.b + b.b }
}

pub open spec fn rgb_div_s(a: C3, f: int) -> C3 {
    C3 { r: div_fx(a.r, f), g: div_fx(a.g, f), b: div_fx(a.b, f) }
}

pub open spec fn rgb_mul_s(a: C3, f: int) -> C3 {
    C3 { r: mul_fx(a.r, f), g: mul_fx(a.g, f), b: mul_fx(a.b, f) }
}

pub open spec fn rgb_mul2_s(a: C3, b: C3) -> C3 {
    C3 { r: mul_fx(a.r, b.r), g: mul_fx(a.g, b.g), b: mul_fx(a.b, b.b) }
}

pub open spec fn rgb_clamp01_s(a: C3) -> C3 {
    C3 {
        r: clamp_i(a.r, 0, FX_ONE as int),
        g: clamp_i(a.g, 0, FX_ONE as int),
        b: clamp_i(a.b, 0, FX_ONE as int),
    }
}

/// A linear RGB color with fixed-point channels.
#[derive(Clone, Copy, Debug, PartialEq, Eq, Structural)]
pub struct Color {
    pub r: Fx,
    pub g: Fx,
    pub b: Fx,
}

impl View for Color {
    type V = C3;

    open spec fn view(&self) -> C3 {
        C3 { r: self.r@, g: self.g@, b: self.b@ }
    }
}

impl Color {
    pub fn new(r: Fx, g: Fx, b: Fx) -> (c: Color)
        ensures
            c@ == (C3 { r: r@, g: g@, b: b@ }),
    {
        Color { r, g, b }
    }

    pub fn black() -> (c: Color)
        ensures
            c@ == (C3 { r: 0, g: 0, b: 0 }),
    {
        Color { r: Fx::zero(), g: Fx::zero(), b: Fx::zero() }
    }
}

/// An 8-bit RGB pixel, the raster output format.
#[derive(Clone, Copy, Debug, PartialEq, Eq, Structural)]
pub struct Rgb8 {
    pub r: u8,
    pub g: u8,
    pub b: u8,
}

/// Channelwise sum.
pub fn rgb_add(a: &Color, b: &Color) -> (c: Color)
    requires
        i64::MIN <= a@.r + b@.r <= i64::MAX,
        i64::MIN <= a@.g + b@.g <= i64::MAX,
        i64::MIN <= a@.b + b@.b <= i64::MAX,
    ensures
        c@ == rgb_add_s(a@, b@),
{
    Color { r: a.r.add(b.r), g: a.g.add(b.g), b: a.b.add(b.b) }
}

/// Channelwise quotient by a scalar.
pub fn rgb_div(a: &Color, f: Fx) -> (c: Color)
    requires
        f@ != 0,
        a@.bounded(FX_DIV_BOUND as int),
    ensures
        c@ == rgb_div_s(a@, f@),
{
    Color { r: a.r.div(f), g: a.g.div(f), b: a.b.div(f) }
}

/// Channelwise product with a scalar.
pub fn rgb_mul(a: &Color, f: Fx) -> (c: Color)
    requires
        a@.bounded(FX_MUL_BOUND as int),
        abs_i(f@) <= FX_MUL_BOUND,
    ensures
        c@ == rgb_mul_s(a@, f@),
        a@.bounded(FX_ONE as int) && abs_i(f@) <= FX_ONE ==> c@.bounded(FX_ONE as int),
        a@.bounded(2 * FX_ONE) && abs_i(f@) <= 2 * FX_ONE ==> c@.bounded(4 * FX_ONE),
{
    Color { r: a.r.mul(f), g: a.g.mul(f), b: a.b.mul(f) }
}

/// Channelwise product of two colors.
pub fn rgb_mul2(a: &Color, b: &Color) -> (c: Color)
    requires
        a@.bounded(FX_MUL_BOUND as int),
        b@.bounded(FX_MUL_BOUND as int),
    ensures
        c@ == rgb_mul2_s(a@, b@),
        a@.bounded(FX_ONE as int) && b@.bounded(FX_ONE as int) ==> c@.bounded(FX_ONE as int),
        a@.bounded(2 * FX_ONE) && b@.bounded(2 * FX_ONE) ==> c@.bounded(4 * FX_ONE),
{
    Color { r: a.r.mul(b.r), g: a.g.mul(b.g), b: a.b.mul(b.b) }
}

/// Channels forced into `[0, 1]`.
pub fn rgb_clamp_0_1(a: &Color) -> (c: Color)
    ensures
        c@ == rgb_clamp01_s(a@),
        c@.in_unit(),
{
    let zero: Fx = Fx::zero();
    let one: Fx = Fx::one();
    Color { r: a.r.clamp(zero, one), g: a.g.clamp(zero, one), b: a.b.clamp(zero, one) }
}

/// Channels scaled from `[0, 1]` up to `[0, 255]`.
pub fn rgb_01_to_255(a: &Color) -> (c: Color)
    requires
        a@.bounded(0x1_0000_0000),
    ensures
        c@ == rgb_mul_s(a@, 255 * FX_ONE),
{
    let f: Fx = Fx::of(255);
    Color { r: a.r.mul(f), g: a.g.mul(f), b: a.b.mul(f) }
}

/// A channel truncated to a whole number of display levels, then clamped
/// to a byte.
pub open spec fn channel_to_u8_s(c: int) -> int {
    clamp_i(crate::fixed::div_t(c, FX_ONE as int), 0, 255)
}

/// Channels truncated to bytes (values outside `[0, 255]` saturate).
pub fn rgb_to_u8(a: &Color) -> (c: Rgb8)
    ensures
        c.r as int == channel_to_u8_s(a@.r),
        c.g as int == channel_to_u8_s(a@.g),
        c.b as int == channel_to_u8_s(a@.b),
{
    Rgb8 { r: channel_to_u8(a.r), g: channel_to_u8(a.g), b: channel_to_u8(a.b) }
}

fn channel_to_u8(c: Fx) -> (r: u8)
    ensures
        r as int == channel_to_u8_s(c@),
{
    proof {
        crate::fixed::lemma_div_t_abs(c@, FX_ONE as int);
    }
    if c.raw < 0 {
        0
    } else {
        let units: u64 = (c.raw as u64) / 65536;
        if units > 255 {
            255
        } else {
            units as u8
        }
    }
}

/// Keeps the present values, in order.
pub open spec fn somes_s<T>(s: Seq<Option<T>>) -> Seq<T>
    decreases s.len(),
{
    if s.len() == 0 {
        Seq::empty()
    } else {
        let rest = somes_s(s.drop_last());
        match s.last() {
            Some(x) => rest.push(x),
            None => rest,
        }
    }
}

/// Appending one entry extends the filtered sequence by at most it.
pub proof fn lemma_somes_snoc<T>(s: Seq<Option<T>>, o: Option<T>)
    ensures
        o is Some ==> somes_s(s.push(o)) =~= somes_s(s).push(o->0),
        o is None ==> somes_s(s.push(o)) =~= somes_s(s),
{
    assert(s.push(o).drop_last() =~= s);
    assert(s.push(o).last() == o);
}

/// Drops the absent entries of a vector of optional values, keeping order.
pub fn filter_nones<T>(v: Vec<Option<T>>) -> (r: Vec<T>)
    ensures
        r@ == somes_s(v@),
{
    let ghost orig: Seq<Option<T>> = v@;
    let ghost mut done: Seq<Option<T>> = Seq::empty();
    let mut v = v;
    let mut r: Vec<T> = Vec::new();
    proof {
        assert(orig =~= done + v@);
    }
    while v.len() > 0
        invariant
            orig =~= done + v@,
            r@ =~= somes_s(done),
        decreases v@.len(),
    {
        let ghost pre: Seq<Option<T>> = v@;
        let x: Option<T> = v.remove(0);
        proof {
            lemma_somes_snoc(done, x);
            assert(v@ =~= pre.drop_first());
            done = done.push(x);
            assert(orig =~= done + v@);
        }
        match x {
            Some(y) => r.push(y),
            None => (),
        }
    }
    proof {
        assert(done =~= orig);
    }
    r
}

/// Relies on rand::random: an arbitrary sampled value of the type; nothing
/// is promised about which one comes back.
pub assume_specification<T>[ rand::random::<T> ]() -> (r: T)
    where
        rand::distributions::Standard: rand::distributions::Distribution<T>,
;

/// A sampled value below `bound`; which one is left open.
pub fn random_below(bound: u64) -> (r: u64)
    requires
        bound >= 1,
    ensures
        r < bound,
{
    let x: u64 = rand::random::<u64>();
    x % bound
}

/// A direction drawn from a cone about `direction`: the direction rotated
/// about two frame axes by angles drawn from `[-angle, angle]`, then
/// normalized.
#[verifier::rlimit(100)]
pub fn random_in_cone(direction: crate::vector::Vec3, angle: Fx) -> (r: crate::vector::Vec3)
    requires
        direction@.bounded(0x1_0000_0000),
        0 <= angle@ <= 0x3_0000,
    ensures
        exists|theta: int, phi: int|
            abs_i(theta) <= angle@ && abs_i(phi) <= angle@ && r@
                == crate::vector::normalize_s(
                crate::transform::apply_s(
                    crate::transform::rotation_s(
                        crate::algebra::onb::onb_from_w_s(direction@).0,
                        theta,
                    ),
                    crate::transform::apply_s(
                        crate::transform::rotation_s(
                            crate::algebra::onb::onb_from_w_s(direction@).1,
                            phi,
                        ),
                        direction@,
                    ),
                ),
            ),
        r@.bounded(FX_ONE as int),
{
    let base = crate::algebra::OrthoNormalBase::from_w(direction);
    let theta: Fx = random_angle(angle);
    let phi: Fx = random_angle(angle);
    let rot_u = crate::transform::Mat3::rotation(base.u(), theta);
    let rot_v = crate::transform::Mat3::rotation(base.v(), phi);
    let turned = rot_v.apply(direction);
    proof {
        crate::transform::lemma_apply_bound(
            rot_v@,
            direction@,
            FX_ONE as int,
            0x1_0000_0000,
            0x1_0000_0000,
        );
    }
    let turned2 = rot_u.apply(turned);
    proof {
        assert(65536 * 0x3_0000_0000 <= 0x3_0000_0000 * 65536) by (nonlinear_arith);
        crate::transform::lemma_apply_bound(
            rot_u@,
            turned@,
            FX_ONE as int,
            0x3_0000_0000,
            0x3_0000_0000,
        );
    }
    let r = turned2.normalize();
    proof {
        let bw = crate::algebra::onb::onb_from_w_s(direction@);
        assert(base.u@ == bw.0 && base.v@ == bw.1);
        assert(abs_i(theta@) <= angle@ && abs_i(phi@) <= angle@ && r@
            == crate::vector::normalize_s(
            crate::transform::apply_s(
                crate::transform::rotation_s(bw.0, theta@),
                crate::transform::apply_s(
                    crate::transform::rotation_s(bw.1, phi@),
                    direction@,
                ),
            ),
        ));
    }
    r
}

/// An angle drawn from `[-bound, bound]`.
fn random_angle(bound: Fx) -> (r: Fx)
    requires
        0 <= bound@ <= 0x3_0000,
    ensures
        abs_i(r@) <= bound@,
{
    let span: u64 = 2 * (bound.raw as u64) + 1;
    let off: u64 = random_below(span);
    Fx { raw: off as i64 - bound.raw }
}

} // verus!
