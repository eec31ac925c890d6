//! Rigid placements: 3x3 matrices (stored by columns) and transforms made of
//! a rotation part and a translation. The local frame of a placed shape is
//! read back with the transpose of the rotation part, which inverts it for
//! the (orthonormal) rotations the constructors produce.

use vstd::prelude::*;
use crate::fixed::{Fx, FX_ONE, abs_i, mul_fx, clamp_i, lemma_div_t_abs};
use crate::vector::{Vec3, V3, add_s, sub_s, scale_s, dot_s, normalize_s, norm_s, sq_sum_s, DOT_PROD_BOUND, NORM_BOUND};
use crate::trig::{sin_fx, cos_fx, sin_s, cos_s, ANGLE_BOUND};

verus! {

/// Magnitude bound on rotation entries of a well-formed transform: the
/// constructors produce entries within one unit, and one composition of two
/// such rotations stays within three.
pub const MAT_BOUND: i64 = 0x40000;

/// Magnitude bound on vectors fed through `Mat3::apply` / `Mat3::tapply`.
pub const APPLY_IN_BOUND: i64 = 0x2000_0000_0000;

/// Magnitude bound on each term of an application at those limits; results
/// stay within three times this.
pub const APPLY_TERM_BOUND: i64 = 0x8000_0000_0000;

/// The mathematical value of a matrix: its three columns.
pub ghost struct M3 {
    pub c0: V3,
    pub c1: V3,
    pub c2: V3,
}

impl M3 {
    pub open spec fn bounded(self, b: int) -> bool {
        self.c0.bounded(b) && self.c1.bounded(b) && self.c2.bounded(b)
    }
}

/// Matrix applied to a vector: the columns weighted by the components.
pub open spec fn apply_s(m: M3, v: V3) -> V3 {
    add_s(add_s(scale_s(m.c0, v.x), scale_s(m.c1, v.y)), scale_s(m.c2, v.z))
}

/// Transposed matrix applied to a vector: dot with each column. For a
/// rotation this inverts `apply_s`.
pub open spec fn tapply_s(m: M3, v: V3) -> V3 {
    V3 { x: dot_s(m.c0, v), y: dot_s(m.c1, v), z: dot_s(m.c2, v) }
}

/// Matrix product, column by column.
pub open spec fn matmul_s(a: M3, b: M3) -> M3 {
    M3 { c0: apply_s(a, b.c0), c1: apply_s(a, b.c1), c2: apply_s(a, b.c2) }
}

/// A 3x3 matrix stored as its three columns.
#[derive(Clone, Copy, Debug, PartialEq, Eq, Structural)]
pub struct Mat3 {
    pub c0: Vec3,
    pub c1: Vec3,
    pub c2: Vec3,
}

impl View for Mat3 {
    type V = M3;

    open spec fn view(&self) -> M3 {
        M3 { c0: self.c0@, c1: self.c1@, c2: self.c2@ }
    }
}

/// A rescaled product of bounded factors stays under `target` whenever the
/// factor bounds' product stays under `target` rescaled.
pub proof fn lemma_mul_fx_bound(a: int, b: int, ba: int, bb: int, target: int)
    requires
        abs_i(a) <= ba,
        abs_i(b) <= bb,
        0 <= ba,
        0 <= bb,
        ba * bb <= target * (FX_ONE as int),
    ensures
        abs_i(mul_fx(a, b)) <= target,
{
    lemma_div_t_abs(a * b, FX_ONE as int);
    assert(abs_i(a * b) == abs_i(a) * abs_i(b)) by (nonlinear_arith);
    assert(abs_i(a) * abs_i(b) <= ba * bb) by (nonlinear_arith)
        requires
            0 <= abs_i(a) <= ba,
            0 <= abs_i(b) <= bb;
    vstd::arithmetic::div_mod::lemma_div_is_ordered(
        abs_i(a) * abs_i(b),
        target * (FX_ONE as int),
        FX_ONE as int,
    );
    vstd::arithmetic::div_mod::lemma_div_multiples_vanish(target, FX_ONE as int);
}

/// Componentwise bound for a matrix-vector application.
pub proof fn lemma_apply_bound(m: M3, v: V3, mb: int, vb: int, target: int)
    requires
        m.bounded(mb),
        v.bounded(vb),
        0 <= mb,
        0 <= vb,
        mb * vb <= target * (FX_ONE as int),
    ensures
        apply_s(m, v).bounded(3 * target),
{
    lemma_mul_fx_bound(m.c0.x, v.x, mb, vb, target);
    lemma_mul_fx_bound(m.c0.y, v.x, mb, vb, target);
    lemma_mul_fx_bound(m.c0.z, v.x, mb, vb, target);
    lemma_mul_fx_bound(m.c1.x, v.y, mb, vb, target);
    lemma_mul_fx_bound(m.c1.y, v.y, mb, vb, target);
    lemma_mul_fx_bound(m.c1.z, v.y, mb, vb, target);
    lemma_mul_fx_bound(m.c2.x, v.z, mb, vb, target);
    lemma_mul_fx_bound(m.c2.y, v.z, mb, vb, target);
    lemma_mul_fx_bound(m.c2.z, v.z, mb, vb, target);
}

/// Componentwise bound for a transposed application.
pub proof fn lemma_tapply_bound(m: M3, v: V3, mb: int, vb: int, target: int)
    requires
        m.bounded(mb),
        v.bounded(vb),
        0 <= mb,
        0 <= vb,
        mb * vb <= target * (FX_ONE as int),
    ensures
        tapply_s(m, v).bounded(3 * target),
{
    lemma_mul_fx_bound(m.c0.x, v.x, mb, vb, target);
    lemma_mul_fx_bound(m.c0.y, v.y, mb, vb, target);
    lemma_mul_fx_bound(m.c0.z, v.z, mb, vb, target);
    lemma_mul_fx_bound(m.c1.x, v.x, mb, vb, target);
    lemma_mul_fx_bound(m.c1.y, v.y, mb, vb, target);
    lemma_mul_fx_bound(m.c1.z, v.z, mb, vb, target);
    lemma_mul_fx_bound(m.c2.x, v.x, mb, vb, target);
    lemma_mul_fx_bound(m.c2.y, v.y, mb, vb, target);
    lemma_mul_fx_bound(m.c2.z, v.z, mb, vb, target);
}

/// Magnitude bound for a rescaled quotient: the numerator bound times the
/// scale, against the target times the denominator bound.
pub proof fn lemma_div_fx_bound(a: int, b: int, ba: int, bb: int, target: int)
    requires
        abs_i(a) <= ba,
        abs_i(b) >= bb,
        bb >= 1,
        0 <= ba,
        0 <= target,
        ba * (FX_ONE as int) <= target * bb,
    ensures
        abs_i(crate::fixed::div_fx(a, b)) <= target,
{
    lemma_div_t_abs(a * (FX_ONE as int), b);
    assert(abs_i(a * (FX_ONE as int)) == abs_i(a) * (FX_ONE as int)) by (nonlinear_arith);
    assert(abs_i(a) * (FX_ONE as int) <= target * bb) by (nonlinear_arith)
        requires
            0 <= abs_i(a) <= ba,
            ba * (FX_ONE as int) <= target * bb;
    vstd::arithmetic::div_mod::lemma_div_is_ordered(
        abs_i(a) * (FX_ONE as int),
        target * bb,
        abs_i(b),
    );
    vstd::arithmetic::div_mod::lemma_div_is_ordered_by_denominator(target * bb, bb, abs_i(b));
    assert(target * bb / bb == target) by {
        vstd::arithmetic::div_mod::lemma_div_multiples_vanish(target, bb);
    }
}

/// Magnitude bound for a dot product of componentwise-bounded vectors.
pub proof fn lemma_dot_bound(a: V3, b: V3, ba: int, bb: int, target: int)
    requires
        a.bounded(ba),
        b.bounded(bb),
        0 <= ba,
        0 <= bb,
        ba * bb <= target * (FX_ONE as int),
    ensures
        abs_i(dot_s(a, b)) <= 3 * target,
{
    lemma_mul_fx_bound(a.x, b.x, ba, bb, target);
    lemma_mul_fx_bound(a.y, b.y, ba, bb, target);
    lemma_mul_fx_bound(a.z, b.z, ba, bb, target);
}

/// Pairwise raw products of two componentwise-bounded values stay under
/// the wide-product bound, provided the bounds' product does.
pub proof fn lemma_prod_in_bound(a: int, b: int, ba: int, bb: int)
    requires
        abs_i(a) <= ba,
        abs_i(b) <= bb,
        0 <= ba,
        0 <= bb,
        ba * bb <= DOT_PROD_BOUND,
    ensures
        abs_i(a) * abs_i(b) <= DOT_PROD_BOUND,
{
    assert(abs_i(a) * abs_i(b) <= ba * bb) by (nonlinear_arith)
        requires
            0 <= abs_i(a) <= ba,
            0 <= abs_i(b) <= bb;
}

impl Mat3 {
    pub fn identity() -> (r: Mat3)
        ensures
            r@ == (M3 {
                c0: V3 { x: FX_ONE as int, y: 0, z: 0 },
                c1: V3 { x: 0, y: FX_ONE as int, z: 0 },
                c2: V3 { x: 0, y: 0, z: FX_ONE as int },
            }),
            r@.bounded(FX_ONE as int),
    {
        Mat3 { c0: Vec3::of(1, 0, 0), c1: Vec3::of(0, 1, 0), c2: Vec3::of(0, 0, 1) }
    }

    /// The matrix applied to a vector.
    pub fn apply(self, v: Vec3) -> (r: Vec3)
        requires
            self@.bounded(MAT_BOUND as int),
            v@.bounded(APPLY_IN_BOUND as int),
        ensures
            r@ == apply_s(self@, v@),
            r@.bounded(3 * APPLY_TERM_BOUND),
    {
        proof {
            assert(0x40000 * 0x2000_0000_0000 <= 0x8000_0000_0000 * 65536) by (nonlinear_arith);
            lemma_apply_bound(
                self@,
                v@,
                MAT_BOUND as int,
                APPLY_IN_BOUND as int,
                APPLY_TERM_BOUND as int,
            );
            lemma_prods_mat_vec(self@, v@);
        }
        let t0: Vec3 = self.c0.scale(v.x);
        let t1: Vec3 = self.c1.scale(v.y);
        let t2: Vec3 = self.c2.scale(v.z);
        proof {
            lemma_term_bounds(self@, v@);
        }
        t0.add(t1).add(t2)
    }

    /// The transposed matrix applied to a vector.
    pub fn tapply(self, v: Vec3) -> (r: Vec3)
        requires
            self@.bounded(MAT_BOUND as int),
            v@.bounded(APPLY_IN_BOUND as int),
        ensures
            r@ == tapply_s(self@, v@),
            r@.bounded(3 * APPLY_TERM_BOUND),
    {
        proof {
            assert(0x40000 * 0x2000_0000_0000 <= 0x8000_0000_0000 * 65536) by (nonlinear_arith);
            lemma_tapply_bound(
                self@,
                v@,
                MAT_BOUND as int,
                APPLY_IN_BOUND as int,
                APPLY_TERM_BOUND as int,
            );
            lemma_prods_mat_vec(self@, v@);
        }
        Vec3 { x: self.c0.dot(v), y: self.c1.dot(v), z: self.c2.dot(v) }
    }

    /// Matrix product; both factors must be rotation-sized.
    pub fn matmul(self, o: Mat3) -> (r: Mat3)
        requires
            self@.bounded(FX_ONE as int),
            o@.bounded(FX_ONE as int),
        ensures
            r@ == matmul_s(self@, o@),
            r@.bounded(3 * FX_ONE),
    {
        proof {
            lemma_matmul_pre(self@, o@);
        }
        Mat3 { c0: self.apply(o.c0), c1: self.apply(o.c1), c2: self.apply(o.c2) }
    }
}

proof fn lemma_matmul_pre(a: M3, b: M3)
    requires
        a.bounded(FX_ONE as int),
        b.bounded(FX_ONE as int),
    ensures
        a.bounded(MAT_BOUND as int),
        b.c0.bounded(APPLY_IN_BOUND as int),
        b.c1.bounded(APPLY_IN_BOUND as int),
        b.c2.bounded(APPLY_IN_BOUND as int),
        apply_s(a, b.c0).bounded(3 * FX_ONE),
        apply_s(a, b.c1).bounded(3 * FX_ONE),
        apply_s(a, b.c2).bounded(3 * FX_ONE),
{
    lemma_apply_bound(a, b.c0, FX_ONE as int, FX_ONE as int, FX_ONE as int);
    lemma_apply_bound(a, b.c1, FX_ONE as int, FX_ONE as int, FX_ONE as int);
    lemma_apply_bound(a, b.c2, FX_ONE as int, FX_ONE as int, FX_ONE as int);
}

proof fn lemma_prods_mat_vec(m: M3, v: V3)
    requires
        m.bounded(MAT_BOUND as int),
        v.bounded(APPLY_IN_BOUND as int),
    ensures
        abs_i(m.c0.x) * abs_i(v.x) <= DOT_PROD_BOUND,
        abs_i(m.c0.y) * abs_i(v.x) <= DOT_PROD_BOUND,
        abs_i(m.c0.z) * abs_i(v.x) <= DOT_PROD_BOUND,
        abs_i(m.c1.x) * abs_i(v.y) <= DOT_PROD_BOUND,
        abs_i(m.c1.y) * abs_i(v.y) <= DOT_PROD_BOUND,
        abs_i(m.c1.z) * abs_i(v.y) <= DOT_PROD_BOUND,
        abs_i(m.c2.x) * abs_i(v.z) <= DOT_PROD_BOUND,
        abs_i(m.c2.y) * abs_i(v.z) <= DOT_PROD_BOUND,
        abs_i(m.c2.z) * abs_i(v.z) <= DOT_PROD_BOUND,
        abs_i(m.c0.x) * abs_i(v.x) <= DOT_PROD_BOUND && abs_i(m.c0.y) * abs_i(v.y)
            <= DOT_PROD_BOUND && abs_i(m.c0.z) * abs_i(v.z) <= DOT_PROD_BOUND,
        abs_i(m.c1.x) * abs_i(v.x) <= DOT_PROD_BOUND && abs_i(m.c1.y) * abs_i(v.y)
            <= DOT_PROD_BOUND && abs_i(m.c1.z) * abs_i(v.z) <= DOT_PROD_BOUND,
        abs_i(m.c2.x) * abs_i(v.x) <= DOT_PROD_BOUND && abs_i(m.c2.y) * abs_i(v.y)
            <= DOT_PROD_BOUND && abs_i(m.c2.z) * abs_i(v.z) <= DOT_PROD_BOUND,
{
    assert(0x40000 * 0x2000_0000_0000 <= 0x1000_0000_0000_0000_0000) by (nonlinear_arith);
    lemma_prod_in_bound(m.c0.x, v.x, MAT_BOUND as int, APPLY_IN_BOUND as int);
    lemma_prod_in_bound(m.c0.y, v.x, MAT_BOUND as int, APPLY_IN_BOUND as int);
    lemma_prod_in_bound(m.c0.z, v.x, MAT_BOUND as int, APPLY_IN_BOUND as int);
    lemma_prod_in_bound(m.c0.y, v.y, MAT_BOUND as int, APPLY_IN_BOUND as int);
    lemma_prod_in_bound(m.c0.z, v.z, MAT_BOUND as int, APPLY_IN_BOUND as int);
    lemma_prod_in_bound(m.c1.x, v.x, MAT_BOUND as int, APPLY_IN_BOUND as int);
    lemma_prod_in_bound(m.c1.x, v.y, MAT_BOUND as int, APPLY_IN_BOUND as int);
    lemma_prod_in_bound(m.c1.y, v.y, MAT_BOUND as int, APPLY_IN_BOUND as int);
    lemma_prod_in_bound(m.c1.z, v.y, MAT_BOUND as int, APPLY_IN_BOUND as int);
    lemma_prod_in_bound(m.c1.z, v.z, MAT_BOUND as int, APPLY_IN_BOUND as int);
    lemma_prod_in_bound(m.c2.x, v.x, MAT_BOUND as int, APPLY_IN_BOUND as int);
    lemma_prod_in_bound(m.c2.y, v.y, MAT_BOUND as int, APPLY_IN_BOUND as int);
    lemma_prod_in_bound(m.c2.x, v.z, MAT_BOUND as int, APPLY_IN_BOUND as int);
    lemma_prod_in_bound(m.c2.y, v.z, MAT_BOUND as int, APPLY_IN_BOUND as int);
    lemma_prod_in_bound(m.c2.z, v.z, MAT_BOUND as int, APPLY_IN_BOUND as int);
}

proof fn lemma_term_bounds(m: M3, v: V3)
    requires
        m.bounded(MAT_BOUND as int),
        v.bounded(APPLY_IN_BOUND as int),
    ensures
        scale_s(m.c0, v.x).bounded(APPLY_TERM_BOUND as int),
        scale_s(m.c1, v.y).bounded(APPLY_TERM_BOUND as int),
        scale_s(m.c2, v.z).bounded(APPLY_TERM_BOUND as int),
{
    assert(0x40000 * 0x2000_0000_0000 <= 0x8000_0000_0000 * 65536) by (nonlinear_arith);
    lemma_mul_fx_bound(m.c0.x, v.x, MAT_BOUND as int, APPLY_IN_BOUND as int, APPLY_TERM_BOUND as int);
    lemma_mul_fx_bound(m.c0.y, v.x, MAT_BOUND as int, APPLY_IN_BOUND as int, APPLY_TERM_BOUND as int);
    lemma_mul_fx_bound(m.c0.z, v.x, MAT_BOUND as int, APPLY_IN_BOUND as int, APPLY_TERM_BOUND as int);
    lemma_mul_fx_bound(m.c1.x, v.y, MAT_BOUND as int, APPLY_IN_BOUND as int, APPLY_TERM_BOUND as int);
    lemma_mul_fx_bound(m.c1.y, v.y, MAT_BOUND as int, APPLY_IN_BOUND as int, APPLY_TERM_BOUND as int);
    lemma_mul_fx_bound(m.c1.z, v.y, MAT_BOUND as int, APPLY_IN_BOUND as int, APPLY_TERM_BOUND as int);
    lemma_mul_fx_bound(m.c2.x, v.z, MAT_BOUND as int, APPLY_IN_BOUND as int, APPLY_TERM_BOUND as int);
    lemma_mul_fx_bound(m.c2.y, v.z, MAT_BOUND as int, APPLY_IN_BOUND as int, APPLY_TERM_BOUND as int);
    lemma_mul_fx_bound(m.c2.z, v.z, MAT_BOUND as int, APPLY_IN_BOUND as int, APPLY_TERM_BOUND as int);
}


/// Magnitude bound on the translation of a well-formed transform.
pub const TRANS_POS_BOUND: i64 = 0x100_0000_0000;

/// Magnitude bound on translations handed to the constructors; one
/// composition of two such transforms stays well-formed.
pub const USER_POS_BOUND: i64 = 0x10_0000_0000;

/// The mathematical value of a transform.
pub ghost struct TR {
    pub rot: M3,
    pub pos: V3,
}

impl TR {
    /// Magnitudes under which all geometric arithmetic on the transform
    /// stays exact.
    pub open spec fn wf(self) -> bool {
        self.rot.bounded(MAT_BOUND as int) && self.pos.bounded(TRANS_POS_BOUND as int)
    }
}

/// The transform applied to a point: rotate, then translate.
pub open spec fn apply_pt_s(t: TR, p: V3) -> V3 {
    add_s(apply_s(t.rot, p), t.pos)
}

/// The transform applied to a direction: rotate only.
pub open spec fn apply_vec_s(t: TR, v: V3) -> V3 {
    apply_s(t.rot, v)
}

/// A world point read back in the transform's local frame, inverting the
/// rotation by its transpose.
pub open spec fn to_local_s(t: TR, p: V3) -> V3 {
    tapply_s(t.rot, sub_s(p, t.pos))
}

/// Composition: `compose_s(a, b)` applies `b` first, then `a`.
pub open spec fn compose_s(a: TR, b: TR) -> TR {
    TR { rot: matmul_s(a.rot, b.rot), pos: add_s(apply_s(a.rot, b.pos), a.pos) }
}

/// A rotation matrix from an axis and an angle (axis-angle form): the axis
/// is normalized, the entries come from the axis products with the sine and
/// cosine of the angle, and each entry is clamped to one unit.
#[verifier::opaque]
pub open spec fn rotation_s(axis: V3, angle: int) -> M3 {
    let u = normalize_s(axis);
    let s = sin_s(angle);
    let c = cos_s(angle);
    let oc = (FX_ONE as int) - c;
    let one = FX_ONE as int;
    M3 {
        c0: V3 {
            x: clamp_i(c + mul_fx(mul_fx(u.x, u.x), oc), -one, one),
            y: clamp_i(mul_fx(mul_fx(u.x, u.y), oc) + mul_fx(u.z, s), -one, one),
            z: clamp_i(mul_fx(mul_fx(u.x, u.z), oc) - mul_fx(u.y, s), -one, one),
        },
        c1: V3 {
            x: clamp_i(mul_fx(mul_fx(u.x, u.y), oc) - mul_fx(u.z, s), -one, one),
            y: clamp_i(c + mul_fx(mul_fx(u.y, u.y), oc), -one, one),
            z: clamp_i(mul_fx(mul_fx(u.y, u.z), oc) + mul_fx(u.x, s), -one, one),
        },
        c2: V3 {
            x: clamp_i(mul_fx(mul_fx(u.x, u.z), oc) + mul_fx(u.y, s), -one, one),
            y: clamp_i(mul_fx(mul_fx(u.y, u.z), oc) - mul_fx(u.x, s), -one, one),
            z: clamp_i(c + mul_fx(mul_fx(u.z, u.z), oc), -one, one),
        },
    }
}

/// A rigid placement: rotation and translation.
#[derive(Clone, Copy, Debug, PartialEq, Eq, Structural)]
pub struct Transform {
    pub rot: Mat3,
    pub pos: Vec3,
}

impl View for Transform {
    type V = TR;

    open spec fn view(&self) -> TR {
        TR { rot: self.rot@, pos: self.pos@ }
    }
}

impl Mat3 {
    /// The rotation matrix about `axis` by `angle` (radians, fixed-point).
    pub fn rotation(axis: Vec3, angle: Fx) -> (r: Mat3)
        requires
            axis@.bounded(NORM_BOUND as int),
            abs_i(angle@) <= ANGLE_BOUND,
        ensures
            r@ == rotation_s(axis@, angle@),
            r@.bounded(FX_ONE as int),
    {
        proof {
            reveal(rotation_s);
        }
        let u: Vec3 = axis.normalize();
        let s: Fx = sin_fx(angle);
        let c: Fx = cos_fx(angle);
        let oc: Fx = Fx::one().sub(c);
        let one: Fx = Fx::one();
        let neg_one: Fx = one.neg();
        let xx: Fx = u.x.mul(u.x);
        let xy: Fx = u.x.mul(u.y);
        let xz: Fx = u.x.mul(u.z);
        let yy: Fx = u.y.mul(u.y);
        let yz: Fx = u.y.mul(u.z);
        let zz: Fx = u.z.mul(u.z);
        Mat3 {
            c0: Vec3 {
                x: c.add(xx.mul(oc)).clamp(neg_one, one),
                y: xy.mul(oc).add(u.z.mul(s)).clamp(neg_one, one),
                z: xz.mul(oc).sub(u.y.mul(s)).clamp(neg_one, one),
            },
            c1: Vec3 {
                x: xy.mul(oc).sub(u.z.mul(s)).clamp(neg_one, one),
                y: c.add(yy.mul(oc)).clamp(neg_one, one),
                z: yz.mul(oc).add(u.x.mul(s)).clamp(neg_one, one),
            },
            c2: Vec3 {
                x: xz.mul(oc).add(u.y.mul(s)).clamp(neg_one, one),
                y: yz.mul(oc).sub(u.x.mul(s)).clamp(neg_one, one),
                z: c.add(zz.mul(oc)).clamp(neg_one, one),
            },
        }
    }
}

impl Transform {
    pub fn identity() -> (r: Transform)
        ensures
            r@.rot == (M3 {
                c0: V3 { x: FX_ONE as int, y: 0, z: 0 },
                c1: V3 { x: 0, y: FX_ONE as int, z: 0 },
                c2: V3 { x: 0, y: 0, z: FX_ONE as int },
            }),
            r@.pos == (V3 { x: 0, y: 0, z: 0 }),
            r@.wf(),
            r@.rot.bounded(FX_ONE as int),
    {
        Transform { rot: Mat3::identity(), pos: Vec3::zero() }
    }

    /// A transform from an explicit rotation part and translation.
    pub fn from_parts(rot: Mat3, pos: Vec3) -> (r: Transform)
        requires
            rot@.bounded(MAT_BOUND as int),
            pos@.bounded(TRANS_POS_BOUND as int),
        ensures
            r@ == (TR { rot: rot@, pos: pos@ }),
            r@.wf(),
    {
        Transform { rot, pos }
    }

    /// A transform from a translation and an axis-angle rotation vector:
    /// the vector's direction is the axis, its length the angle.
    pub fn new(translation: Vec3, axis_angle: Vec3) -> (r: Transform)
        requires
            translation@.bounded(USER_POS_BOUND as int),
            axis_angle@.bounded(0x40000),
        ensures
            r@.pos == translation@,
            r@.rot == rotation_s(axis_angle@, norm_s(axis_angle@)),
            r@.wf(),
            r@.rot.bounded(FX_ONE as int),
            r@.pos.bounded(USER_POS_BOUND as int),
    {
        let angle: Fx = axis_angle.norm();
        proof {
            assert(sq_sum_s(axis_angle@) <= 3 * 0x40000 * 0x40000) by (nonlinear_arith)
                requires axis_angle@.bounded(0x40000);
            assert(angle@ <= ANGLE_BOUND) by (nonlinear_arith)
                requires
                    0 <= angle@,
                    angle@ * angle@ <= sq_sum_s(axis_angle@),
                    sq_sum_s(axis_angle@) <= 3 * 0x40000 * 0x40000,
                    ANGLE_BOUND == 0x70000,
            ;
        }
        let rot: Mat3 = Mat3::rotation(axis_angle, angle);
        Transform { rot, pos: translation }
    }

    /// The transform applied to a point.
    pub fn apply_pt(self, p: Vec3) -> (r: Vec3)
        requires
            self@.wf(),
            p@.bounded(APPLY_IN_BOUND as int),
        ensures
            r@ == apply_pt_s(self@, p@),
            r@.bounded(3 * APPLY_TERM_BOUND + TRANS_POS_BOUND),
    {
        self.rot.apply(p).add(self.pos)
    }

    /// The transform applied to a direction (no translation).
    pub fn apply_vec(self, v: Vec3) -> (r: Vec3)
        requires
            self@.wf(),
            v@.bounded(APPLY_IN_BOUND as int),
        ensures
            r@ == apply_vec_s(self@, v@),
            r@.bounded(3 * APPLY_TERM_BOUND),
    {
        self.rot.apply(v)
    }

    /// A world point read in the transform's local frame.
    pub fn to_local(self, p: Vec3) -> (r: Vec3)
        requires
            self@.wf(),
            p@.bounded(0x1000_0000_0000),
        ensures
            r@ == to_local_s(self@, p@),
            r@.bounded(3 * APPLY_TERM_BOUND),
    {
        self.rot.tapply(p.sub(self.pos))
    }

    /// Composition: the result applies `o` first, then `self`.
    pub fn compose(self, o: Transform) -> (r: Transform)
        requires
            self@.rot.bounded(FX_ONE as int),
            o@.rot.bounded(FX_ONE as int),
            self@.pos.bounded(USER_POS_BOUND as int),
            o@.pos.bounded(USER_POS_BOUND as int),
        ensures
            r@ == compose_s(self@, o@),
            r@.wf(),
    {
        proof {
            lemma_matmul_pre(self@.rot, o@.rot);
            lemma_apply_bound(
                self@.rot,
                o@.pos,
                FX_ONE as int,
                USER_POS_BOUND as int,
                USER_POS_BOUND as int,
            );
        }
        let rot: Mat3 = self.rot.matmul(o.rot);
        let pos: Vec3 = self.rot.apply(o.pos).add(self.pos);
        Transform { rot, pos }
    }
}


} // verus!
