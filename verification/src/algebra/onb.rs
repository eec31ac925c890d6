//! An orthonormal-style basis built from one direction, used to aim
//! sampling cones.

use vstd::prelude::*;
use crate::vector::{Vec3, V3, cross_s, normalize_s, norm_s, sub_s, NORM_BOUND};
use crate::fixed::FX_ONE;

verus! {

/// The basis from a primary `u` direction: `u` normalized, a `v` made
/// perpendicular by a cross product (falling back to the world Y axis when
/// `u` is on the X axis), and `w` closing the frame.
#[verifier::opaque]
pub open spec fn onb_from_u_s(u: V3) -> (V3, V3, V3) {
    let un = normalize_s(u);
    let x = V3 { x: FX_ONE as int, y: 0, z: 0 };
    let y = V3 { x: 0, y: FX_ONE as int, z: 0 };
    let v0 = cross_s(un, x);
    let v = if norm_s(v0) == 0 {
        cross_s(un, y)
    } else {
        v0
    };
    let w = cross_s(un, v);
    (un, v, w)
}

/// The basis from a primary `v` direction.
#[verifier::opaque]
pub open spec fn onb_from_v_s(v: V3) -> (V3, V3, V3) {
    let vn = normalize_s(v);
    let x = V3 { x: FX_ONE as int, y: 0, z: 0 };
    let y = V3 { x: 0, y: FX_ONE as int, z: 0 };
    let u0 = cross_s(vn, x);
    let u = if norm_s(u0) == 0 {
        cross_s(vn, y)
    } else {
        u0
    };
    let w = cross_s(u, vn);
    (u, vn, w)
}

/// The basis from a primary `w` direction.
#[verifier::opaque]
pub open spec fn onb_from_w_s(w: V3) -> (V3, V3, V3) {
    let wn = normalize_s(w);
    let x = V3 { x: FX_ONE as int, y: 0, z: 0 };
    let y = V3 { x: 0, y: FX_ONE as int, z: 0 };
    let u0 = cross_s(wn, x);
    let u = if norm_s(u0) == 0 {
        cross_s(wn, y)
    } else {
        u0
    };
    let v = cross_s(wn, u);
    (u, v, wn)
}

/// A basis of three pairwise-perpendicular directions.
#[derive(Clone, Copy, Debug, PartialEq, Eq, Structural)]
pub struct OrthoNormalBase {
    pub u: Vec3,
    pub v: Vec3,
    pub w: Vec3,
}

impl OrthoNormalBase {
    pub fn u(&self) -> (r: Vec3)
        ensures
            r == self.u,
    {
        self.u
    }

    pub fn v(&self) -> (r: Vec3)
        ensures
            r == self.v,
    {
        self.v
    }

    pub fn w(&self) -> (r: Vec3)
        ensures
            r == self.w,
    {
        self.w
    }

    pub fn from_u(u: Vec3) -> (r: OrthoNormalBase)
        requires
            u@.bounded(NORM_BOUND as int),
        ensures
            (r.u@, r.v@, r.w@) == onb_from_u_s(u@),
            r.u@.bounded(FX_ONE as int),
            r.v@.bounded(2 * FX_ONE),
            r.w@.bounded(8 * FX_ONE),
    {
        proof {
            reveal(onb_from_u_s);
        }
        let un: Vec3 = u.normalize();
        let x_axis: Vec3 = Vec3::of(1, 0, 0);
        let y_axis: Vec3 = Vec3::of(0, 1, 0);
        let v0: Vec3 = un.cross(x_axis);
        proof {
            lemma_cross_unit_bound(un@, x_axis@);
            lemma_cross_unit_bound(un@, y_axis@);
        }
        let v: Vec3 = if v0.norm().raw == 0 {
            un.cross(y_axis)
        } else {
            v0
        };
        proof {
            lemma_cross_two_bound(un@, v@);
        }
        let w: Vec3 = un.cross(v);
        OrthoNormalBase { u: un, v, w }
    }

    pub fn from_v(v: Vec3) -> (r: OrthoNormalBase)
        requires
            v@.bounded(NORM_BOUND as int),
        ensures
            (r.u@, r.v@, r.w@) == onb_from_v_s(v@),
            r.v@.bounded(FX_ONE as int),
            r.u@.bounded(2 * FX_ONE),
            r.w@.bounded(8 * FX_ONE),
    {
        proof {
            reveal(onb_from_v_s);
        }
        let vn: Vec3 = v.normalize();
        let x_axis: Vec3 = Vec3::of(1, 0, 0);
        let y_axis: Vec3 = Vec3::of(0, 1, 0);
        let u0: Vec3 = vn.cross(x_axis);
        proof {
            lemma_cross_unit_bound(vn@, x_axis@);
            lemma_cross_unit_bound(vn@, y_axis@);
        }
        let u: Vec3 = if u0.norm().raw == 0 {
            vn.cross(y_axis)
        } else {
            u0
        };
        proof {
            lemma_cross_two_bound(u@, vn@);
        }
        let w: Vec3 = u.cross(vn);
        OrthoNormalBase { u, v: vn, w }
    }

    pub fn from_w(w: Vec3) -> (r: OrthoNormalBase)
        requires
            w@.bounded(NORM_BOUND as int),
        ensures
            (r.u@, r.v@, r.w@) == onb_from_w_s(w@),
            r.w@.bounded(FX_ONE as int),
            r.u@.bounded(2 * FX_ONE),
            r.v@.bounded(8 * FX_ONE),
    {
        proof {
            reveal(onb_from_w_s);
        }
        let wn: Vec3 = w.normalize();
        let x_axis: Vec3 = Vec3::of(1, 0, 0);
        let y_axis: Vec3 = Vec3::of(0, 1, 0);
        let u0: Vec3 = wn.cross(x_axis);
        proof {
            lemma_cross_unit_bound(wn@, x_axis@);
            lemma_cross_unit_bound(wn@, y_axis@);
        }
        let u: Vec3 = if u0.norm().raw == 0 {
            wn.cross(y_axis)
        } else {
            u0
        };
        proof {
            lemma_cross_two_bound(wn@, u@);
        }
        let v: Vec3 = wn.cross(u);
        OrthoNormalBase { u, v, w: wn }
    }
}

/// A cross product of unit-bounded vectors stays within two units.
proof fn lemma_cross_unit_bound(a: V3, b: V3)
    requires
        a.bounded(FX_ONE as int),
        b.bounded(FX_ONE as int),
    ensures
        cross_s(a, b).bounded(2 * FX_ONE),
{
    crate::transform::lemma_mul_fx_bound(a.y, b.z, FX_ONE as int, FX_ONE as int, FX_ONE as int);
    crate::transform::lemma_mul_fx_bound(a.z, b.y, FX_ONE as int, FX_ONE as int, FX_ONE as int);
    crate::transform::lemma_mul_fx_bound(a.z, b.x, FX_ONE as int, FX_ONE as int, FX_ONE as int);
    crate::transform::lemma_mul_fx_bound(a.x, b.z, FX_ONE as int, FX_ONE as int, FX_ONE as int);
    crate::transform::lemma_mul_fx_bound(a.x, b.y, FX_ONE as int, FX_ONE as int, FX_ONE as int);
    crate::transform::lemma_mul_fx_bound(a.y, b.x, FX_ONE as int, FX_ONE as int, FX_ONE as int);
}

/// A cross product of a unit-bounded and a two-unit-bounded vector stays
/// within eight units.
proof fn lemma_cross_two_bound(a: V3, b: V3)
    requires
        a.bounded(2 * FX_ONE),
        b.bounded(2 * FX_ONE),
    ensures
        cross_s(a, b).bounded(8 * FX_ONE),
{
    assert((2 * FX_ONE) * (2 * FX_ONE) <= (4 * FX_ONE) * 65536) by (nonlinear_arith);
    crate::transform::lemma_mul_fx_bound(a.y, b.z, 2 * FX_ONE, 2 * FX_ONE, 4 * FX_ONE);
    crate::transform::lemma_mul_fx_bound(a.z, b.y, 2 * FX_ONE, 2 * FX_ONE, 4 * FX_ONE);
    crate::transform::lemma_mul_fx_bound(a.z, b.x, 2 * FX_ONE, 2 * FX_ONE, 4 * FX_ONE);
    crate::transform::lemma_mul_fx_bound(a.x, b.z, 2 * FX_ONE, 2 * FX_ONE, 4 * FX_ONE);
    crate::transform::lemma_mul_fx_bound(a.x, b.y, 2 * FX_ONE, 2 * FX_ONE, 4 * FX_ONE);
    crate::transform::lemma_mul_fx_bound(a.y, b.x, 2 * FX_ONE, 2 * FX_ONE, 4 * FX_ONE);
}

} // verus!
