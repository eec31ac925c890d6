//! A rectangular face: a width and height around the local origin in the
//! local XY plane, facing local +Z, placed into the world by a transform.

use vstd::prelude::*;
use crate::fixed::{Fx, abs_i};
use crate::vector::{Vec3, V3};
use crate::transform::{Transform, TR, apply_pt_s};
use crate::material::Material;
use crate::util::random_below;

verus! {

/// Largest accepted face extent.
pub const FACE_SIZE_BOUND: i64 = 0x10_0000_0000;

/// The geometric content of a face: what intersection tests read.
pub ghost struct FaceG {
    pub width: int,
    pub height: int,
    pub transform: TR,
}

/// A rectangular face with a placement and a material.
#[derive(Clone, Copy, Debug)]
pub struct Face {
    pub width: Fx,
    pub height: Fx,
    pub transform: Transform,
    pub material: Material,
}

/// Structural identity of two faces: the geometry alone — extents and
/// placement. Materials play no part, so a shadow ray recognizes its target
/// light by where it is, not by how it is shaded.
pub open spec fn face_geom_eq(a: Face, b: Face) -> bool {
    a.width == b.width && a.height == b.height && a.transform == b.transform
}

impl PartialEq for Face {
    /// Equality over the geometry only.
    fn eq(&self, other: &Face) -> (r: bool) {
        self.width == other.width && self.height == other.height && self.transform
            == other.transform
    }
}

impl vstd::std_specs::cmp::PartialEqSpecImpl for Face {
    open spec fn obeys_eq_spec() -> bool {
        true
    }

    open spec fn eq_spec(&self, other: &Face) -> bool {
        face_geom_eq(*self, *other)
    }
}

/// `p` is a point of the face: some local position within the rectangle,
/// carried to world space by the placement.
pub open spec fn on_face_s(f: Face, p: V3) -> bool {
    exists|lx: int, ly: int|
        abs_i(lx) <= f.width@ / 2 && abs_i(ly) <= f.height@ / 2 && p == apply_pt_s(
            f.transform@,
            V3 { x: lx, y: ly, z: 0 },
        )
}

impl Face {
    /// The geometric part of the face.
    pub open spec fn geom(self) -> FaceG {
        FaceG { width: self.width@, height: self.height@, transform: self.transform@ }
    }

    /// Nonnegative bounded extents, a well-formed placement, and a
    /// well-formed material: what the geometric arithmetic relies on.
    pub open spec fn wf(self) -> bool {
        0 <= self.width@ <= FACE_SIZE_BOUND && 0 <= self.height@ <= FACE_SIZE_BOUND
            && self.transform@.wf() && self.material.wf()
    }

    pub fn new(width: Fx, height: Fx, transform: Transform, material: Material) -> (r: Face)
        ensures
            r == (Face { width, height, transform, material }),
    {
        Face { width, height, transform, material }
    }

    /// The face's world normal: the transform applied to local +Z, which is
    /// exactly the third column of the rotation part.
    pub fn normal(&self) -> (r: Vec3)
        ensures
            r@ == self.transform@.rot.c2,
    {
        self.transform.rot.c2
    }

    /// The face's material.
    pub fn material(&self) -> (r: Material)
        ensures
            r == self.material,
    {
        self.material
    }

    /// A point sampled on the face: some local position within the
    /// rectangle, carried to world space by the placement.
    pub fn random_on_face(&self) -> (r: Vec3)
        requires
            self.wf(),
        ensures
            on_face_s(*self, r@),
    {
        let hw: Fx = half(self.width);
        let hh: Fx = half(self.height);
        let ox: u64 = random_below((hw.raw as u64) * 2 + 1);
        let oy: u64 = random_below((hh.raw as u64) * 2 + 1);
        let lx: Fx = Fx { raw: ox as i64 - hw.raw };
        let ly: Fx = Fx { raw: oy as i64 - hh.raw };
        let local: Vec3 = Vec3 { x: lx, y: ly, z: Fx::zero() };
        let r: Vec3 = self.transform.apply_pt(local);
        proof {
            assert(abs_i(lx@) <= self.width@ / 2 && abs_i(ly@) <= self.height@ / 2 && r@
                == apply_pt_s(self.transform@, V3 { x: lx@, y: ly@, z: 0 }));
        }
        r
    }
}

/// Half of a nonnegative scalar, rounded down.
pub fn half(x: Fx) -> (r: Fx)
    requires
        0 <= x@,
    ensures
        r@ == x@ / 2,
        0 <= r@ <= x@,
{
    Fx { raw: ((x.raw as u64) / 2) as i64 }
}

} // verus!
