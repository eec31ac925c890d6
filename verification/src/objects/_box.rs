//! A box: six faces derived from a size vector and a placement. The derived
//! faces always reflect the box's current placement; changing it recomputes
//! all six.

use vstd::prelude::*;
use crate::fixed::{Fx, FX_ONE};
use crate::vector::{Vec3, V3};
use crate::transform::{Transform, Mat3, TR, M3, compose_s, USER_POS_BOUND};
use crate::material::Material;
use crate::objects::face::{Face, FACE_SIZE_BOUND, half, face_geom_eq};

verus! {

/// The placement of the top face in the box's own frame: lifted half the
/// height, turned to face +Y.
pub open spec fn top_local_s(size: V3) -> TR {
    TR {
        rot: M3 {
            c0: V3 { x: FX_ONE as int, y: 0, z: 0 },
            c1: V3 { x: 0, y: 0, z: -FX_ONE },
            c2: V3 { x: 0, y: FX_ONE as int, z: 0 },
        },
        pos: V3 { x: 0, y: size.y / 2, z: 0 },
    }
}

/// The bottom face: lowered half the height, facing -Y.
pub open spec fn bottom_local_s(size: V3) -> TR {
    TR {
        rot: M3 {
            c0: V3 { x: FX_ONE as int, y: 0, z: 0 },
            c1: V3 { x: 0, y: 0, z: FX_ONE as int },
            c2: V3 { x: 0, y: -FX_ONE, z: 0 },
        },
        pos: V3 { x: 0, y: -(size.y / 2), z: 0 },
    }
}

/// The left face: shifted half the width, facing -X.
pub open spec fn left_local_s(size: V3) -> TR {
    TR {
        rot: M3 {
            c0: V3 { x: 0, y: 0, z: FX_ONE as int },
            c1: V3 { x: 0, y: FX_ONE as int, z: 0 },
            c2: V3 { x: -FX_ONE, y: 0, z: 0 },
        },
        pos: V3 { x: -(size.x / 2), y: 0, z: 0 },
    }
}

/// The right face: shifted half the width, facing +X.
pub open spec fn right_local_s(size: V3) -> TR {
    TR {
        rot: M3 {
            c0: V3 { x: 0, y: 0, z: -FX_ONE },
            c1: V3 { x: 0, y: FX_ONE as int, z: 0 },
            c2: V3 { x: FX_ONE as int, y: 0, z: 0 },
        },
        pos: V3 { x: size.x / 2, y: 0, z: 0 },
    }
}

/// The front face: shifted half the depth, facing +Z.
pub open spec fn front_local_s(size: V3) -> TR {
    TR {
        rot: M3 {
            c0: V3 { x: FX_ONE as int, y: 0, z: 0 },
            c1: V3 { x: 0, y: FX_ONE as int, z: 0 },
            c2: V3 { x: 0, y: 0, z: FX_ONE as int },
        },
        pos: V3 { x: 0, y: 0, z: size.z / 2 },
    }
}

/// The back face: shifted half the depth, facing -Z.
pub open spec fn back_local_s(size: V3) -> TR {
    TR {
        rot: M3 {
            c0: V3 { x: -FX_ONE, y: 0, z: 0 },
            c1: V3 { x: 0, y: FX_ONE as int, z: 0 },
            c2: V3 { x: 0, y: 0, z: -FX_ONE },
        },
        pos: V3 { x: 0, y: 0, z: -(size.z / 2) },
    }
}

/// A rectangular solid built from six derived faces.
#[derive(Clone, Copy, Debug)]
pub struct Box {
    pub top: Face,
    pub bottom: Face,
    pub left: Face,
    pub right: Face,
    pub front: Face,
    pub back: Face,
    pub transform: Transform,
    pub size: Vec3,
    pub material: Material,
}

/// Structural identity of two boxes: the six faces' geometry, the
/// placement and the size; materials play no part.
pub open spec fn box_geom_eq(a: Box, b: Box) -> bool {
    face_geom_eq(a.top, b.top) && face_geom_eq(a.bottom, b.bottom) && face_geom_eq(
        a.left,
        b.left,
    ) && face_geom_eq(a.right, b.right) && face_geom_eq(a.front, b.front) && face_geom_eq(
        a.back,
        b.back,
    ) && a.transform == b.transform && a.size == b.size
}

impl PartialEq for Box {
    /// Equality over the geometry only.
    fn eq(&self, other: &Box) -> (r: bool) {
        self.top == other.top && self.bottom == other.bottom && self.left == other.left
            && self.right == other.right && self.front == other.front && self.back
            == other.back && self.transform == other.transform && self.size == other.size
    }
}

impl vstd::std_specs::cmp::PartialEqSpecImpl for Box {
    open spec fn obeys_eq_spec() -> bool {
        true
    }

    open spec fn eq_spec(&self, other: &Box) -> bool {
        box_geom_eq(*self, *other)
    }
}

impl Box {
    /// The box's invariant: bounded nonnegative size, a well-formed
    /// placement, and six faces that carry exactly the derived placements,
    /// the right extents, and the box's material.
    pub open spec fn wf(self) -> bool {
        &&& 0 <= self.size@.x <= FACE_SIZE_BOUND
        &&& 0 <= self.size@.y <= FACE_SIZE_BOUND
        &&& 0 <= self.size@.z <= FACE_SIZE_BOUND
        &&& self.transform@.rot.bounded(FX_ONE as int)
        &&& self.transform@.pos.bounded(USER_POS_BOUND as int)
        &&& self.material.wf()
        &&& self.top.width@ == self.size@.x && self.top.height@ == self.size@.z
        &&& self.bottom.width@ == self.size@.x && self.bottom.height@ == self.size@.z
        &&& self.left.width@ == self.size@.z && self.left.height@ == self.size@.y
        &&& self.right.width@ == self.size@.z && self.right.height@ == self.size@.y
        &&& self.front.width@ == self.size@.x && self.front.height@ == self.size@.y
        &&& self.back.width@ == self.size@.x && self.back.height@ == self.size@.y
        &&& self.top.material == self.material && self.bottom.material == self.material
        &&& self.left.material == self.material && self.right.material == self.material
        &&& self.front.material == self.material && self.back.material == self.material
        &&& self.top.transform@ == compose_s(self.transform@, top_local_s(self.size@))
        &&& self.bottom.transform@ == compose_s(self.transform@, bottom_local_s(self.size@))
        &&& self.left.transform@ == compose_s(self.transform@, left_local_s(self.size@))
        &&& self.right.transform@ == compose_s(self.transform@, right_local_s(self.size@))
        &&& self.front.transform@ == compose_s(self.transform@, front_local_s(self.size@))
        &&& self.back.transform@ == compose_s(self.transform@, back_local_s(self.size@))
        &&& self.top.wf() && self.bottom.wf() && self.left.wf() && self.right.wf()
        &&& self.front.wf() && self.back.wf()
    }

    /// A box of the given extents, placed by `transform`.
    pub fn new(size: Vec3, transform: Transform, material: Material) -> (r: Box)
        requires
            0 <= size@.x <= FACE_SIZE_BOUND,
            0 <= size@.y <= FACE_SIZE_BOUND,
            0 <= size@.z <= FACE_SIZE_BOUND,
            transform@.rot.bounded(FX_ONE as int),
            transform@.pos.bounded(USER_POS_BOUND as int),
            material.wf(),
        ensures
            r.wf(),
            r.size == size,
            r.transform == transform,
            r.material == material,
    {
        let mut b = Box {
            top: Face::new(size.x, size.z, Transform::identity(), material),
            bottom: Face::new(size.x, size.z, Transform::identity(), material),
            left: Face::new(size.z, size.y, Transform::identity(), material),
            right: Face::new(size.z, size.y, Transform::identity(), material),
            front: Face::new(size.x, size.y, Transform::identity(), material),
            back: Face::new(size.x, size.y, Transform::identity(), material),
            transform,
            size,
            material,
        };
        b.set_transform(transform);
        b
    }

    /// Re-place the box: every derived face is recomputed from the new
    /// placement.
    pub fn set_transform(&mut self, transform: Transform)
        requires
            0 <= old(self).size@.x <= FACE_SIZE_BOUND,
            0 <= old(self).size@.y <= FACE_SIZE_BOUND,
            0 <= old(self).size@.z <= FACE_SIZE_BOUND,
            transform@.rot.bounded(FX_ONE as int),
            transform@.pos.bounded(USER_POS_BOUND as int),
            old(self).material.wf(),
            old(self).top.width@ == old(self).size@.x && old(self).top.height@ == old(
                self,
            ).size@.z,
            old(self).bottom.width@ == old(self).size@.x && old(self).bottom.height@ == old(
                self,
            ).size@.z,
            old(self).left.width@ == old(self).size@.z && old(self).left.height@ == old(
                self,
            ).size@.y,
            old(self).right.width@ == old(self).size@.z && old(self).right.height@ == old(
                self,
            ).size@.y,
            old(self).front.width@ == old(self).size@.x && old(self).front.height@ == old(
                self,
            ).size@.y,
            old(self).back.width@ == old(self).size@.x && old(self).back.height@ == old(
                self,
            ).size@.y,
            old(self).top.material == old(self).material,
            old(self).bottom.material == old(self).material,
            old(self).left.material == old(self).material,
            old(self).right.material == old(self).material,
            old(self).front.material == old(self).material,
            old(self).back.material == old(self).material,
        ensures
            final(self).wf(),
            final(self).size == old(self).size,
            final(self).material == old(self).material,
            final(self).transform == transform,
    {
        let hx: Fx = half(self.size.x);
        let hy: Fx = half(self.size.y);
        let hz: Fx = half(self.size.z);
        let rot_top: Mat3 = Mat3 {
            c0: Vec3::of(1, 0, 0),
            c1: Vec3::of(0, 0, -1),
            c2: Vec3::of(0, 1, 0),
        };
        let rot_bottom: Mat3 = Mat3 {
            c0: Vec3::of(1, 0, 0),
            c1: Vec3::of(0, 0, 1),
            c2: Vec3::of(0, -1, 0),
        };
        let rot_left: Mat3 = Mat3 {
            c0: Vec3::of(0, 0, 1),
            c1: Vec3::of(0, 1, 0),
            c2: Vec3::of(-1, 0, 0),
        };
        let rot_right: Mat3 = Mat3 {
            c0: Vec3::of(0, 0, -1),
            c1: Vec3::of(0, 1, 0),
            c2: Vec3::of(1, 0, 0),
        };
        let rot_front: Mat3 = Mat3::identity();
        let rot_back: Mat3 = Mat3 {
            c0: Vec3::of(-1, 0, 0),
            c1: Vec3::of(0, 1, 0),
            c2: Vec3::of(0, 0, -1),
        };
        let zero: Fx = Fx::zero();
        self.top.transform = transform.compose(
            Transform::from_parts(rot_top, Vec3 { x: zero, y: hy, z: zero }),
        );
        self.bottom.transform = transform.compose(
            Transform::from_parts(rot_bottom, Vec3 { x: zero, y: hy.neg(), z: zero }),
        );
        self.left.transform = transform.compose(
            Transform::from_parts(rot_left, Vec3 { x: hx.neg(), y: zero, z: zero }),
        );
        self.right.transform = transform.compose(
            Transform::from_parts(rot_right, Vec3 { x: hx, y: zero, z: zero }),
        );
        self.front.transform = transform.compose(
            Transform::from_parts(rot_front, Vec3 { x: zero, y: zero, z: hz }),
        );
        self.back.transform = transform.compose(
            Transform::from_parts(rot_back, Vec3 { x: zero, y: zero, z: hz.neg() }),
        );
        self.transform = transform;
    }
}

} // verus!
