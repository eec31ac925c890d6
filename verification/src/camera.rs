//! Cameras: the closed set of projection models mapping pixel coordinates
//! to world rays.

pub mod orthographic;
pub mod perspective;

pub use self::orthographic::Orthographic;
pub use self::perspective::Perspective;

use vstd::prelude::*;
use crate::vector::Vec3;
use crate::ray::{Ray, RayG};

verus! {

/// An optional ray seen at the specification level.
pub open spec fn opt_ray_view(o: Option<Ray>) -> Option<RayG> {
    match o {
        Some(r) => Some(r@),
        None => None,
    }
}

/// A camera: one of the supported projection models.
#[derive(Clone, Copy, Debug, PartialEq)]
pub enum Camera {
    Orthographic(Orthographic),
    Perspective(Perspective),
}

/// The ray a camera casts for a continuous pixel coordinate.
pub open spec fn pixel_ray_s(c: Camera, x: int, y: int) -> Option<RayG> {
    match c {
        Camera::Orthographic(o) => orthographic::ortho_ray_s(o, x, y),
        Camera::Perspective(p) => perspective::persp_ray_s(p, x, y),
    }
}

/// The camera's eye position.
pub open spec fn eye_position_s(c: Camera) -> crate::vector::V3 {
    match c {
        Camera::Orthographic(o) => o.transform@.pos,
        Camera::Perspective(p) => p.transform@.pos,
    }
}

/// The same camera with another viewport.
pub open spec fn with_viewport_s(c: Camera, v: (u32, u32)) -> Camera {
    match c {
        Camera::Orthographic(o) => Camera::Orthographic(
            Orthographic { viewport: v, plane_size: o.plane_size, transform: o.transform },
        ),
        Camera::Perspective(p) => Camera::Perspective(
            Perspective { viewport: v, fov: p.fov, transform: p.transform },
        ),
    }
}

/// The camera's viewport in pixels.
pub open spec fn viewport_s(c: Camera) -> (int, int) {
    match c {
        Camera::Orthographic(o) => (o.viewport.0 as int, o.viewport.1 as int),
        Camera::Perspective(p) => (p.viewport.0 as int, p.viewport.1 as int),
    }
}

impl Camera {
    pub open spec fn wf(self) -> bool {
        match self {
            Camera::Orthographic(o) => o.wf(),
            Camera::Perspective(p) => p.wf(),
        }
    }

    pub fn from_orthographic(o: Orthographic) -> (r: Camera)
        ensures
            r == Camera::Orthographic(o),
    {
        Camera::Orthographic(o)
    }

    pub fn from_perspective(p: Perspective) -> (r: Camera)
        ensures
            r == Camera::Perspective(p),
    {
        Camera::Perspective(p)
    }

    pub fn viewport(&self) -> (r: (u32, u32))
        ensures
            (r.0 as int, r.1 as int) == viewport_s(*self),
    {
        match self {
            Camera::Orthographic(o) => o.viewport,
            Camera::Perspective(p) => p.viewport,
        }
    }

    pub fn set_viewport(&mut self, viewport: (u32, u32))
        ensures
            *final(self) == with_viewport_s(*old(self), viewport),
    {
        match self {
            Camera::Orthographic(o) => o.viewport = viewport,
            Camera::Perspective(p) => p.viewport = viewport,
        }
    }

    /// The world ray through the given continuous pixel coordinate, or
    /// nothing when it lies outside the viewport on either side.
    pub fn pixel_ray(&self, coords: (crate::fixed::Fx, crate::fixed::Fx)) -> (r: Option<Ray>)
        requires
            self.wf(),
        ensures
            opt_ray_view(r) == pixel_ray_s(*self, coords.0@, coords.1@),
            r is Some ==> (r->0)@.wf(),
    {
        match self {
            Camera::Orthographic(o) => o.pixel_ray(coords),
            Camera::Perspective(p) => p.pixel_ray(coords),
        }
    }

    /// Where the camera's eye sits in the world.
    pub fn eye_position(&self) -> (r: Vec3)
        ensures
            r@ == eye_position_s(*self),
            self.wf() ==> r@.bounded(crate::transform::USER_POS_BOUND as int),
    {
        match self {
            Camera::Orthographic(o) => o.transform.pos,
            Camera::Perspective(p) => p.transform.pos,
        }
    }
}

} // verus!
