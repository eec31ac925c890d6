//! A perspective camera: rays fan out from the eye, their directions set by
//! per-pixel view angles and the tangent function. The near plane sits at
//! local -Z; the default camera faces -Z.

use vstd::prelude::*;
use crate::fixed::{Fx, FX_ONE, abs_i, mul_fx, div_fx};
use crate::vector::{Vec3, V3, normalize_s};
use crate::transform::{Transform, apply_s, USER_POS_BOUND, lemma_mul_fx_bound, lemma_div_fx_bound};
use crate::trig::{tan_fx, tan_s};
use crate::ray::{Ray, RayG};
use crate::camera::opt_ray_view;
use crate::camera::orthographic::HALF_RAW;

verus! {

/// A perspective projection: a viewport in pixels, horizontal and vertical
/// fields of view in radians, and the camera placement.
#[derive(Clone, Copy, Debug, PartialEq)]
pub struct Perspective {
    pub viewport: (u32, u32),
    pub fov: (Fx, Fx),
    pub transform: Transform,
}

/// The ray for a pixel coordinate: the pixel's offset from the center,
/// scaled to a view angle, taken through the tangent, aimed down local -Z,
/// normalized, and rotated into the world.
pub open spec fn persp_ray_s(c: Perspective, x: int, y: int) -> Option<RayG> {
    let vw = c.viewport.0 as int;
    let vh = c.viewport.1 as int;
    if 0 <= x < vw * FX_ONE && 0 <= y < vh * FX_ONE {
        let tx = tan_s(mul_fx(div_fx(x, (vw - 1) * FX_ONE) - HALF_RAW, c.fov.0@));
        let ty = tan_s(mul_fx(div_fx(y, (vh - 1) * FX_ONE) - HALF_RAW, c.fov.1@));
        let dir = normalize_s(V3 { x: tx, y: ty, z: -FX_ONE });
        Some(RayG { origin: c.transform@.pos, dir: apply_s(c.transform@.rot, dir) })
    } else {
        None
    }
}

impl Perspective {
    /// Enough room for the ray arithmetic: at least two pixels each way,
    /// fields of view within three radians, and a rotation-plus-bounded-
    /// translation placement.
    pub open spec fn wf(self) -> bool {
        &&& 2 <= self.viewport.0 <= 0x8000
        &&& 2 <= self.viewport.1 <= 0x8000
        &&& 0 <= self.fov.0@ <= 0x3_0000
        &&& 0 <= self.fov.1@ <= 0x3_0000
        &&& self.transform@.rot.bounded(FX_ONE as int)
        &&& self.transform@.pos.bounded(USER_POS_BOUND as int)
    }

    pub fn new(viewport: (u32, u32), fov: (Fx, Fx), transform: Transform) -> (r: Perspective)
        ensures
            r == (Perspective { viewport, fov, transform }),
    {
        Perspective { viewport, fov, transform }
    }

    pub fn viewport(&self) -> (r: (u32, u32))
        ensures
            r == self.viewport,
    {
        self.viewport
    }

    pub fn pixel_ray(&self, coords: (Fx, Fx)) -> (r: Option<Ray>)
        requires
            self.wf(),
        ensures
            opt_ray_view(r) == persp_ray_s(*self, coords.0@, coords.1@),
            r is Some ==> (r->0)@.wf(),
    {
        let (x, y) = coords;
        let (vwu, vhu) = self.viewport;
        let vw: Fx = Fx::of(vwu as i32);
        let vh: Fx = Fx::of(vhu as i32);
        if 0 <= x.raw && x.raw < vw.raw && 0 <= y.raw && y.raw < vh.raw {
            let tx: Fx = view_tangent(x, vwu, self.fov.0);
            let ty: Fx = view_tangent(y, vhu, self.fov.1);
            let local: Vec3 = Vec3 { x: tx, y: ty, z: Fx::one().neg() };
            let dir: Vec3 = local.normalize();
            proof {
                crate::transform::lemma_apply_bound(
                    self.transform@.rot,
                    dir@,
                    FX_ONE as int,
                    FX_ONE as int,
                    FX_ONE as int,
                );
            }
            let world_dir: Vec3 = self.transform.apply_vec(dir);
            Some(Ray::new(self.transform.pos, world_dir))
        } else {
            None
        }
    }

    pub fn eye_position(&self) -> (r: Vec3)
        ensures
            r@ == self.transform@.pos,
    {
        self.transform.pos
    }
}

/// The tangent of one pixel's view angle along one axis.
fn view_tangent(x: Fx, vw: u32, fov: Fx) -> (r: Fx)
    requires
        2 <= vw <= 0x10000,
        0 <= x@,
        x@ < vw as int * FX_ONE,
        0 <= fov@ <= 0x3_0000,
    ensures
        r@ == tan_s(mul_fx(div_fx(x@, (vw as int - 1) * FX_ONE) - HALF_RAW, fov@)),
        abs_i(r@) <= 0x1_0000_0000,
{
    let denom: Fx = Fx::of((vw - 1) as i32);
    proof {
        assert((vw as int) * FX_ONE * FX_ONE <= (2 * FX_ONE) * ((vw as int - 1) * FX_ONE))
            by (nonlinear_arith)
            requires
                vw >= 2,
                FX_ONE == 65536,
        ;
        lemma_div_fx_bound(
            x@,
            (vw as int - 1) * FX_ONE,
            (vw as int) * FX_ONE,
            (vw as int - 1) * FX_ONE,
            2 * FX_ONE,
        );
        assert((vw as int - 1) * FX_ONE >= 1) by (nonlinear_arith)
            requires
                vw >= 2,
                FX_ONE == 65536,
        ;
    }
    let q: Fx = x.div(denom);
    proof {
        crate::fixed::lemma_div_t_nonneg(x@ * FX_ONE, denom@);
    }
    let centered: Fx = q.sub(Fx { raw: HALF_RAW });
    proof {
        assert(abs_i(centered@) <= 98304);
        assert(98304 * 0x3_0000 <= 0x70000 * 65536) by (nonlinear_arith);
        lemma_mul_fx_bound(centered@, fov@, 98304, 0x3_0000, 0x70000);
    }
    let theta: Fx = centered.mul(fov);
    tan_fx(theta)
}

} // verus!
