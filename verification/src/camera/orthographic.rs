//! An orthographic camera: parallel rays through a view plane.

use vstd::prelude::*;
use crate::fixed::{Fx, FX_ONE, abs_i, mul_fx, div_fx};
use crate::vector::{Vec3, V3, add_s, scale_s, normalize_s};
use crate::transform::{Transform, USER_POS_BOUND, lemma_prod_in_bound, lemma_mul_fx_bound, lemma_div_fx_bound};
use crate::ray::{Ray, RayG};
use crate::camera::opt_ray_view;

verus! {

/// Raw fixed-point one half.
pub const HALF_RAW: i64 = 32768;

/// An orthographic projection: a viewport in pixels, the world size of the
/// view plane, and the camera placement.
#[derive(Clone, Copy, Debug, PartialEq)]
pub struct Orthographic {
    pub viewport: (u32, u32),
    pub plane_size: (Fx, Fx),
    pub transform: Transform,
}

/// The ray for a pixel coordinate: a point on the view plane, offset from
/// the camera position along its right and up axes, cast forward.
pub open spec fn ortho_ray_s(c: Orthographic, x: int, y: int) -> Option<RayG> {
    let vw = c.viewport.0 as int;
    let vh = c.viewport.1 as int;
    if 0 <= x < vw * FX_ONE && 0 <= y < vh * FX_ONE {
        let cam_x = mul_fx(div_fx(x, (vw - 1) * FX_ONE) - HALF_RAW, c.plane_size.0@);
        let cam_y = mul_fx(div_fx(y, (vh - 1) * FX_ONE) - HALF_RAW, c.plane_size.1@);
        let origin = add_s(
            add_s(c.transform@.pos, scale_s(c.transform@.rot.c0, cam_x)),
            scale_s(c.transform@.rot.c1, cam_y),
        );
        Some(RayG { origin, dir: normalize_s(c.transform@.rot.c2) })
    } else {
        None
    }
}

impl Orthographic {
    /// Enough room for the ray arithmetic: at least two pixels each way,
    /// a bounded plane, and a rotation-plus-bounded-translation placement.
    pub open spec fn wf(self) -> bool {
        &&& 2 <= self.viewport.0 <= 0x8000
        &&& 2 <= self.viewport.1 <= 0x8000
        &&& abs_i(self.plane_size.0@) <= 0x1_0000_0000
        &&& abs_i(self.plane_size.1@) <= 0x1_0000_0000
        &&& self.transform@.rot.bounded(FX_ONE as int)
        &&& self.transform@.pos.bounded(USER_POS_BOUND as int)
    }

    pub fn new(viewport: (u32, u32), plane_size: (Fx, Fx), transform: Transform) -> (r:
        Orthographic)
        ensures
            r == (Orthographic { viewport, plane_size, transform }),
    {
        Orthographic { viewport, plane_size, transform }
    }

    pub fn viewport(&self) -> (r: (u32, u32))
        ensures
            r == self.viewport,
    {
        self.viewport
    }

    pub fn pixel_ray(&self, coords: (Fx, Fx)) -> (r: Option<Ray>)
        requires
            self.wf(),
        ensures
            opt_ray_view(r) == ortho_ray_s(*self, coords.0@, coords.1@),
            r is Some ==> (r->0)@.wf(),
    {
        let (x, y) = coords;
        let (vwu, vhu) = self.viewport;
        let vw: Fx = Fx::of(vwu as i32);
        let vh: Fx = Fx::of(vhu as i32);
        if 0 <= x.raw && x.raw < vw.raw && 0 <= y.raw && y.raw < vh.raw {
            let cam_x: Fx = plane_coord(x, vwu, self.plane_size.0);
            let cam_y: Fx = plane_coord(y, vhu, self.plane_size.1);
            let right: Vec3 = self.transform.rot.c0;
            let up: Vec3 = self.transform.rot.c1;
            proof {
                lemma_axis_scale(right@, cam_x@);
                lemma_axis_scale(up@, cam_y@);
            }
            let origin: Vec3 = self.transform.pos.add(right.scale(cam_x)).add(up.scale(cam_y));
            let forward: Vec3 = self.transform.rot.c2;
            Some(Ray::new(origin, forward.normalize()))
        } else {
            None
        }
    }

    pub fn eye_position(&self) -> (r: Vec3)
        ensures
            r@ == self.transform@.pos,
    {
        self.transform.pos
    }
}

/// One view-plane coordinate: the pixel position as a fraction of the
/// viewport, recentered, scaled by the plane's world size.
fn plane_coord(x: Fx, vw: u32, plane: Fx) -> (r: Fx)
    requires
        2 <= vw <= 0x10000,
        0 <= x@ <= 0x1_0000_0000_0000,
        x@ < vw as int * FX_ONE,
        abs_i(plane@) <= 0x1_0000_0000,
    ensures
        r@ == mul_fx(div_fx(x@, (vw as int - 1) * FX_ONE) - HALF_RAW, plane@),
        abs_i(r@) <= 0x4_0000_0000,
{
    let denom: Fx = Fx::of((vw - 1) as i32);
    proof {
        assert((vw as int) * FX_ONE * FX_ONE <= (2 * FX_ONE) * ((vw as int - 1) * FX_ONE))
            by (nonlinear_arith)
            requires
                vw >= 2,
                FX_ONE == 65536,
        ;
        lemma_div_fx_bound(
            x@,
            (vw as int - 1) * FX_ONE,
            (vw as int) * FX_ONE,
            (vw as int - 1) * FX_ONE,
            2 * FX_ONE,
        );
        assert((vw as int - 1) * FX_ONE >= 1) by (nonlinear_arith)
            requires
                vw >= 2,
                FX_ONE == 65536,
        ;
    }
    let q: Fx = x.div(denom);
    let centered: Fx = q.sub(Fx { raw: HALF_RAW });
    proof {
        assert(196608 * 0x1_0000_0000 <= 0x4_0000_0000 * 65536) by (nonlinear_arith);
        lemma_mul_fx_bound(centered@, plane@, 196608, 0x1_0000_0000, 0x4_0000_0000);
    }
    centered.mul(plane)
}

/// Scaling a rotation column by a bounded coordinate keeps it bounded.
proof fn lemma_axis_scale(axis: V3, k: int)
    requires
        axis.bounded(FX_ONE as int),
        abs_i(k) <= 0x4_0000_0000,
    ensures
        abs_i(axis.x) * abs_i(k) <= crate::vector::DOT_PROD_BOUND,
        abs_i(axis.y) * abs_i(k) <= crate::vector::DOT_PROD_BOUND,
        abs_i(axis.z) * abs_i(k) <= crate::vector::DOT_PROD_BOUND,
        scale_s(axis, k).bounded(0x4_0000_0000),
{
    lemma_prod_in_bound(axis.x, k, FX_ONE as int, 0x4_0000_0000);
    lemma_prod_in_bound(axis.y, k, FX_ONE as int, 0x4_0000_0000);
    lemma_prod_in_bound(axis.z, k, FX_ONE as int, 0x4_0000_0000);
    assert(65536 * 0x4_0000_0000 <= 0x4_0000_0000 * 65536) by (nonlinear_arith);
    lemma_mul_fx_bound(axis.x, k, FX_ONE as int, 0x4_0000_0000, 0x4_0000_0000);
    lemma_mul_fx_bound(axis.y, k, FX_ONE as int, 0x4_0000_0000, 0x4_0000_0000);
    lemma_mul_fx_bound(axis.z, k, FX_ONE as int, 0x4_0000_0000, 0x4_0000_0000);
}

} // verus!
