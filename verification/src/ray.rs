//! Rays and the ray-face intersection test, the geometric heart of the
//! tracer. The specification states the computed hit exactly, as integer
//! arithmetic on the fixed-point representations.

use vstd::prelude::*;
use crate::fixed::{Fx, FX_ONE, abs_i, mul_fx};
use crate::vector::{Vec3, V3, add_s, sub_s, scale_s, dot_s, norm_s};
use crate::transform::{to_local_s, lemma_dot_bound, lemma_prod_in_bound, lemma_apply_bound, MAT_BOUND, TRANS_POS_BOUND};
use crate::objects::face::{Face, FaceG, half};

verus! {

/// Magnitude bound on ray origins and directions the tests accept: wide
/// enough for shadow rays cast from any reported hit toward any face.
pub const RAY_BOUND: i64 = 0x1000_0000_0000;

/// Hits with a larger parameter are beyond the supported world volume and
/// are not reported.
pub const T_BOUND: i64 = 0x10_0000_0000;

/// Hit points beyond this magnitude are not reported either.
pub const HIT_BOUND: i64 = 0x100_0000_0000;

/// The mathematical value of a ray.
pub ghost struct RayG {
    pub origin: V3,
    pub dir: V3,
}

impl RayG {
    pub open spec fn wf(self) -> bool {
        self.origin.bounded(RAY_BOUND as int) && self.dir.bounded(RAY_BOUND as int)
    }
}

/// A ray: an origin and a direction (not necessarily unit length).
#[derive(Clone, Copy, Debug, PartialEq, Eq, Structural)]
pub struct Ray {
    pub origin: Vec3,
    pub direction: Vec3,
}

impl View for Ray {
    type V = RayG;

    open spec fn view(&self) -> RayG {
        RayG { origin: self.origin@, dir: self.direction@ }
    }
}

/// The face's world normal: the rotation applied to local +Z.
pub open spec fn face_normal_s(f: FaceG) -> V3 {
    f.transform.rot.c2
}

/// The exact outcome of the ray-face test: the world hit point and its
/// distance from the ray origin, or nothing. A hit is reported when the
/// ray is not parallel to the face's plane (the quantized dot product is
/// nonzero), the plane is met at a nonnegative parameter within the
/// supported world volume, and the met point falls inside the rectangle
/// when read in the face's local frame.
pub open spec fn ray_face_s(r: RayG, f: FaceG) -> Option<(V3, int)> {
    let n = face_normal_s(f);
    let d = dot_s(r.dir, n);
    if d == 0 {
        None
    } else {
        let t = crate::fixed::div_fx(dot_s(sub_s(f.transform.pos, r.origin), n), d);
        if t < 0 {
            None
        } else if t > T_BOUND {
            None
        } else {
            let w = add_s(r.origin, scale_s(r.dir, t));
            if !w.bounded(HIT_BOUND as int) {
                None
            } else {
                let l = to_local_s(f.transform, w);
                if abs_i(l.x) <= f.width / 2 && abs_i(l.y) <= f.height / 2 {
                    Some((w, norm_s(sub_s(w, r.origin))))
                } else {
                    None
                }
            }
        }
    }
}

/// An optional hit seen at the specification level.
pub open spec fn hit2_view(o: Option<(Vec3, Fx)>) -> Option<(V3, int)> {
    match o {
        None => None,
        Some((p, d)) => Some((p@, d@)),
    }
}

impl Ray {
    pub fn new(origin: Vec3, direction: Vec3) -> (r: Ray)
        ensures
            r == (Ray { origin, direction }),
    {
        Ray { origin, direction }
    }

    /// The ray from one point toward another.
    pub fn between(from: Vec3, to: Vec3) -> (r: Ray)
        requires
            i64::MIN <= to@.x - from@.x <= i64::MAX,
            i64::MIN <= to@.y - from@.y <= i64::MAX,
            i64::MIN <= to@.z - from@.z <= i64::MAX,
        ensures
            r.origin == from,
            r.direction@ == sub_s(to@, from@),
    {
        Ray { origin: from, direction: to.sub(from) }
    }

    /// The point where the ray meets the face, and its distance from the
    /// ray origin, if they meet. Crossings beyond the supported world
    /// volume (plane parameter past `T_BOUND`, hit point past `HIT_BOUND`)
    /// are not reported: a fixed-point range limit, stated exactly by
    /// `ray_face_s`.
    pub fn intersects_face(&self, f: &Face) -> (r: Option<(Vec3, Fx)>)
        requires
            self@.wf(),
            f.wf(),
        ensures
            hit2_view(r) == ray_face_s(self@, f.geom()),
    {
        let n: Vec3 = f.normal();
        proof {
            lemma_ray_face_prods(self@, f.geom());
        }
        let d: Fx = self.direction.dot(n);
        if d.raw == 0 {
            return None;
        }
        let num: Fx = f.transform.pos.sub(self.origin).dot(n);
        proof {
            crate::fixed::lemma_i64_prod_fits(num@, crate::fixed::FX_ONE as int);
            crate::fixed::lemma_div_t_abs(num@ * crate::fixed::FX_ONE, d@);
        }
        let t128: i128 = ((num.raw as i128) * (crate::fixed::FX_ONE as i128)).checked_div(
            d.raw as i128,
        ).unwrap();
        if t128 < 0 {
            proof {
                assert(crate::fixed::div_fx(num@, d@) < 0);
            }
            return None;
        }
        if t128 > T_BOUND as i128 {
            return None;
        }
        let t: Fx = Fx { raw: t128 as i64 };
        let wx: i128 = hit_coord(self.origin.x, self.direction.x, t);
        let wy: i128 = hit_coord(self.origin.y, self.direction.y, t);
        let wz: i128 = hit_coord(self.origin.z, self.direction.z, t);
        let hb: i128 = HIT_BOUND as i128;
        if wx > hb || wx < -hb || wy > hb || wy < -hb || wz > hb || wz < -hb {
            proof {
                assert(!add_s(self@.origin, scale_s(self@.dir, t@)).bounded(HIT_BOUND as int));
            }
            return None;
        }
        let w: Vec3 = Vec3 {
            x: Fx { raw: wx as i64 },
            y: Fx { raw: wy as i64 },
            z: Fx { raw: wz as i64 },
        };
        proof {
            assert(w@ == add_s(self@.origin, scale_s(self@.dir, t@)));
            assert(w@.bounded(HIT_BOUND as int));
        }
        let l: Vec3 = f.transform.to_local(w);
        let hw: Fx = half(f.width);
        let hh: Fx = half(f.height);
        if l.x.abs().raw <= hw.raw && l.y.abs().raw <= hh.raw {
            let dist: Fx = w.sub(self.origin).norm();
            Some((w, dist))
        } else {
            None
        }
    }
}

/// One coordinate of `origin + t * dir`, computed with a wide intermediate.
fn hit_coord(origin: Fx, dir: Fx, t: Fx) -> (r: i128)
    ensures
        r as int == origin@ + mul_fx(dir@, t@),
{
    proof {
        crate::fixed::lemma_i64_prod_fits(dir@, t@);
        crate::fixed::lemma_div_t_abs(dir@ * t@, crate::fixed::FX_ONE as int);
    }
    let p: i128 = (dir.raw as i128) * (t.raw as i128);
    let q: i128 = p.checked_div(crate::fixed::FX_ONE as i128).unwrap();
    (origin.raw as i128) + q
}

/// The pairwise product bounds the ray-face arithmetic needs.
proof fn lemma_ray_face_prods(r: RayG, f: FaceG)
    requires
        r.wf(),
        f.transform.wf(),
    ensures
        abs_i(r.dir.x) * abs_i(face_normal_s(f).x) <= crate::vector::DOT_PROD_BOUND,
        abs_i(r.dir.y) * abs_i(face_normal_s(f).y) <= crate::vector::DOT_PROD_BOUND,
        abs_i(r.dir.z) * abs_i(face_normal_s(f).z) <= crate::vector::DOT_PROD_BOUND,
        abs_i(dot_s(r.dir, face_normal_s(f))) <= 3 * 0x4_0000_0000_0000,
        sub_s(f.transform.pos, r.origin).bounded(0x1100_0000_0000),
        abs_i(dot_s(sub_s(f.transform.pos, r.origin), face_normal_s(f))) <= 3 * 0x4400_0000_0000,
        abs_i(sub_s(f.transform.pos, r.origin).x) * abs_i(face_normal_s(f).x)
            <= crate::vector::DOT_PROD_BOUND,
        abs_i(sub_s(f.transform.pos, r.origin).y) * abs_i(face_normal_s(f).y)
            <= crate::vector::DOT_PROD_BOUND,
        abs_i(sub_s(f.transform.pos, r.origin).z) * abs_i(face_normal_s(f).z)
            <= crate::vector::DOT_PROD_BOUND,
{
    let n = face_normal_s(f);
    lemma_prod_in_bound(r.dir.x, n.x, RAY_BOUND as int, MAT_BOUND as int);
    lemma_prod_in_bound(r.dir.y, n.y, RAY_BOUND as int, MAT_BOUND as int);
    lemma_prod_in_bound(r.dir.z, n.z, RAY_BOUND as int, MAT_BOUND as int);
    assert(0x1000_0000_0000 * 0x40000 <= 0x4_0000_0000_0000 * 65536) by (nonlinear_arith);
    lemma_dot_bound(r.dir, n, RAY_BOUND as int, MAT_BOUND as int, 0x4_0000_0000_0000);
    let pd = sub_s(f.transform.pos, r.origin);
    lemma_prod_in_bound(pd.x, n.x, 0x1100_0000_0000, MAT_BOUND as int);
    lemma_prod_in_bound(pd.y, n.y, 0x1100_0000_0000, MAT_BOUND as int);
    lemma_prod_in_bound(pd.z, n.z, 0x1100_0000_0000, MAT_BOUND as int);
    assert(0x1100_0000_0000 * 0x40000 <= 0x4400_0000_0000 * 65536) by (nonlinear_arith);
    lemma_dot_bound(pd, n, 0x1100_0000_0000, MAT_BOUND as int, 0x4400_0000_0000);
}

/// A reported hit lies within the face's rectangle: reading the hit point
/// in the face's local frame gives coordinates within half the width and
/// half the height.
pub proof fn lemma_hit_within_rect(r: RayG, f: FaceG)
    ensures
        ray_face_s(r, f) is Some ==> {
            let l = to_local_s(f.transform, (ray_face_s(r, f)->0).0);
            abs_i(l.x) <= f.width / 2 && abs_i(l.y) <= f.height / 2
        },
{
}

/// A ray whose direction is perpendicular to the face's normal (the
/// quantized dot product vanishes) never hits, wherever it starts.
pub proof fn lemma_parallel_misses(r: RayG, f: FaceG)
    requires
        dot_s(r.dir, face_normal_s(f)) == 0,
    ensures
        ray_face_s(r, f) is None,
{
}

/// A ray whose plane intersection lies behind its origin (the plane
/// parameter is negative) never hits.
pub proof fn lemma_behind_origin_misses(r: RayG, f: FaceG)
    requires
        dot_s(r.dir, face_normal_s(f)) != 0,
        crate::fixed::div_fx(
            dot_s(sub_s(f.transform.pos, r.origin), face_normal_s(f)),
            dot_s(r.dir, face_normal_s(f)),
        ) < 0,
    ensures
        ray_face_s(r, f) is None,
{
}

} // verus!
