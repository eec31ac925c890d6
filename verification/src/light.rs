//! Area lights: a rectangular emitting face with an emission description,
//! and the Phong shading terms a light contributes at a lit point.

use vstd::prelude::*;
use crate::fixed::{Fx, FX_ONE, abs_i, mul_fx, div_fx, clamp_i, pow_fx_s, pow_fx};
use crate::vector::{Vec3, V3, sub_s, scale_s, dot_s, normalize_s, NORM_BOUND};
use crate::transform::{Transform, MAT_BOUND, apply_pt_s, lemma_dot_bound, lemma_prod_in_bound, lemma_mul_fx_bound};
use crate::objects::face::Face;
use crate::material::{LightMaterial, Material};
use crate::material::material::{diffuse_s, specular_s, shininess_s};
use crate::util::{Color, C3, rgb_mul_s, rgb_mul2_s, rgb_clamp01_s, rgb_mul, rgb_mul2, rgb_clamp_0_1};
use crate::intersection::Intersection;
use crate::ray::{Ray, RayG, RAY_BOUND, HIT_BOUND};

verus! {

/// The raw fixed-point value of 1 / pi.
pub const INV_PI_RAW: i64 = 20860;

/// The raw fixed-point value of 2 * pi.
pub const TWO_PI_RAW: i64 = 411774;

/// An area light: an emitting face and its emission intensities.
#[derive(Clone, Copy, Debug)]
pub struct Light {
    pub face: Face,
    pub material: LightMaterial,
}

/// Structural identity of two lights: the face's geometry and the emission
/// description.
pub open spec fn light_eq_s(a: Light, b: Light) -> bool {
    crate::objects::face::face_geom_eq(a.face, b.face) && a.material == b.material
}

impl PartialEq for Light {
    fn eq(&self, other: &Light) -> (r: bool) {
        self.face == other.face && self.material == other.material
    }
}

impl vstd::std_specs::cmp::PartialEqSpecImpl for Light {
    open spec fn obeys_eq_spec() -> bool {
        true
    }

    open spec fn eq_spec(&self, other: &Light) -> bool {
        light_eq_s(*self, *other)
    }
}

/// The diffuse contribution of a light at a lit point: the lambertian
/// cosine (clamped below at zero) over pi, times the light's diffuse
/// intensity, filtered by the surface's diffuse color.
#[verifier::opaque]
pub open spec fn shade_diffuse_s(lm: LightMaterial, n: V3, m: Material, sdir: V3) -> C3 {
    let l = normalize_s(sdir);
    let d0 = dot_s(l, n);
    let d = if d0 < 0 {
        0
    } else {
        d0
    };
    rgb_mul2_s(rgb_mul_s(lm.diffuse_intensity@, mul_fx(d, INV_PI_RAW as int)), diffuse_s(m))
}

/// The specular contribution: the shadow direction reflected about the
/// normal, dotted with the view direction, clamped to `[0, 1]`, raised to
/// the shininess, normalized by `(shininess + 2) / (2 pi)`, times the
/// light's specular intensity, filtered by the surface's specular color,
/// and clamped to `[0, 1]`.
#[verifier::opaque]
pub open spec fn shade_specular_s(
    lm: LightMaterial,
    n: V3,
    m: Material,
    sdir: V3,
    eye: V3,
    hit: V3,
) -> C3 {
    let l = normalize_s(sdir);
    let dln = dot_s(l, n);
    let rv = sub_s(scale_s(n, dln + dln), l);
    let v = normalize_s(sub_s(eye, hit));
    let d = clamp_i(dot_s(rv, v), 0, FX_ONE as int);
    let dp = pow_fx_s(d, shininess_s(m) as nat);
    let nf = div_fx((shininess_s(m) + 2) * FX_ONE, TWO_PI_RAW as int);
    rgb_clamp01_s(rgb_mul2_s(rgb_mul_s(lm.specular_intensity@, mul_fx(dp, nf)), specular_s(m)))
}

impl Light {
    /// A well-formed light: a well-formed face and unit-range intensities.
    pub open spec fn wf(self) -> bool {
        self.face.wf() && self.material.wf()
    }

    pub fn new(face: Face, material: LightMaterial) -> (r: Light)
        ensures
            r == (Light { face, material }),
    {
        Light { face, material }
    }

    /// The placement of the light's emitting face.
    pub fn transform(&self) -> (r: Transform)
        ensures
            r == self.face.transform,
    {
        self.face.transform
    }

    /// A point sampled on the light's emitting face.
    pub fn random_on_face(&self) -> (r: Vec3)
        requires
            self.face.wf(),
        ensures
            exists|lx: int, ly: int|
                abs_i(lx) <= self.face.width@ / 2 && abs_i(ly) <= self.face.height@ / 2 && r@
                    == apply_pt_s(self.face.transform@, V3 { x: lx, y: ly, z: 0 }),
    {
        self.face.random_on_face()
    }

    /// The light's emission description.
    pub fn light_material(&self) -> (r: &LightMaterial)
        ensures
            *r == self.material,
    {
        &self.material
    }

    /// The diffuse term this light contributes at the hit, via the given
    /// shadow ray toward the light.
    pub fn shade_diffuse(&self, obj_inter: &Intersection, shadow_ray: &Ray) -> (c: Color)
        requires
            self.material.wf(),
            object_mat_wf(*obj_inter.object),
            obj_inter.normal@.bounded(MAT_BOUND as int),
            shadow_ray@.dir.bounded(NORM_BOUND as int),
        ensures
            c@ == shade_diffuse_s(
                self.material,
                obj_inter.normal@,
                crate::objects::object::object_material_s(*obj_inter.object),
                shadow_ray@.dir,
            ),
            c@.bounded(0x8_0000),
    {
        proof {
            reveal(shade_diffuse_s);
        }
        let l: Vec3 = shadow_ray.direction.normalize();
        proof {
            lemma_shade_prods(l@, obj_inter.normal@);
        }
        let d0: Fx = l.dot(obj_inter.normal);
        let d: Fx = if d0.raw < 0 {
            Fx::zero()
        } else {
            d0
        };
        proof {
            assert(0xC0000 * 20860 <= 0x4_0000 * 65536) by (nonlinear_arith);
            lemma_mul_fx_bound(d@, INV_PI_RAW as int, 0xC0000, 20860, 0x4_0000);
        }
        let f: Fx = d.mul(Fx { raw: INV_PI_RAW });
        let c: Color = rgb_mul(&self.material.diffuse_intensity, f);
        proof {
            lemma_rgb_unit_scale(self.material.diffuse_intensity@, f@, 0x4_0000);
        }
        let m: Material = obj_inter.object.material();
        proof {
            let dc = diffuse_s(crate::objects::object::object_material_s(*obj_inter.object));
            lemma_mul_fx_bound(c@.r, dc.r, 0x4_0000, FX_ONE as int, 0x8_0000);
            lemma_mul_fx_bound(c@.g, dc.g, 0x4_0000, FX_ONE as int, 0x8_0000);
            lemma_mul_fx_bound(c@.b, dc.b, 0x4_0000, FX_ONE as int, 0x8_0000);
            assert(0x4_0000 * 65536 <= 0x8_0000 * 65536) by (nonlinear_arith);
        }
        rgb_mul2(&c, &m.diffuse_color())
    }

    /// The specular term this light contributes at the hit, for an eye at
    /// `eye`, via the given shadow ray toward the light.
    pub fn shade_specular(&self, eye: Vec3, obj_inter: &Intersection, shadow_ray: &Ray) -> (c:
        Color)
        requires
            self.material.wf(),
            object_mat_wf(*obj_inter.object),
            obj_inter.normal@.bounded(MAT_BOUND as int),
            obj_inter.position@.bounded(HIT_BOUND as int),
            eye@.bounded(RAY_BOUND as int),
            shadow_ray@.dir.bounded(NORM_BOUND as int),
        ensures
            c@ == shade_specular_s(
                self.material,
                obj_inter.normal@,
                crate::objects::object::object_material_s(*obj_inter.object),
                shadow_ray@.dir,
                eye@,
                obj_inter.position@,
            ),
            c@.in_unit(),
    {
        proof {
            reveal(shade_specular_s);
        }
        let l: Vec3 = shadow_ray.direction.normalize();
        proof {
            lemma_shade_prods(l@, obj_inter.normal@);
        }
        let dln: Fx = l.dot(obj_inter.normal);
        let two_dln: Fx = dln.add(dln);
        proof {
            lemma_reflect_prods(obj_inter.normal@, two_dln@);
        }
        let rv: Vec3 = obj_inter.normal.scale(two_dln).sub(l);
        let v: Vec3 = eye.sub(obj_inter.position).normalize();
        proof {
            lemma_reflect_dot_prods(rv@, v@);
        }
        let d: Fx = rv.dot(v).clamp(Fx::zero(), Fx::one());
        let m: Material = obj_inter.object.material();
        let k: u32 = m.shininess();
        let dp: Fx = pow_fx(d, k);
        let nf: Fx = Fx::of((k + 2) as i32).div(Fx { raw: TWO_PI_RAW });
        proof {
            assert(0x10_0002_0000 * 65536 <= 0x40_0000_0000 * 411774) by (nonlinear_arith);
            crate::transform::lemma_div_fx_bound(
                (k + 2) * (FX_ONE as int),
                TWO_PI_RAW as int,
                0x10_0002_0000,
                TWO_PI_RAW as int,
                0x40_0000_0000,
            );
            assert(65536 * 0x40_0000_0000 <= 0x40_0000_0000 * 65536) by (nonlinear_arith);
            lemma_mul_fx_bound(dp@, nf@, FX_ONE as int, 0x40_0000_0000, 0x40_0000_0000);
        }
        let f: Fx = dp.mul(nf);
        let c: Color = rgb_mul(&self.material.specular_intensity, f);
        proof {
            lemma_rgb_unit_scale(self.material.specular_intensity@, f@, 0x40_0000_0000);
        }
        let c2: Color = rgb_mul2(&c, &m.specular_color());
        rgb_clamp_0_1(&c2)
    }
}

/// The object's nominal material is well-formed.
pub open spec fn object_mat_wf(o: crate::objects::object::Object) -> bool {
    crate::objects::object::object_material_s(o).wf()
}

/// Product bounds for a normalized vector against a rotation-sized normal.
proof fn lemma_shade_prods(l: V3, n: V3)
    requires
        l.bounded(FX_ONE as int),
        n.bounded(MAT_BOUND as int),
    ensures
        abs_i(l.x) * abs_i(n.x) <= crate::vector::DOT_PROD_BOUND,
        abs_i(l.y) * abs_i(n.y) <= crate::vector::DOT_PROD_BOUND,
        abs_i(l.z) * abs_i(n.z) <= crate::vector::DOT_PROD_BOUND,
        abs_i(dot_s(l, n)) <= 0xC0000,
{
    lemma_prod_in_bound(l.x, n.x, FX_ONE as int, MAT_BOUND as int);
    lemma_prod_in_bound(l.y, n.y, FX_ONE as int, MAT_BOUND as int);
    lemma_prod_in_bound(l.z, n.z, FX_ONE as int, MAT_BOUND as int);
    assert(65536 * 0x40000 <= 0x40000 * 65536) by (nonlinear_arith);
    lemma_dot_bound(l, n, FX_ONE as int, MAT_BOUND as int, 0x40000);
}

/// Product bounds for a reflection direction computed in the driver.
pub proof fn lemma_reflect_dir_bounds(l: V3, n: V3)
    requires
        l.bounded(FX_ONE as int),
        n.bounded(MAT_BOUND as int),
    ensures
        abs_i(l.x) * abs_i(n.x) <= crate::vector::DOT_PROD_BOUND,
        abs_i(l.y) * abs_i(n.y) <= crate::vector::DOT_PROD_BOUND,
        abs_i(l.z) * abs_i(n.z) <= crate::vector::DOT_PROD_BOUND,
        abs_i(dot_s(l, n)) <= 0xC0000,
{
    lemma_prod_in_bound(l.x, n.x, FX_ONE as int, MAT_BOUND as int);
    lemma_prod_in_bound(l.y, n.y, FX_ONE as int, MAT_BOUND as int);
    lemma_prod_in_bound(l.z, n.z, FX_ONE as int, MAT_BOUND as int);
    assert(65536 * 0x40000 <= 0x40000 * 65536) by (nonlinear_arith);
    lemma_dot_bound(l, n, FX_ONE as int, MAT_BOUND as int, 0x40000);
}

/// Product bounds for reflecting the shadow direction about the normal.
pub proof fn lemma_reflect_prods(n: V3, two_dln: int)
    requires
        n.bounded(MAT_BOUND as int),
        abs_i(two_dln) <= 0x180000,
    ensures
        abs_i(n.x) * abs_i(two_dln) <= crate::vector::DOT_PROD_BOUND,
        abs_i(n.y) * abs_i(two_dln) <= crate::vector::DOT_PROD_BOUND,
        abs_i(n.z) * abs_i(two_dln) <= crate::vector::DOT_PROD_BOUND,
        scale_s(n, two_dln).bounded(0x60_0000),
{
    lemma_prod_in_bound(n.x, two_dln, MAT_BOUND as int, 0x180000);
    lemma_prod_in_bound(n.y, two_dln, MAT_BOUND as int, 0x180000);
    lemma_prod_in_bound(n.z, two_dln, MAT_BOUND as int, 0x180000);
    assert(0x40000 * 0x180000 <= 0x60_0000 * 65536) by (nonlinear_arith);
    lemma_mul_fx_bound(n.x, two_dln, MAT_BOUND as int, 0x180000, 0x60_0000);
    lemma_mul_fx_bound(n.y, two_dln, MAT_BOUND as int, 0x180000, 0x60_0000);
    lemma_mul_fx_bound(n.z, two_dln, MAT_BOUND as int, 0x180000, 0x60_0000);
}

/// Product bounds for the reflected direction against the view direction.
proof fn lemma_reflect_dot_prods(rv: V3, v: V3)
    requires
        rv.bounded(0x61_0000),
        v.bounded(FX_ONE as int),
    ensures
        abs_i(rv.x) * abs_i(v.x) <= crate::vector::DOT_PROD_BOUND,
        abs_i(rv.y) * abs_i(v.y) <= crate::vector::DOT_PROD_BOUND,
        abs_i(rv.z) * abs_i(v.z) <= crate::vector::DOT_PROD_BOUND,
{
    lemma_prod_in_bound(rv.x, v.x, 0x61_0000, FX_ONE as int);
    lemma_prod_in_bound(rv.y, v.y, 0x61_0000, FX_ONE as int);
    lemma_prod_in_bound(rv.z, v.z, 0x61_0000, FX_ONE as int);
}

/// A unit-range color scaled by a bounded factor stays bounded by it.
proof fn lemma_rgb_unit_scale(c: C3, f: int, fb: int)
    requires
        c.in_unit(),
        abs_i(f) <= fb,
        0 <= fb,
    ensures
        rgb_mul_s(c, f).bounded(fb),
{
    assert(65536 * fb <= fb * 65536) by (nonlinear_arith);
    lemma_mul_fx_bound(c.r, f, FX_ONE as int, fb, fb);
    lemma_mul_fx_bound(c.g, f, FX_ONE as int, fb, fb);
    lemma_mul_fx_bound(c.b, f, FX_ONE as int, fb, fb);
}

} // verus!
