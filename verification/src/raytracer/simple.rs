//! The direct-lighting renderer: per-pixel sampling, shadow-ray-tested
//! Phong shading, and sequential or row-parallel execution over an 8-bit
//! output raster.

use vstd::prelude::*;
use rayon::iter::{IntoParallelIterator, ParallelIterator, IndexedParallelIterator};
use crate::fixed::{Fx, FX_ONE};
use crate::util::{Color, Rgb8, rgb_add, rgb_div, rgb_clamp_0_1, rgb_01_to_255, rgb_to_u8};
use crate::scene::{Scene, lights_of, scene_hit_s};
use crate::light::{Light, object_mat_wf};
use crate::camera::viewport_s;
use crate::ray::Ray;
use crate::vector::Vec3;
use crate::intersection::Intersection;
use crate::objects::object::{Object, object_hit_s, object_material_s, obj_geom_eq, inter_view};
use crate::objects::face::on_face_s;
use crate::vector::{V3, sub_s, dot_s};
use crate::ray::RayG;
use crate::raytracer::sampler::PixelSampler;

verus! {

/// Largest per-light contribution to one sample: the diffuse term's bound
/// plus a clamped specular term and, when bouncing, a clamped reflection.
pub const LIGHT_ENERGY_BOUND: i64 = 0xA_0000;

/// An 8-bit RGB raster in row-major order.
pub struct Image {
    pub width: u32,
    pub height: u32,
    pub pixels: Vec<Rgb8>,
}

impl Image {
    /// The backing store holds exactly one pixel per coordinate, and the
    /// dimensions leave every index within reach.
    pub open spec fn wf(self) -> bool {
        self.pixels@.len() == self.width as int * self.height as int && self.width <= 0x8000
            && self.height <= 0x8000
    }

    /// A black raster of the given dimensions.
    pub fn new(width: u32, height: u32) -> (r: Image)
        requires
            width <= 0x8000,
            height <= 0x8000,
        ensures
            r.wf(),
            r.width == width,
            r.height == height,
    {
        let mut pixels: Vec<Rgb8> = Vec::new();
        proof {
            assert(width as int * height as int <= 0x4000_0000) by (nonlinear_arith)
                requires
                    width <= 0x8000,
                    height <= 0x8000,
            ;
        }
        let total: usize = (width as usize) * (height as usize);
        while pixels.len() < total
            invariant
                pixels@.len() <= total,
            decreases total - pixels@.len(),
        {
            pixels.push(Rgb8 { r: 0, g: 0, b: 0 });
        }
        proof {
            assert(total == width as int * height as int);
        }
        Image { width, height, pixels }
    }

    /// The pixel at `(x, y)`.
    pub fn get_pixel(&self, x: u32, y: u32) -> (r: Rgb8)
        requires
            self.wf(),
            x < self.width,
            y < self.height,
        ensures
            r == self.pixels@[y as int * self.width as int + x as int],
    {
        proof {
            lemma_raster_index(self.width as int, self.height as int, x as int, y as int);
            assert(self.width as int * self.height as int <= 0x4000_0000) by (nonlinear_arith)
                requires
                    self.width <= 0x8000,
                    self.height <= 0x8000,
            ;
        }
        self.pixels[(y as usize) * (self.width as usize) + (x as usize)]
    }

    /// Replaces the pixel at `(x, y)`; every other pixel is kept.
    pub fn put_pixel(&mut self, x: u32, y: u32, p: Rgb8)
        requires
            old(self).wf(),
            x < old(self).width,
            y < old(self).height,
        ensures
            final(self).wf(),
            final(self).width == old(self).width,
            final(self).height == old(self).height,
            final(self).pixels@ == old(self).pixels@.update(
                y as int * old(self).width as int + x as int,
                p,
            ),
    {
        proof {
            lemma_raster_index(self.width as int, self.height as int, x as int, y as int);
            assert(self.width as int * self.height as int <= 0x4000_0000) by (nonlinear_arith)
                requires
                    self.width <= 0x8000,
                    self.height <= 0x8000,
            ;
        }
        let idx: usize = (y as usize) * (self.width as usize) + (x as usize);
        self.pixels.set(idx, p);
    }
}

/// A raster index stays within the store.
proof fn lemma_raster_index(w: int, h: int, x: int, y: int)
    requires
        0 <= x < w,
        0 <= y < h,
    ensures
        0 <= y * w + x < w * h,
{
    assert(0 <= y * w + x < w * h) by (nonlinear_arith)
        requires
            0 <= x < w,
            0 <= y < h;
}

/// Distinct raster coordinates use distinct store indices.
proof fn lemma_raster_distinct(w: int, x1: int, y1: int, x2: int, y2: int)
    requires
        0 <= x1 < w,
        0 <= x2 < w,
        0 <= y1,
        0 <= y2,
        !(x1 == x2 && y1 == y2),
    ensures
        y1 * w + x1 != y2 * w + x2,
{
    vstd::arithmetic::div_mod::lemma_fundamental_div_mod_converse(y1 * w + x1, w, y1, x1);
    vstd::arithmetic::div_mod::lemma_fundamental_div_mod_converse(y2 * w + x2, w, y2, x2);
}

/// Settings of the direct-lighting renderer: the sample density per pixel
/// axis.
pub struct SimpleSettings {
    pub n_samples: u32,
}

/// The direct-lighting ray tracer: no reflection bounces.
pub struct Simple<S: PixelSampler> {
    pub scene: Scene,
    pub settings: SimpleSettings,
    pub sampler: S,
}

/// A renderer producing the raster sequentially.
pub trait Renderer {
    /// When the scene and settings leave the arithmetic exact.
    spec fn render_wf(&self) -> bool;

    /// The output dimensions.
    spec fn render_dims(&self) -> (int, int);

    /// What raster pixel `(x, yi)` may hold.
    spec fn render_pixel_ok(&self, x: int, yi: int, p: Rgb8) -> bool;

    /// The full raster, traced pixel by pixel: every output pixel is an
    /// admissible tone-mapped trace of its own samples.
    fn render(&self) -> (img: Image)
        requires
            self.render_wf(),
        ensures
            img.wf(),
            img.width as int == self.render_dims().0,
            img.height as int == self.render_dims().1,
            forall|x: int, yi: int|
                0 <= x < img.width && 0 <= yi < img.height ==> #[trigger] self.render_pixel_ok(
                    x,
                    yi,
                    img.pixels@[yi * img.width as int + x],
                ),
    ;
}

/// A renderer distributing whole rows over worker threads.
pub trait ParallelRenderer {
    /// When the scene and settings leave the arithmetic exact.
    spec fn par_render_wf(&self) -> bool;

    /// The output dimensions.
    spec fn par_render_dims(&self) -> (int, int);

    /// What raster pixel `(x, yi)` may hold.
    spec fn par_render_pixel_ok(&self, x: int, yi: int, p: Rgb8) -> bool;

    /// The full raster; rows are computed independently and each is written
    /// whole, so the output does not depend on scheduling order, and every
    /// output pixel is an admissible tone-mapped trace of its own samples.
    fn render_parallel(&self) -> (img: Image)
        requires
            self.par_render_wf(),
        ensures
            img.wf(),
            img.width as int == self.par_render_dims().0,
            img.height as int == self.par_render_dims().1,
            forall|x: int, yi: int|
                0 <= x < img.width && 0 <= yi < img.height
                    ==> #[trigger] self.par_render_pixel_ok(
                    x,
                    yi,
                    img.pixels@[yi * img.width as int + x],
                ),
    ;
}

impl<S: PixelSampler> Simple<S> {
    /// Bounds under which every shading sum stays exact: a well-formed
    /// scene, a modest sample density, and a bounded light count.
    pub open spec fn wf(self) -> bool {
        &&& self.scene.wf()
        &&& 1 <= self.settings.n_samples <= 0x40
        &&& lights_of(self.scene.objects@).len() <= 0x400
    }

    pub fn new(scene: Scene, settings: SimpleSettings, sampler: S) -> (r: Simple<S>)
        ensures
            r.scene == scene,
            r.settings == settings,
    {
        Simple { scene, settings, sampler }
    }

    /// The shadow test toward one already-chosen target point `p`: its
    /// outcome is exactly `shadow_decision_s` — a hit if and only if `p`
    /// lies on the shaded point's lit side and the scene's closest hit
    /// along the ray toward `p` is, structurally, the target light.
    pub fn shadow_ray_toward<'s>(&'s self, inter: &Intersection<'s>, light: &Light, p: Vec3) -> (r:
        Option<Intersection<'s>>)
        requires
            self.scene.wf(),
            inter.position@.bounded(crate::ray::HIT_BOUND as int),
            inter.normal@.bounded(crate::transform::MAT_BOUND as int),
            p@.bounded(0x160_0000_0000),
        ensures
            shadow_outcome_matches(
                self.scene.objects@,
                inter.position@,
                inter.normal@,
                *light,
                p@,
                inter_view(r),
            ),
            r is Some ==> obj_geom_eq(*((r->0).object), Object::Light(*light)),
            r is Some ==> (r->0).distance@ >= 0,
            r is Some ==> (r->0).position@.bounded(crate::ray::HIT_BOUND as int),
    {
        shadow_toward(&self.scene, inter.position, inter.normal, light, p)
    }

    /// Casts a shadow ray from the hit toward a point drawn on the light's
    /// face: the result is the deterministic shadow decision for the drawn
    /// point — present iff the drawn point faces the lit side and the
    /// scene's closest hit toward it is, structurally, the target light.
    pub fn cast_shadow_ray<'s>(&'s self, inter: &Intersection<'s>, light: &Light) -> (r: Option<
        Intersection<'s>,
    >)
        requires
            self.scene.wf(),
            light.wf(),
            inter.position@.bounded(crate::ray::HIT_BOUND as int),
            inter.normal@.bounded(crate::transform::MAT_BOUND as int),
        ensures
            exists|p: V3|
                on_face_s(light.face, p) && #[trigger] shadow_outcome_matches(
                    self.scene.objects@,
                    inter.position@,
                    inter.normal@,
                    *light,
                    p,
                    inter_view(r),
                ),
            r is Some ==> obj_geom_eq(*((r->0).object), Object::Light(*light)),
            r is Some ==> (r->0).distance@ >= 0,
            r is Some ==> (r->0).position@.bounded(crate::ray::HIT_BOUND as int),
    {
        let p: Vec3 = light.random_on_face();
        proof {
            lemma_light_sample_in_world(*light, p@);
        }
        self.shadow_ray_toward(inter, light, p)
    }

    /// The radiance one camera ray carries back: exactly the background on
    /// a miss, a struck light's diffuse intensity, and for a struck surface
    /// the ambient color plus the shadow-tested contribution of every
    /// light, for the points drawn on the lights.
    pub fn ray_energy(&self, ray: &Ray) -> (c: Color)
        requires
            self.wf(),
            ray@.wf(),
        ensures
            energy_outcome_ok(self.scene, ray@, c@),
    {
        let ghost nl = lights_of(self.scene.objects@).len() as int;
        match self.scene.intersects(ray) {
            None => {
                proof {
                    lemma_energy_bound_mono(self.scene.bg@, nl);
                }
                self.scene.background()
            },
            Some(intersect) => {
                match intersect.object {
                    Object::Light(l) => {
                        proof {
                            lemma_light_mat_wf(*intersect.object, *l);
                            lemma_energy_bound_mono(l.material.diffuse_intensity@, nl);
                        }
                        l.light_material().diffuse_intensity
                    },
                    Object::Surface(_) => shade_surface_at(&self.scene, &intersect),
                }
            },
        }
    }

    /// One raster row of the scene, at scene row `y` (bottom-up): each
    /// column holds the tone-mapped average of its traced sample energies.
    pub fn render_row(&self, y: u32, width: u32) -> (row: Vec<Rgb8>)
        requires
            self.wf(),
            width as int == viewport_s(self.scene.camera).0,
            (y as int) < viewport_s(self.scene.camera).1,
        ensures
            row_ok(
                self.scene,
                self.settings.n_samples as int,
                width as int,
                y as int,
                row@,
            ),
    {
        let n: u32 = self.settings.n_samples;
        proof {
            assert(n * n <= 0x1000) by (nonlinear_arith)
                requires n <= 0x40;
        }
        let n2: Fx = Fx::of((n * n) as i32);
        let mut row: Vec<Rgb8> = Vec::new();
        let mut x: u32 = 0;
        let ghost nl = lights_of(self.scene.objects@).len() as int;
        while x < width
            invariant
                self.wf(),
                width as int == viewport_s(self.scene.camera).0,
                (y as int) < viewport_s(self.scene.camera).1,
                n == self.settings.n_samples,
                n2@ == n as int * n as int * FX_ONE,
                x <= width,
                row@.len() == x,
                nl == lights_of(self.scene.objects@).len(),
                forall|xq: int|
                    0 <= xq < x ==> pixel_sampled_ok(
                        self.scene,
                        n as int,
                        xq,
                        y as int,
                        #[trigger] row@[xq],
                    ),
            decreases width - x,
        {
            proof {
                lemma_camera_viewport_small(self.scene.camera);
            }
            let samples = self.sampler.samples((x, y), n);
            proof {
                assert(n * n <= 0x1000) by (nonlinear_arith)
                    requires n <= 0x40;
                assert(n2@ >= FX_ONE) by (nonlinear_arith)
                    requires
                        n2@ == n as int * n as int * FX_ONE,
                        n >= 1,
                ;
            }
            let mut energy: Color = Color::black();
            let ghost mut es: Seq<crate::util::C3> = Seq::empty();
            let mut k: usize = 0;
            proof {
                assert(energy@ == crate::raytracer::trace::sum_c3(es));
            }
            while k < samples.len()
                invariant
                    self.wf(),
                    nl == lights_of(self.scene.objects@).len(),
                    samples@.len() == n as int * n as int,
                    samples@.len() <= 0x1000,
                    n <= 0x40,
                    nl <= 0x400,
                    forall|q: int|
                        0 <= q < samples@.len() ==> crate::raytracer::sampler::sample_in_pixel(
                            #[trigger] samples@[q],
                            x as int,
                            y as int,
                        ),
                    (x as int) < viewport_s(self.scene.camera).0,
                    (y as int) < viewport_s(self.scene.camera).1,
                    k <= samples@.len(),
                    es.len() == k,
                    energy@ == crate::raytracer::trace::sum_c3(es),
                    forall|q: int|
                        0 <= q < k ==> sample_energy_ok(
                            self.scene,
                            samples@[q],
                            #[trigger] es[q],
                        ),
                    energy@.bounded(k * (FX_ONE + 0x400 * LIGHT_ENERGY_BOUND)),
                decreases samples@.len() - k,
            {
                let (sx, sy) = samples[k];
                proof {
                    lemma_sample_gives_ray(
                        self.scene.camera,
                        samples@[k as int],
                        x as int,
                        y as int,
                    );
                }
                let ray: Ray = self.scene.camera().pixel_ray((sx, sy)).unwrap();
                let e: Color = self.ray_energy(&ray);
                proof {
                    lemma_energy_step(energy@, e@, k as int, nl);
                    assert(es.push(e@).drop_last() =~= es);
                    es = es.push(e@);
                }
                energy = rgb_add(&energy, &e);
                k = k + 1;
            }
            proof {
                lemma_energy_total(energy@, samples@.len() as int);
            }
            let ghost sum = energy@;
            let avg: Color = rgb_div(&energy, n2);
            let clamped: Color = rgb_clamp_0_1(&avg);
            let shown: Color = crate::raytracer::trace::correct_gamma(&clamped);
            let p: Rgb8 = rgb_to_u8(&rgb_01_to_255(&shown));
            proof {
                assert(p == crate::raytracer::trace::finalize_px_s(
                    sum,
                    n as int * n as int,
                ));
                assert(samples@.len() == n as int * n as int && es.len() == n as int * n as int
                    && (forall|q: int|
                    0 <= q < samples@.len() ==> crate::raytracer::sampler::sample_in_pixel(
                        #[trigger] samples@[q],
                        x as int,
                        y as int,
                    ) && sample_energy_ok(self.scene, samples@[q], #[trigger] es[q])) && p
                    == crate::raytracer::trace::finalize_px_s(
                    crate::raytracer::trace::sum_c3(es),
                    n as int * n as int,
                ));
                reveal(pixel_sampled_ok);
                assert(pixel_sampled_ok(self.scene, n as int, x as int, y as int, p));
            }
            row.push(p);
            x = x + 1;
        }
        row
    }
}


/// The direct-lighting radiance at a surface hit, folded over the first
/// `k` scene lights: the surface's ambient color plus, for each light whose
/// shadow decision toward its drawn point `ps[j]` succeeds, the diffuse and
/// specular terms toward the decided hit point.
pub open spec fn surface_shading_s(
    s: Seq<Object>,
    hit_obj: Object,
    pos: V3,
    n: V3,
    eye: V3,
    ps: Seq<V3>,
    k: int,
) -> crate::util::C3
    decreases k,
{
    if k <= 0 {
        crate::material::material::ambient_s(object_material_s(hit_obj))
    } else {
        let prev = surface_shading_s(s, hit_obj, pos, n, eye, ps, k - 1);
        let light = lights_of(s)[k - 1];
        match shadow_decision_s(s, pos, n, light, ps[k - 1]) {
            Some((w, h)) => {
                let sdir = sub_s(h.0, pos);
                let m = object_material_s(hit_obj);
                crate::util::rgb_add_s(
                    crate::util::rgb_add_s(
                        crate::light::shade_diffuse_s(light.material, n, m, sdir),
                        crate::light::shade_specular_s(light.material, n, m, sdir, eye, pos),
                    ),
                    prev,
                )
            },
            None => prev,
        }
    }
}

/// The fold reads only the first `k` drawn points.
pub proof fn lemma_shading_prefix_pub(
    s: Seq<Object>,
    hit_obj: Object,
    pos: V3,
    n: V3,
    eye: V3,
    ps1: Seq<V3>,
    ps2: Seq<V3>,
    k: int,
)
    requires
        0 <= k <= ps1.len(),
        k <= ps2.len(),
        forall|j: int| 0 <= j < k ==> ps1[j] == ps2[j],
    ensures
        surface_shading_s(s, hit_obj, pos, n, eye, ps1, k) == surface_shading_s(
            s,
            hit_obj,
            pos,
            n,
            eye,
            ps2,
            k,
        ),
    decreases k,
{
    if k > 0 {
        lemma_shading_prefix_pub(s, hit_obj, pos, n, eye, ps1, ps2, k - 1);
    }
}

/// The surface case of a traced sample: there are drawn points, one on each
/// light's face, under which the color is exactly the shading fold.
pub open spec fn surface_outcome_s(
    s: Seq<Object>,
    hit_obj: Object,
    pos: V3,
    n: V3,
    eye: V3,
    c: crate::util::C3,
) -> bool {
    exists|ps: Seq<V3>|
        ps.len() == lights_of(s).len() && (forall|k: int|
            0 <= k < ps.len() ==> on_face_s(lights_of(s)[k].face, #[trigger] ps[k])) && c
            == surface_shading_s(s, hit_obj, pos, n, eye, ps, ps.len() as int)
}

/// What one direct-lighting sample may report for a ray: exactly the
/// background on a miss; a struck light's diffuse intensity; for a struck
/// surface, the shading fold over some admissible draws; and in every case
/// a bounded color.
pub open spec fn energy_outcome_ok(sc: Scene, r: RayG, c: crate::util::C3) -> bool {
    &&& (scene_hit_s(sc.objects@, r) is None ==> c == sc.bg@)
    &&& (scene_hit_s(sc.objects@, r) is Some ==> {
        let (w, h) = scene_hit_s(sc.objects@, r)->0;
        &&& (sc.objects@[w] matches Object::Light(l) ==> c == l.material.diffuse_intensity@)
        &&& (sc.objects@[w] is Surface ==> surface_outcome_s(
            sc.objects@,
            sc.objects@[w],
            h.0,
            h.2,
            crate::camera::eye_position_s(sc.camera),
            c,
        ))
    })
    &&& c.bounded(FX_ONE + lights_of(sc.objects@).len() * LIGHT_ENERGY_BOUND)
}

/// One traced sample of a pixel: the camera casts a ray for the sample
/// coordinate, and the energy is an admissible direct-lighting outcome for
/// that ray.
pub open spec fn sample_energy_ok(sc: Scene, smp: (Fx, Fx), c: crate::util::C3) -> bool {
    &&& crate::camera::pixel_ray_s(sc.camera, smp.0@, smp.1@) is Some
    &&& energy_outcome_ok(sc, crate::camera::pixel_ray_s(sc.camera, smp.0@, smp.1@)->0, c)
}

/// The content of one output pixel: there are n-squared sample coordinates
/// inside the pixel, and per-sample energies, each an admissible traced
/// outcome of the camera ray through its sample, such that the pixel is
/// exactly the tone-mapped average of those energies.
#[verifier::opaque]
pub open spec fn pixel_sampled_ok(sc: Scene, n: int, px: int, py: int, out: Rgb8) -> bool {
    exists|smp: Seq<(Fx, Fx)>, es: Seq<crate::util::C3>|
        smp.len() == n * n && es.len() == n * n && (forall|k: int|
            0 <= k < smp.len() ==> crate::raytracer::sampler::sample_in_pixel(
                #[trigger] smp[k],
                px,
                py,
            ) && sample_energy_ok(sc, smp[k], #[trigger] es[k])) && out
            == crate::raytracer::trace::finalize_px_s(
            crate::raytracer::trace::sum_c3(es),
            n * n,
        )
}

/// A whole output row for scene row `y`: one admissible pixel per column.
pub open spec fn row_ok(sc: Scene, n: int, width: int, y: int, row: Seq<Rgb8>) -> bool {
    row.len() == width && forall|x: int|
        0 <= x < width ==> pixel_sampled_ok(sc, n, x, y, #[trigger] row[x])
}

/// The deterministic outcome of a shadow test toward a target point `p`:
/// the scene's closest hit along the ray from `pos` to `p`, provided `p`
/// lies on the lit side of the surface normal and the struck object is,
/// structurally, the target light; otherwise nothing.
pub open spec fn shadow_decision_s(s: Seq<Object>, pos: V3, n: V3, light: Light, p: V3) -> Option<
    (int, (V3, int, V3)),
> {
    let dir = sub_s(p, pos);
    match scene_hit_s(s, RayG { origin: pos, dir }) {
        Some((w, h)) => if dot_s(n, dir) > 0 && obj_geom_eq(s[w], Object::Light(light)) {
            Some((w, h))
        } else {
            None
        },
        None => None,
    }
}

/// A reported shadow outcome carries exactly the decision's hit data, and
/// is absent exactly when the decision is.
pub open spec fn shadow_outcome_matches(
    s: Seq<Object>,
    pos: V3,
    n: V3,
    light: Light,
    p: V3,
    rv: Option<(V3, int, V3)>,
) -> bool {
    match shadow_decision_s(s, pos, n, light, p) {
        Some((w, h)) => rv == Some(h),
        None => rv is None,
    }
}

/// The shadow test toward a chosen point, from a shaded position with its
/// surface normal: the outcome is exactly `shadow_decision_s` for `p`.
pub fn shadow_toward<'s>(scene: &'s Scene, pos: Vec3, normal: Vec3, light: &Light, p: Vec3) -> (r:
    Option<Intersection<'s>>)
    requires
        scene.wf(),
        pos@.bounded(crate::ray::HIT_BOUND as int),
        normal@.bounded(crate::transform::MAT_BOUND as int),
        p@.bounded(0x160_0000_0000),
    ensures
        shadow_outcome_matches(scene.objects@, pos@, normal@, *light, p@, inter_view(r)),
        r is Some ==> obj_geom_eq(*((r->0).object), Object::Light(*light)),
        r is Some ==> (r->0).distance@ >= 0,
        r is Some ==> (r->0).position@.bounded(crate::ray::HIT_BOUND as int),
{
    let ray_direction = p.sub(pos);
    let shadow_ray = Ray::new(pos, ray_direction);
    proof {
        assert(shadow_ray@.wf());
    }
    match scene.intersects(&shadow_ray) {
        None => None,
        Some(hit) => {
            proof {
                assert(0x40000 * 0x2000_0000_0000 <= 0x1000_0000_0000_0000_0000)
                    by (nonlinear_arith);
                crate::transform::lemma_prod_in_bound(
                    normal@.x,
                    ray_direction@.x,
                    crate::transform::MAT_BOUND as int,
                    0x2000_0000_0000,
                );
                crate::transform::lemma_prod_in_bound(
                    normal@.y,
                    ray_direction@.y,
                    crate::transform::MAT_BOUND as int,
                    0x2000_0000_0000,
                );
                crate::transform::lemma_prod_in_bound(
                    normal@.z,
                    ray_direction@.z,
                    crate::transform::MAT_BOUND as int,
                    0x2000_0000_0000,
                );
            }
            let facing: Fx = normal.dot(ray_direction);
            let target: Object = Object::from_light(light.clone());
            if facing.raw > 0 && *hit.object == target {
                Some(hit)
            } else {
                None
            }
        },
    }
}

/// Direct lighting at a struck surface: the ambient color plus, for each
/// scene light, the shadow-tested diffuse and specular terms — exactly the
/// shading fold over the points drawn on the lights.
#[verifier::rlimit(100)]
pub fn shade_surface_at<'s>(scene: &'s Scene, intersect: &Intersection<'s>) -> (c: Color)
    requires
        scene.wf(),
        lights_of(scene.objects@).len() <= 0x400,
        (*intersect.object).wf(),
        intersect.normal@.bounded(crate::transform::MAT_BOUND as int),
        intersect.position@.bounded(crate::ray::HIT_BOUND as int),
    ensures
        surface_outcome_s(
            scene.objects@,
            *intersect.object,
            intersect.position@,
            intersect.normal@,
            crate::camera::eye_position_s(scene.camera),
            c@,
        ),
        c@.bounded(FX_ONE + lights_of(scene.objects@).len() * LIGHT_ENERGY_BOUND),
{
    let ghost s = scene.objects@;
    let ghost nl = lights_of(s).len() as int;
    proof {
        lemma_surface_mat_wf(*intersect.object);
        crate::scene::lemma_lights_of_wf(s);
    }
    let m = intersect.object.material();
    let mut pixel: Color = m.ambient_color();
    let lights = scene.lights();
    let eye = scene.camera().eye_position();
    let ghost mut ps: Seq<V3> = Seq::empty();
    let mut li: usize = 0;
    while li < lights.len()
        invariant
            scene.wf(),
            s == scene.objects@,
            lights@.len() == nl,
            nl == lights_of(s).len(),
            nl <= 0x400,
            forall|j: int| 0 <= j < lights@.len() ==> (*#[trigger] lights@[j]) == lights_of(s)[j],
            forall|j: int|
                0 <= j < lights_of(s).len() ==> (#[trigger] lights_of(s)[j]).wf(),
            li <= nl,
            ps.len() == li,
            forall|k: int| 0 <= k < li ==> on_face_s(lights_of(s)[k].face, #[trigger] ps[k]),
            pixel@ == surface_shading_s(
                s,
                *intersect.object,
                intersect.position@,
                intersect.normal@,
                eye@,
                ps,
                li as int,
            ),
            pixel@.bounded(FX_ONE + li * LIGHT_ENERGY_BOUND),
            object_mat_wf(*intersect.object),
            intersect.normal@.bounded(crate::transform::MAT_BOUND as int),
            intersect.position@.bounded(crate::ray::HIT_BOUND as int),
            eye@ == crate::camera::eye_position_s(scene.camera),
            eye@.bounded(crate::ray::RAY_BOUND as int),
        decreases nl - li,
    {
        let light: &Light = lights[li];
        proof {
            assert(0 <= li as int && (li as int) < lights_of(s).len());
            assert(*lights@[li as int] == lights_of(s)[li as int]);
            assert(lights_of(s)[li as int].wf());
        }
        let p: Vec3 = light.random_on_face();
        proof {
            lemma_light_sample_in_world(*light, p@);
        }
        let cand = shadow_toward(scene, intersect.position, intersect.normal, light, p);
        let ghost ps_old = ps;
        proof {
            ps = ps.push(p@);
            lemma_shading_prefix_pub(
                s,
                *intersect.object,
                intersect.position@,
                intersect.normal@,
                eye@,
                ps_old,
                ps,
                li as int,
            );
        }
        match cand {
            None => (),
            Some(shadow_hit) => {
                let shadow_ray = Ray::between(intersect.position, shadow_hit.position);
                let d: Color = light.shade_diffuse(intersect, &shadow_ray);
                let sp: Color = light.shade_specular(eye, intersect, &shadow_ray);
                proof {
                    lemma_energy_add_light(pixel@, d@, sp@, li as int, nl);
                }
                pixel = rgb_add(&rgb_add(&d, &sp), &pixel);
            },
        }
        li = li + 1;
    }
    pixel
}

/// Adding one light's direct terms keeps the running bound and the sums
/// within range.
proof fn lemma_energy_add_light(
    acc: crate::util::C3,
    d: crate::util::C3,
    sp: crate::util::C3,
    li: int,
    nl: int,
)
    requires
        acc.bounded(FX_ONE + li * LIGHT_ENERGY_BOUND),
        d.bounded(0x8_0000),
        sp.in_unit(),
        0 <= li < nl <= 0x400,
    ensures
        crate::util::rgb_add_s(crate::util::rgb_add_s(d, sp), acc).bounded(
            FX_ONE + (li + 1) * LIGHT_ENERGY_BOUND,
        ),
        acc.bounded(0x2000_0000_0000),
        crate::util::rgb_add_s(d, sp).bounded(0x2000_0000_0000),
{
    assert((li + 1) * LIGHT_ENERGY_BOUND == li * LIGHT_ENERGY_BOUND + LIGHT_ENERGY_BOUND)
        by (nonlinear_arith);
    assert(li * LIGHT_ENERGY_BOUND <= 0x400 * LIGHT_ENERGY_BOUND) by (nonlinear_arith)
        requires 0 <= li <= 0x400;
}

/// A well-formed object's nominal material is well-formed.
pub proof fn lemma_surface_mat_wf(o: Object)
    requires
        o.wf(),
    ensures
        object_mat_wf(o),
{
}

/// A struck light's intensities are within the unit range.
proof fn lemma_light_mat_wf(o: Object, l: Light)
    requires
        o.wf(),
        o == Object::Light(l),
    ensures
        l.material.diffuse_intensity@.in_unit(),
{
}

/// A unit-range color is within the energy bound for any light count.
proof fn lemma_energy_bound_mono(c: crate::util::C3, nl: int)
    requires
        c.in_unit() || c.bounded(FX_ONE as int),
        0 <= nl,
    ensures
        c.bounded(FX_ONE + nl * LIGHT_ENERGY_BOUND),
{
    assert(nl * LIGHT_ENERGY_BOUND >= 0) by (nonlinear_arith)
        requires nl >= 0;
}

/// Adding one light's contribution keeps the per-sample bound.
proof fn lemma_energy_final(c: crate::util::C3, li: int, nl: int)
    requires
        c.bounded(FX_ONE + li * LIGHT_ENERGY_BOUND),
        li == nl,
    ensures
        c.bounded(FX_ONE + nl * LIGHT_ENERGY_BOUND),
{
}

/// Accumulating one more sample keeps the running total bound.
proof fn lemma_energy_step(acc: crate::util::C3, e: crate::util::C3, k: int, nl: int)
    requires
        acc.bounded(k * (FX_ONE + 0x400 * LIGHT_ENERGY_BOUND)),
        e.bounded(FX_ONE + nl * LIGHT_ENERGY_BOUND),
        0 <= k <= 0x1000,
        0 <= nl <= 0x400,
    ensures
        e.bounded(FX_ONE + 0x400 * LIGHT_ENERGY_BOUND),
        crate::util::rgb_add_s(acc, e).bounded((k + 1) * (FX_ONE + 0x400 * LIGHT_ENERGY_BOUND)),
        acc.bounded(0x4000_0000_0000),
        e.bounded(0x4000_0000_0000),
    {
    assert(nl * LIGHT_ENERGY_BOUND <= 0x400 * LIGHT_ENERGY_BOUND) by (nonlinear_arith)
        requires 0 <= nl <= 0x400;
    assert((k + 1) * (FX_ONE + 0x400 * LIGHT_ENERGY_BOUND) == k * (FX_ONE + 0x400
        * LIGHT_ENERGY_BOUND) + (FX_ONE + 0x400 * LIGHT_ENERGY_BOUND)) by (nonlinear_arith);
    assert(k * (FX_ONE + 0x400 * LIGHT_ENERGY_BOUND) <= 0x1000 * (FX_ONE + 0x400
        * LIGHT_ENERGY_BOUND)) by (nonlinear_arith)
        requires 0 <= k <= 0x1000;
}

/// A full sample sum stays within the division bound.
proof fn lemma_energy_total(c: crate::util::C3, k: int)
    requires
        c.bounded(k * (FX_ONE + 0x400 * LIGHT_ENERGY_BOUND)),
        0 <= k <= 0x1000,
    ensures
        c.bounded(crate::fixed::FX_DIV_BOUND as int),
{
    assert(k * (FX_ONE + 0x400 * LIGHT_ENERGY_BOUND) <= 0x1000 * (FX_ONE + 0x400
        * LIGHT_ENERGY_BOUND)) by (nonlinear_arith)
        requires 0 <= k <= 0x1000;
}

/// A point sampled on a well-formed light's face is world-bounded.
pub proof fn lemma_light_sample_in_world(l: Light, p: crate::vector::V3)
    requires
        l.wf(),
        exists|lx: int, ly: int|
            crate::fixed::abs_i(lx) <= l.face.width@ / 2 && crate::fixed::abs_i(ly)
                <= l.face.height@ / 2 && p == crate::transform::apply_pt_s(
                l.face.transform@,
                crate::vector::V3 { x: lx, y: ly, z: 0 },
            ),
    ensures
        p.bounded(0x160_0000_0000),
{
    let (lx, ly) = choose|lx: int, ly: int|
        crate::fixed::abs_i(lx) <= l.face.width@ / 2 && crate::fixed::abs_i(ly) <= l.face.height@
            / 2 && p == crate::transform::apply_pt_s(
            l.face.transform@,
            crate::vector::V3 { x: lx, y: ly, z: 0 },
        );
    let local = crate::vector::V3 { x: lx, y: ly, z: 0 };
    assert(local.bounded(0x8_0000_0000));
    assert(0x40000 * 0x8_0000_0000 <= 0x20_0000_0000 * 65536) by (nonlinear_arith);
    crate::transform::lemma_apply_bound(
        l.face.transform@.rot,
        local,
        crate::transform::MAT_BOUND as int,
        0x8_0000_0000,
        0x20_0000_0000,
    );
}

/// A well-formed camera's viewport fits the sampler's pixel bounds.
pub proof fn lemma_camera_viewport_small(c: crate::camera::Camera)
    requires
        c.wf(),
    ensures
        viewport_s(c).0 <= 0x10000,
        viewport_s(c).1 <= 0x10000,
{
}

/// A sample inside a viewport pixel is a valid pixel-ray coordinate, and
/// the camera returns a ray for it.
pub proof fn lemma_sample_gives_ray(c: crate::camera::Camera, s: (Fx, Fx), px: int, py: int)
    requires
        c.wf(),
        crate::raytracer::sampler::sample_in_pixel(s, px, py),
        0 <= px < viewport_s(c).0,
        0 <= py < viewport_s(c).1,
    ensures
        crate::camera::pixel_ray_s(c, s.0@, s.1@) is Some,
{
    assert((px + 1) * FX_ONE <= viewport_s(c).0 * FX_ONE) by (nonlinear_arith)
        requires px + 1 <= viewport_s(c).0;
    assert((py + 1) * FX_ONE <= viewport_s(c).1 * FX_ONE) by (nonlinear_arith)
        requires py + 1 <= viewport_s(c).1;
    assert(px * FX_ONE >= 0) by (nonlinear_arith)
        requires px >= 0;
    assert(py * FX_ONE >= 0) by (nonlinear_arith)
        requires py >= 0;
    assert(viewport_s(c).0 * FX_ONE <= 0x10000 * 65536) by (nonlinear_arith)
        requires viewport_s(c).0 <= 0x10000;
    assert(viewport_s(c).1 * FX_ONE <= 0x10000 * 65536) by (nonlinear_arith)
        requires viewport_s(c).1 <= 0x10000;
}

impl<S: PixelSampler> Renderer for Simple<S> {
    open spec fn render_wf(&self) -> bool {
        self.wf()
    }

    open spec fn render_dims(&self) -> (int, int) {
        viewport_s(self.scene.camera)
    }

    open spec fn render_pixel_ok(&self, x: int, yi: int, p: Rgb8) -> bool {
        pixel_sampled_ok(
            self.scene,
            self.settings.n_samples as int,
            x,
            viewport_s(self.scene.camera).1 - 1 - yi,
            p,
        )
    }

    /// Trace every pixel, top raster row first; raster row `yi` shows scene
    /// row `height - 1 - yi`, so the image comes out upright.
    fn render(&self) -> (img: Image) {
        let (width, height) = self.scene.camera().viewport();
        proof {
            lemma_camera_viewport_small(self.scene.camera);
        }
        let mut img: Image = Image::new(width, height);
        let mut yi: u32 = 0;
        while yi < height
            invariant
                self.wf(),
                width as int == viewport_s(self.scene.camera).0,
                height as int == viewport_s(self.scene.camera).1,
                yi <= height,
                img.wf(),
                img.width == width,
                img.height == height,
                forall|xq: int, yq: int|
                    0 <= xq < width && 0 <= yq < yi ==> #[trigger] self.render_pixel_ok(
                        xq,
                        yq,
                        img.pixels@[yq * width as int + xq],
                    ),
            decreases height - yi,
        {
            let y: u32 = height - 1 - yi;
            let row: Vec<Rgb8> = self.render_row(y, width);
            let mut x: u32 = 0;
            while x < width
                invariant
                    self.wf(),
                    width as int == viewport_s(self.scene.camera).0,
                    height as int == viewport_s(self.scene.camera).1,
                    row_ok(
                        self.scene,
                        self.settings.n_samples as int,
                        width as int,
                        y as int,
                        row@,
                    ),
                    y == height - 1 - yi,
                    x <= width,
                    yi < height,
                    img.wf(),
                    img.width == width,
                    img.height == height,
                    forall|xq: int, yq: int|
                        0 <= xq < width && 0 <= yq < yi ==> #[trigger] self.render_pixel_ok(
                            xq,
                            yq,
                            img.pixels@[yq * width as int + xq],
                        ),
                    forall|xq: int|
                        0 <= xq < x ==> #[trigger] self.render_pixel_ok(
                            xq,
                            yi as int,
                            img.pixels@[yi as int * width as int + xq],
                        ),
                decreases width - x,
            {
                let ghost before = img.pixels@;
                img.put_pixel(x, yi, row[x as usize]);
                proof {
                    lemma_write_keeps_others(
                        before,
                        img.pixels@,
                        width as int,
                        height as int,
                        x as int,
                        yi as int,
                        row@[x as int],
                    );
                    assert(img.pixels@[yi as int * width as int + x as int] == row@[x as int]);
                    assert(pixel_sampled_ok(
                        self.scene,
                        self.settings.n_samples as int,
                        x as int,
                        y as int,
                        row@[x as int],
                    ));
                    assert(self.render_pixel_ok(
                        x as int,
                        yi as int,
                        img.pixels@[yi as int * width as int + x as int],
                    ));
                }
                x = x + 1;
            }
            yi = yi + 1;
        }
        img
    }
}

/// Writing one raster cell keeps every other cell.
pub proof fn lemma_write_keeps_others(
    before: Seq<Rgb8>,
    after: Seq<Rgb8>,
    w: int,
    h: int,
    x: int,
    y: int,
    p: Rgb8,
)
    requires
        0 <= x < w,
        0 <= y < h,
        before.len() == w * h,
        after == before.update(y * w + x, p),
    ensures
        after[y * w + x] == p,
        forall|xq: int, yq: int|
            0 <= xq < w && 0 <= yq < h && !(xq == x && yq == y) ==> #[trigger] after[yq * w + xq]
                == before[yq * w + xq],
{
    lemma_raster_index(w, h, x, y);
    assert forall|xq: int, yq: int|
        0 <= xq < w && 0 <= yq < h && !(xq == x && yq == y) implies #[trigger] after[yq * w + xq]
        == before[yq * w + xq] by {
        lemma_raster_index(w, h, xq, yq);
        lemma_raster_distinct(w, xq, yq, x, y);
    }
}

/// Renders every scene row on the worker pool, in row order.
///
/// Relies on rayon's `into_par_iter` / `map` / `collect` over a range: the
/// collected vector has one entry per row, in index order, each produced by
/// the verified `render_row`, whose contract supplies each row's content
/// clause `row_ok`.
#[verifier::external_body]
fn par_render_rows<S: PixelSampler + Sync>(tracer: &Simple<S>, width: u32, height: u32) -> (rows:
    Vec<Vec<Rgb8>>)
    requires
        tracer.wf(),
        width as int == viewport_s(tracer.scene.camera).0,
        (height as int) <= viewport_s(tracer.scene.camera).1,
    ensures
        rows@.len() == height,
        forall|y: int|
            0 <= y < rows@.len() ==> row_ok(
                tracer.scene,
                tracer.settings.n_samples as int,
                width as int,
                y,
                (#[trigger] rows@[y])@,
            ),
{
    (0..height).into_par_iter().map(|y| tracer.render_row(y, width)).collect()
}

impl<S: PixelSampler + Sync> ParallelRenderer for Simple<S> {
    open spec fn par_render_wf(&self) -> bool {
        self.wf()
    }

    open spec fn par_render_dims(&self) -> (int, int) {
        viewport_s(self.scene.camera)
    }

    open spec fn par_render_pixel_ok(&self, x: int, yi: int, p: Rgb8) -> bool {
        pixel_sampled_ok(
            self.scene,
            self.settings.n_samples as int,
            x,
            viewport_s(self.scene.camera).1 - 1 - yi,
            p,
        )
    }

    /// Trace rows in parallel, then write each completed row into the
    /// raster, flipped so the image comes out upright: raster row `yi`
    /// holds row vector `height - 1 - yi`, whatever order rows finished in.
    fn render_parallel(&self) -> (img: Image) {
        let (width, height) = self.scene.camera().viewport();
        proof {
            lemma_camera_viewport_small(self.scene.camera);
        }
        let rows: Vec<Vec<Rgb8>> = par_render_rows(self, width, height);
        let mut img: Image = Image::new(width, height);
        let mut y: u32 = 0;
        while y < height
            invariant
                self.wf(),
                width as int == viewport_s(self.scene.camera).0,
                height as int == viewport_s(self.scene.camera).1,
                rows@.len() == height,
                forall|q: int|
                    0 <= q < rows@.len() ==> row_ok(
                        self.scene,
                        self.settings.n_samples as int,
                        width as int,
                        q,
                        (#[trigger] rows@[q])@,
                    ),
                y <= height,
                img.wf(),
                img.width == width,
                img.height == height,
                forall|xq: int, yq: int|
                    0 <= xq < width && height - y <= yq < height
                        ==> #[trigger] self.par_render_pixel_ok(
                        xq,
                        yq,
                        img.pixels@[yq * width as int + xq],
                    ),
            decreases height - y,
        {
            let row: &Vec<Rgb8> = &rows[y as usize];
            let yi: u32 = height - 1 - y;
            let mut x: u32 = 0;
            while x < width
                invariant
                    self.wf(),
                    width as int == viewport_s(self.scene.camera).0,
                    height as int == viewport_s(self.scene.camera).1,
                    row_ok(
                        self.scene,
                        self.settings.n_samples as int,
                        width as int,
                        y as int,
                        row@,
                    ),
                    y < height,
                    yi == height - 1 - y,
                    x <= width,
                    img.wf(),
                    img.width == width,
                    img.height == height,
                    forall|xq: int, yq: int|
                        0 <= xq < width && height - y <= yq < height
                            ==> #[trigger] self.par_render_pixel_ok(
                            xq,
                            yq,
                            img.pixels@[yq * width as int + xq],
                        ),
                    forall|xq: int|
                        0 <= xq < x ==> #[trigger] self.par_render_pixel_ok(
                            xq,
                            yi as int,
                            img.pixels@[yi as int * width as int + xq],
                        ),
                decreases width - x,
            {
                let ghost before = img.pixels@;
                img.put_pixel(x, yi, row[x as usize]);
                proof {
                    lemma_write_keeps_others(
                        before,
                        img.pixels@,
                        width as int,
                        height as int,
                        x as int,
                        yi as int,
                        row@[x as int],
                    );
                    assert(img.pixels@[yi as int * width as int + x as int] == row@[x as int]);
                    assert(pixel_sampled_ok(
                        self.scene,
                        self.settings.n_samples as int,
                        x as int,
                        y as int,
                        row@[x as int],
                    ));
                    assert(self.par_render_pixel_ok(
                        x as int,
                        yi as int,
                        img.pixels@[yi as int * width as int + x as int],
                    ));
                }
                x = x + 1;
            }
            proof {
                assert forall|xq: int, yq: int|
                    0 <= xq < width && height - (y + 1) <= yq < height
                        implies #[trigger] self.par_render_pixel_ok(
                        xq,
                        yq,
                        img.pixels@[yq * width as int + xq],
                    ) by {
                    if yq == yi as int {
                        assert(self.par_render_pixel_ok(
                            xq,
                            yi as int,
                            img.pixels@[yi as int * width as int + xq],
                        ));
                    }
                }
            }
            y = y + 1;
        }
        img
    }
}

} // verus!
