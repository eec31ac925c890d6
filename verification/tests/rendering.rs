//! Camera, sampler, scene, shading and renderer tests.

use rust_raytracer::fixed::{Fx, FX_ONE};
use rust_raytracer::vector::Vec3;
use rust_raytracer::transform::Transform;
use rust_raytracer::material::{LightMaterial, Material, Phong, Simple};
use rust_raytracer::util::Color;
use rust_raytracer::objects::{Face, Object, Surface};
use rust_raytracer::ray::Ray;
use rust_raytracer::light::Light;
use rust_raytracer::scene::Scene;
use rust_raytracer::camera::{Camera, Orthographic, Perspective};
use rust_raytracer::raytracer::{PixelSampler, Uniform, Jittered, Random};
use rust_raytracer::raytracer::{Simple as SimpleTracer, SimpleSettings, Renderer, ParallelRenderer};
use rust_raytracer::raytracer::trace;
use rust_raytracer::intersection::Intersection;

const HALF_PI: i64 = 102943;
const PI_RAW: i64 = 205887;

fn fx(units: i32) -> Fx {
    Fx::of(units)
}

fn fxr(n: i32, d: i32) -> Fx {
    Fx::ratio(n, d)
}

fn approx(a: i64, b: i64, tol: i64) -> bool {
    (a - b).abs() <= tol
}

fn gray(v: Fx) -> Color {
    Color::new(v, v, v)
}

#[test]
fn orthographic_test_new_camera() {
    let transform = Transform::identity();
    let cam = Orthographic::new((800, 600), (fx(100), fx(100)), transform);
    assert!(cam.viewport() == (800, 600));
    assert!(cam.transform == transform);
}

#[test]
fn orthographic_test_pixel_ray_bottom_left() {
    let cam = Orthographic::new((800, 600), (fx(100), fx(100)), Transform::identity());
    let ray_opt = cam.pixel_ray((fx(0), fx(0)));
    assert!(ray_opt.is_some());
    let ray = ray_opt.unwrap();
    assert!(ray.origin == Vec3::of(-50, -50, 0));
    assert!(ray.direction == Vec3::of(0, 0, 1));
}

#[test]
fn orthographic_test_pixel_ray_top_right() {
    let cam = Orthographic::new((800, 600), (fx(100), fx(100)), Transform::identity());
    let ray_opt = cam.pixel_ray((fx(799), fx(599)));
    assert!(ray_opt.is_some());
    let ray = ray_opt.unwrap();
    assert!(ray.origin == Vec3::of(50, 50, 0));
    assert!(ray.direction == Vec3::of(0, 0, 1));
}

#[test]
fn perspective_test_pixel_ray_bottom_left() {
    let fov = Fx { raw: HALF_PI };
    let cam = Perspective::new((800, 600), (fov, fov), Transform::identity());
    let ray_opt = cam.pixel_ray((fx(0), fx(0)));
    let ray = ray_opt.unwrap();
    assert!(ray.origin == Vec3::of(0, 0, 0));
    // tan(-pi/4) is -1: the direction is normalize((-1, -1, -1))
    let e = 37837i64;
    assert!(approx(ray.direction.x.raw, -e, 96));
    assert!(approx(ray.direction.y.raw, -e, 96));
    assert!(approx(ray.direction.z.raw, -e, 96));
}

#[test]
fn perspective_test_pixel_ray_top_right() {
    let fov = Fx { raw: HALF_PI };
    let cam = Perspective::new((800, 600), (fov, fov), Transform::identity());
    let ray_opt = cam.pixel_ray((fx(799), fx(599)));
    let ray = ray_opt.unwrap();
    assert!(ray.origin == Vec3::of(0, 0, 0));
    let e = 37837i64;
    assert!(approx(ray.direction.x.raw, e, 96));
    assert!(approx(ray.direction.y.raw, e, 96));
    assert!(approx(ray.direction.z.raw, -e, 96));
}

fn sampler_in_range<S: PixelSampler>(sampler: S) {
    let samples = sampler.samples((10, 10), 3);
    assert!(samples.len() == 9);
    for (x, y) in samples {
        assert!(fx(10).raw <= x.raw && x.raw < fx(11).raw);
        assert!(fx(10).raw <= y.raw && y.raw < fx(11).raw);
    }
}

#[test]
fn test_random_sampler_in_range() {
    sampler_in_range(Random);
}

#[test]
fn test_jittered_sampler_in_range() {
    sampler_in_range(Jittered);
}

#[test]
fn test_uniform_sampler_in_range() {
    sampler_in_range(Uniform);
}

#[test]
fn test_jittered_sampler_stratified() {
    // sample k of the 3x3 grid lies inside cell (k / 3, k % 3)
    let n: i64 = 3;
    let samples = Jittered.samples((4, 7), n as u32);
    assert!(samples.len() == 9);
    for (k, (sx, sy)) in samples.iter().enumerate() {
        let i = (k as i64) / n;
        let j = (k as i64) % n;
        let off_x = sx.raw - 4 * FX_ONE;
        let off_y = sy.raw - 7 * FX_ONE;
        assert!(i * FX_ONE / n <= off_x && off_x < (i + 1) * FX_ONE / n + 1);
        assert!(j * FX_ONE / n <= off_y && off_y < (j + 1) * FX_ONE / n + 1);
    }
}

#[test]
fn test_uniform_sampler_exact_centers() {
    // n = 2: offsets are 1/4 and 3/4 of the pixel
    let samples = Uniform.samples((1, 2), 2);
    assert!(samples.len() == 4);
    assert!(samples[0].0.raw == FX_ONE + FX_ONE / 4);
    assert!(samples[0].1.raw == 2 * FX_ONE + FX_ONE / 4);
    assert!(samples[3].0.raw == FX_ONE + 3 * FX_ONE / 4);
    assert!(samples[3].1.raw == 2 * FX_ONE + 3 * FX_ONE / 4);
}

#[test]
fn test_new_scene() {
    let c = gray(fxr(3, 10));
    let cam = Orthographic::new((800, 600), (fx(100), fx(100)), Transform::identity());
    let scene = Scene::new(c, vec![], Camera::from_orthographic(cam));
    assert!(scene.background() == c);
}

/// A flat red face straight ahead: the centered ray paints it red, a ray
/// past its edge paints the background.
#[test]
fn test_flat_face_scenario() {
    let red = Material::from_simple(Simple::new(Color::new(fx(1), fx(0), fx(0))));
    let face = Face::new(
        fx(3),
        fx(3),
        Transform::new(Vec3::of(0, 0, -5), Vec3::of(0, 0, 0)),
        red,
    );
    let cam = Orthographic::new(
        (2, 2),
        (fx(8), fx(8)),
        Transform::new(Vec3::of(0, 0, 0), Vec3 { x: fx(0), y: Fx { raw: PI_RAW }, z: fx(0) }),
    );
    let scene = Scene::new(
        gray(fxr(3, 10)),
        vec![Object::from_surface(Surface::from_face(face))],
        Camera::from_orthographic(cam),
    );
    let tracer = SimpleTracer::new(scene, SimpleSettings { n_samples: 1 }, Uniform);
    let img = tracer.render();
    assert!(img.width == 2 && img.height == 2);
    // scene pixel (0, 0) sits at the view center and lands on raster row 1
    let center = img.get_pixel(0, 1);
    assert!(center.r == 255 && center.g == 0 && center.b == 0);
    // scene pixel (1, 1) aims past the face: the 0.3 background, which the
    // display encoding brightens to 148 of 255
    let off = img.get_pixel(1, 0);
    assert!(off.r == 148 && off.g == 148 && off.b == 148);
}

fn shadow_fixture(with_blocker: bool) -> Scene {
    let gray_mat = Material::from_phong(Phong::new(
        gray(fxr(1, 10)),
        gray(fxr(1, 2)),
        gray(fxr(1, 2)),
        2,
    ));
    // floor at the origin, facing +Y
    let floor = Face::new(
        fx(10),
        fx(10),
        Transform::new(Vec3::of(0, 0, 0), Vec3 { x: Fx { raw: -HALF_PI }, y: fx(0), z: fx(0) }),
        gray_mat,
    );
    // light overhead, its face aimed down
    let light = Light::new(
        Face::new(
            fx(1),
            fx(1),
            Transform::new(Vec3::of(0, 5, 0), Vec3 { x: Fx { raw: HALF_PI }, y: fx(0), z: fx(0) }),
            gray_mat,
        ),
        LightMaterial::new(gray(fx(1)), gray(fx(1))),
    );
    let mut objects = vec![
        Object::from_surface(Surface::from_face(floor)),
        Object::from_light(light),
    ];
    if with_blocker {
        let blocker = Face::new(
            fx(2),
            fx(2),
            Transform::new(
                Vec3::of(0, 2, 0),
                Vec3 { x: Fx { raw: -HALF_PI }, y: fx(0), z: fx(0) },
            ),
            gray_mat,
        );
        objects.push(Object::from_surface(Surface::from_face(blocker)));
    }
    let cam = Orthographic::new(
        (2, 2),
        (fx(4), fx(4)),
        Transform::new(Vec3::of(0, 1, 0), Vec3::of(0, 0, 0)),
    );
    Scene::new(gray(fx(0)), objects, Camera::from_orthographic(cam))
}

/// A surface between the lit point and the light blocks its contribution;
/// a clear path yields it.
#[test]
fn test_shadow_blocking() {
    let blocked = shadow_fixture(true);
    let tracer = SimpleTracer::new(blocked, SimpleSettings { n_samples: 1 }, Uniform);
    let inter_obj = tracer.scene.objects[0];
    // a touch above the floor, as a real hit point would be after rounding
    let inter = Intersection::new(
        Vec3::new(fx(0), Fx { raw: 64 }, fx(0)),
        fx(1),
        Vec3::of(0, 1, 0),
        &inter_obj,
    );
    let light = match &tracer.scene.objects[1] {
        Object::Light(l) => l.clone(),
        _ => unreachable!(),
    };
    assert!(tracer.cast_shadow_ray(&inter, &light).is_none());

    let clear = shadow_fixture(false);
    let tracer2 = SimpleTracer::new(clear, SimpleSettings { n_samples: 1 }, Uniform);
    let inter_obj2 = tracer2.scene.objects[0];
    let inter2 = Intersection::new(
        Vec3::new(fx(0), Fx { raw: 64 }, fx(0)),
        fx(1),
        Vec3::of(0, 1, 0),
        &inter_obj2,
    );
    let light2 = match &tracer2.scene.objects[1] {
        Object::Light(l) => l.clone(),
        _ => unreachable!(),
    };
    let reached = tracer2.cast_shadow_ray(&inter2, &light2);
    assert!(reached.is_some());
    let hit = reached.unwrap();
    assert!(*hit.object == Object::from_light(light2.clone()));
    // with the light straight overhead the diffuse term is
    // intensity * (1/pi) * diffuse_color, about 0.159 per channel
    let shadow_ray = Ray::between(inter2.position, hit.position);
    let d = light2.shade_diffuse(&inter2, &shadow_ray);
    assert!(approx(d.r.raw, 10430, 64));
    assert!(approx(d.g.raw, 10430, 64));
    assert!(approx(d.b.raw, 10430, 64));
    let s = light2.shade_specular(fx_eye(), &inter2, &shadow_ray);
    assert!(s.r.raw >= 0 && s.r.raw <= FX_ONE);
}

fn fx_eye() -> Vec3 {
    Vec3::of(0, 1, 0)
}

/// Sequential and parallel rendering of one scene agree in mean brightness.
#[test]
fn test_parallel_matches_sequential() {
    let scene_a = shadow_fixture(false);
    let tracer_a = SimpleTracer::new(scene_a, SimpleSettings { n_samples: 3 }, Uniform);
    let seq = tracer_a.render();
    let scene_b = shadow_fixture(false);
    let tracer_b = SimpleTracer::new(scene_b, SimpleSettings { n_samples: 3 }, Uniform);
    let par = tracer_b.render_parallel();
    assert!(seq.width == par.width && seq.height == par.height);
    let mean = |img: &rust_raytracer::raytracer::Image| -> i64 {
        let mut sum: i64 = 0;
        for p in &img.pixels {
            sum += p.r as i64 + p.g as i64 + p.b as i64;
        }
        sum / (img.pixels.len() as i64)
    };
    assert!((mean(&seq) - mean(&par)).abs() <= 12);
}

/// The gamma-corrected driver produces a full raster of the right shape.
#[test]
fn test_trace_render_dims() {
    let scene = shadow_fixture(false);
    let img = trace::render(&scene, 1, 1);
    assert!(img.width == 2 && img.height == 2);
}

/// Gamma encoding: exact values at the ends, the linear segment, and
/// monotonicity over a sweep.
#[test]
fn test_gamma_values_and_monotone() {
    assert!(trace::gamma_channel(fx(0)).raw == 0);
    assert!(trace::gamma_channel(fx(1)).raw == FX_ONE);
    // linear segment: 100/65536 * 12.92 = 1291 raw (truncated)
    assert!(trace::gamma_channel(Fx { raw: 100 }).raw == 1291);
    let mut prev: i64 = -1;
    let mut c: i64 = 0;
    while c <= FX_ONE {
        let e = trace::gamma_channel(Fx { raw: c }).raw;
        assert!(e >= prev);
        prev = e;
        c += 97;
    }
}

/// Correct_gamma maps midtones up: 0.5 encodes near 0.735.
#[test]
fn test_correct_gamma_midtone() {
    let e = trace::correct_gamma(&gray(fxr(1, 2)));
    assert!(approx(e.r.raw, 48183, 200));
}

/// Decoding an encoded channel recovers it within the root resolution.
#[test]
fn test_gamma_round_trip() {
    let mut c: i64 = 0;
    while c <= FX_ONE {
        let e = trace::gamma_channel(Fx { raw: c });
        let back = trace::gamma_decode_channel(e);
        assert!(approx(back.raw, c, 512));
        c += 311;
    }
    let one = trace::gamma_decode_channel(trace::gamma_channel(fx(1)));
    assert!(one.raw == FX_ONE);
}
