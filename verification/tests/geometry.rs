//! Geometry tests: rays, faces, boxes, intersections, and the orthonormal
//! basis.

use rust_raytracer::fixed::{Fx, FX_ONE};
use rust_raytracer::vector::Vec3;
use rust_raytracer::transform::{Transform, Mat3};
use rust_raytracer::material::{Material, Simple};
use rust_raytracer::util::Color;
use rust_raytracer::objects::{Face, Object, Surface};
use rust_raytracer::objects::_box::Box as BoxShape;
use rust_raytracer::ray::Ray;
use rust_raytracer::intersection::{ray_face, ray_box, closest_intersection, Intersection};
use rust_raytracer::algebra::OrthoNormalBase;

fn fx(units: i32) -> Fx {
    Fx::of(units)
}

fn fxr(n: i32, d: i32) -> Fx {
    Fx::ratio(n, d)
}

fn red() -> Material {
    Material::from_simple(Simple::new(Color::new(fx(1), fx(0), fx(0))))
}

fn black() -> Material {
    Material::from_simple(Simple::new(Color::new(fx(0), fx(0), fx(0))))
}

fn translation(x: i32, y: i32, z: i32) -> Transform {
    Transform::new(Vec3::of(x, y, z), Vec3::of(0, 0, 0))
}

fn approx(a: Fx, b: Fx, tol: i64) -> bool {
    (a.raw - b.raw).abs() <= tol
}

fn approx_vec(a: Vec3, b: Vec3, tol: i64) -> bool {
    approx(a.x, b.x, tol) && approx(a.y, b.y, tol) && approx(a.z, b.z, tol)
}

#[test]
fn test_face_equality_ignores_material() {
    // structural identity is over the geometry: two faces that differ only
    // in their material compare equal, faces with different geometry do not
    let a = Face::new(fx(3), fx(1), Transform::identity(), red());
    let b = Face::new(fx(3), fx(1), Transform::identity(), black());
    assert!(a == b);
    let c = Face::new(fx(2), fx(1), Transform::identity(), red());
    assert!(a != c);
    let oa = Object::from_surface(Surface::from_face(a));
    let ob = Object::from_surface(Surface::from_face(b));
    assert!(oa == ob);
}

#[test]
fn test_new_ray() {
    let origin = Vec3::of(0, 0, 0);
    let direction = Vec3::of(0, 0, 1);
    let ray = Ray::new(origin, direction);
    assert!(ray.direction == direction);
    assert!(ray.origin == origin);
}

#[test]
fn face_test_new_face() {
    let w = fx(3);
    let h = fx(1);
    let m = Transform::identity();
    let mat = black();
    let f = Face::new(w, h, m, mat);
    assert!(f.width == w);
    assert!(f.height == h);
    assert!(f.transform == m);
}

#[test]
fn face_test_normal_untransformed_face() {
    let f = Face::new(fx(3), fx(1), Transform::identity(), red());
    let n = f.normal();
    assert!(n == Vec3::of(0, 0, 1));
}

#[test]
fn face_test_normal_rotated_face() {
    // quarter turn about Y carries local +Z onto +X
    let half_pi = Fx { raw: 102943 };
    let t = Transform::from_parts(
        Mat3::rotation(Vec3::of(0, 1, 0), half_pi),
        Vec3::of(0, 0, 0),
    );
    let f = Face::new(fx(3), fx(1), t, red());
    let n = f.normal();
    assert!(approx_vec(n, Vec3::of(1, 0, 0), 8));
}

#[test]
fn face_test_surface_intersects() {
    let f = Face::new(fx(3), fx(3), translation(0, 0, -5), black());
    let obj = Object::from_surface(Surface::from_face(f));
    let ray = Ray::new(Vec3::of(0, 0, 0), Vec3::of(0, 0, -1));
    let i_opt = obj.intersects(&ray);
    assert!(i_opt.is_some());
    let i = i_opt.unwrap();
    assert!(i.position == Vec3::of(0, 0, -5));
    assert!(i.distance == fx(5));
}

#[test]
fn face_test_surface_no_intersects() {
    let f = Face::new(fx(3), fx(3), translation(2, 0, -5), black());
    let obj = Object::from_surface(Surface::from_face(f));
    let ray = Ray::new(Vec3::of(0, 0, 0), Vec3::of(0, 0, -1));
    assert!(obj.intersects(&ray).is_none());
}

#[test]
fn test_surface_no_intersects_back() {
    // faces are two-sided: met from behind, the face still reports the hit
    let pi = Fx { raw: 205887 };
    let f = Face::new(
        fx(3),
        fx(3),
        Transform::new(Vec3::of(0, 0, -5), Vec3 { x: fx(0), y: pi, z: fx(0) }),
        black(),
    );
    let obj = Object::from_surface(Surface::from_face(f));
    let ray = Ray::new(Vec3::of(0, 0, 0), Vec3::of(0, 0, -1));
    let i_opt = obj.intersects(&ray);
    assert!(i_opt.is_some());
    assert!(approx(i_opt.unwrap().distance, fx(5), 8));
}

#[test]
fn test_random_on_face() {
    let f = Face::new(fx(3), fx(1), Transform::identity(), red());
    let p = f.random_on_face();
    assert!(
        fxr(-3, 2).raw <= p.x.raw
            && p.x.raw <= fxr(3, 2).raw
            && fxr(-1, 2).raw <= p.y.raw
            && p.y.raw <= fxr(1, 2).raw
            && p.z.raw == 0
    );
}

#[test]
fn test_random_on_face_transformed() {
    let f = Face::new(
        fx(3),
        fx(1),
        Transform::new(Vec3::of(0, 0, -5), Vec3 { x: fx(0), y: fx(0), z: Fx { raw: 45875 } }),
        red(),
    );
    let p = f.random_on_face();
    let ray = Ray::between(Vec3::of(0, 0, 0), p);
    let inter_opt = ray_face(&ray, &f);
    assert!(inter_opt.is_some());
    let (pos, _d, _n) = inter_opt.unwrap();
    assert!(approx_vec(pos, p, 64));
}

#[test]
fn test_new_intersection() {
    let pos = Vec3::of(0, 0, 0);
    let d = fx(5);
    let f = Face::new(fx(1), fx(1), Transform::identity(), black());
    let n = f.normal();
    let obj = Object::from_surface(Surface::from_face(f));
    let i = Intersection::new(pos, d, n, &obj);
    assert!(i.position == pos);
    assert!(i.distance == d);
}

#[test]
fn test_ray_face_intersects() {
    let f = Face::new(fx(3), fx(3), translation(0, 0, -5), black());
    let i_opt = ray_face(&Ray::new(Vec3::of(0, 0, 0), Vec3::of(0, 0, -1)), &f);
    assert!(i_opt.is_some());
    let (pos, dist, _n) = i_opt.unwrap();
    assert!(pos == Vec3::of(0, 0, -5));
    assert!(dist == fx(5));
}

#[test]
fn test_face_no_intersects() {
    let f = Face::new(fx(3), fx(3), translation(2, 0, -5), black());
    let i_opt = ray_face(&Ray::new(Vec3::of(0, 0, 0), Vec3::of(0, 0, -1)), &f);
    assert!(i_opt.is_none());
}

#[test]
fn test_face_no_intersects_back() {
    // two-sided faces: a back-side crossing is still a geometric hit
    let pi = Fx { raw: 205887 };
    let f = Face::new(
        fx(3),
        fx(3),
        Transform::new(Vec3::of(0, 0, -5), Vec3 { x: fx(0), y: pi, z: fx(0) }),
        black(),
    );
    let i_opt = ray_face(&Ray::new(Vec3::of(0, 0, 0), Vec3::of(0, 0, -1)), &f);
    assert!(i_opt.is_some());
}

#[test]
fn test_parallel_ray_misses() {
    // a ray running inside the face's plane direction never hits
    let f = Face::new(fx(3), fx(3), translation(0, 0, -5), black());
    let i_opt = ray_face(&Ray::new(Vec3::of(0, 0, 0), Vec3::of(1, 0, 0)), &f);
    assert!(i_opt.is_none());
}

#[test]
fn test_behind_origin_misses() {
    // the face sits behind the ray: the plane parameter is negative
    let f = Face::new(fx(3), fx(3), translation(0, 0, 5), black());
    let i_opt = ray_face(&Ray::new(Vec3::of(0, 0, 0), Vec3::of(0, 0, -1)), &f);
    assert!(i_opt.is_none());
}

#[test]
fn test_ray_box_intersects_straight() {
    let b = BoxShape::new(Vec3::of(1, 1, 1), translation(0, 0, 5), red());
    let ray = Ray::new(Vec3::of(0, 0, 0), Vec3::of(0, 0, 1));
    let inter_opt = ray_box(&ray, &b);
    assert!(inter_opt.is_some());
    let (pos, dist, _n) = inter_opt.unwrap();
    assert!(pos == Vec3::new(fx(0), fx(0), fxr(9, 2)));
    assert!(dist == fxr(9, 2));
}

#[test]
fn test_ray_box_intersects_translated() {
    let b = BoxShape::new(Vec3::of(1, 1, 1), translation(5, 5, 5), red());
    let ray = Ray::new(Vec3::of(5, 5, 0), Vec3::of(0, 0, 1));
    let inter_opt = ray_box(&ray, &b);
    assert!(inter_opt.is_some());
    let (pos, dist, _n) = inter_opt.unwrap();
    assert!(pos == Vec3::new(fx(5), fx(5), fxr(9, 2)));
    assert!(dist == fxr(9, 2));
}

#[test]
fn test_ray_box_none_iff_all_faces_miss() {
    let b = BoxShape::new(Vec3::of(1, 1, 1), translation(0, 0, 5), red());
    let away = Ray::new(Vec3::of(0, 0, 0), Vec3::of(0, 0, -1));
    assert!(ray_box(&away, &b).is_none());
    assert!(ray_face(&away, &b.top).is_none());
    assert!(ray_face(&away, &b.bottom).is_none());
    assert!(ray_face(&away, &b.left).is_none());
    assert!(ray_face(&away, &b.right).is_none());
    assert!(ray_face(&away, &b.front).is_none());
    assert!(ray_face(&away, &b.back).is_none());
    // a hit is no closer than the best per-face hit
    let toward = Ray::new(Vec3::of(0, 0, 0), Vec3::of(0, 0, 1));
    let hit = ray_box(&toward, &b).unwrap();
    let back_hit = ray_face(&toward, &b.back).unwrap();
    assert!(hit.1.raw <= back_hit.1.raw);
}

#[test]
fn test_closest_intersection_three_records() {
    let f = Face::new(fx(1), fx(1), Transform::identity(), black());
    let n = f.normal();
    let obj = Object::from_surface(Surface::from_face(f));
    let mk = |d: Fx| Intersection::new(Vec3::of(0, 0, 0), d, n, &obj);
    let hits = vec![mk(fx(7)), mk(fx(2)), mk(fx(5))];
    let best = closest_intersection(hits).unwrap();
    assert!(best.distance == fx(2));
    let empty: Vec<Intersection> = vec![];
    assert!(closest_intersection(empty).is_none());
}

#[test]
fn test_onb_from_u() {
    let onb = OrthoNormalBase::from_u(Vec3::of(1, 0, 0));
    assert!(is_normalized(&onb));
    assert!(is_orthogonal(&onb));
}

#[test]
fn test_onb_from_v() {
    let onb = OrthoNormalBase::from_v(Vec3::of(1, 0, 0));
    assert!(is_normalized(&onb));
    assert!(is_orthogonal(&onb));
}

#[test]
fn test_onb_from_w() {
    let onb = OrthoNormalBase::from_w(Vec3::of(1, 0, 0));
    assert!(is_normalized(&onb));
    assert!(is_orthogonal(&onb));
}

fn norm_raw(v: Vec3) -> i64 {
    let xx = (v.x.raw as i128) * (v.x.raw as i128);
    let yy = (v.y.raw as i128) * (v.y.raw as i128);
    let zz = (v.z.raw as i128) * (v.z.raw as i128);
    ((((xx + yy + zz) as f64).sqrt()) as i64)
}

fn is_normalized(onb: &OrthoNormalBase) -> bool {
    (norm_raw(onb.u()) - FX_ONE).abs() <= 8 && (norm_raw(onb.v()) - FX_ONE).abs() <= 8
        && (norm_raw(onb.w()) - FX_ONE).abs() <= 8
}

fn is_orthogonal(onb: &OrthoNormalBase) -> bool {
    approx_vec(onb.u().cross(onb.v()), onb.w(), 8)
        && approx_vec(onb.v().cross(onb.w()), onb.u(), 8)
        && approx_vec(onb.w().cross(onb.u()), onb.v(), 8)
}
