//! Hit records, the ray-face and ray-box tests, and closest-hit resolution.

use vstd::prelude::*;
use crate::fixed::Fx;
use crate::vector::{Vec3, V3};
use crate::ray::{Ray, RayG, ray_face_s, face_normal_s};
use crate::objects::face::{Face, FaceG};
use crate::objects::_box::Box;
use crate::objects::object::Object;

verus! {

/// A hit: where a ray met geometry, how far along, the surface normal
/// there, and which object was struck.
#[derive(Clone, Copy)]
pub struct Intersection<'a> {
    pub position: Vec3,
    pub distance: Fx,
    pub normal: Vec3,
    pub object: &'a Object,
}

impl<'a> Intersection<'a> {
    pub fn new(position: Vec3, distance: Fx, normal: Vec3, object: &'a Object) -> (r:
        Intersection<'a>)
        ensures
            r.position == position,
            r.distance == distance,
            r.normal == normal,
            r.object == object,
    {
        Intersection { position, distance, normal, object }
    }
}

/// A raw hit: world position, distance, surface normal.
pub type HitRecord = (Vec3, Fx, Vec3);

/// The ray-face hit together with the face normal.
pub open spec fn hit3_s(r: RayG, f: FaceG) -> Option<(V3, int, V3)> {
    match ray_face_s(r, f) {
        Some(pd) => Some((pd.0, pd.1, face_normal_s(f))),
        None => None,
    }
}

/// An optional raw hit seen at the specification level.
pub open spec fn hit3_view(o: Option<HitRecord>) -> Option<(V3, int, V3)> {
    match o {
        Some(h) => Some((h.0@, h.1@, h.2@)),
        None => None,
    }
}

/// Where the ray meets the face, if it does: position, distance, normal.
pub fn ray_face(ray: &Ray, face: &Face) -> (r: Option<HitRecord>)
    requires
        ray@.wf(),
        face.wf(),
    ensures
        hit3_view(r) == hit3_s(ray@, face.geom()),
{
    match ray.intersects_face(face) {
        Some((p, d)) => Some((p, d, face.normal())),
        None => None,
    }
}

/// The closer of two optional hits; on a tie, and when the second is
/// absent, the first wins.
pub open spec fn closer_hit_s(a: Option<(V3, int, V3)>, b: Option<(V3, int, V3)>) -> Option<
    (V3, int, V3),
> {
    match (a, b) {
        (None, _) => b,
        (Some(x), None) => a,
        (Some(x), Some(y)) => if y.1 < x.1 {
            b
        } else {
            a
        },
    }
}

/// The closest of the box's six face hits, folded in a fixed order.
pub open spec fn ray_box_s(r: RayG, b: Box) -> Option<(V3, int, V3)> {
    closer_hit_s(
        closer_hit_s(
            closer_hit_s(
                closer_hit_s(
                    closer_hit_s(hit3_s(r, b.top.geom()), hit3_s(r, b.bottom.geom())),
                    hit3_s(r, b.left.geom()),
                ),
                hit3_s(r, b.right.geom()),
            ),
            hit3_s(r, b.front.geom()),
        ),
        hit3_s(r, b.back.geom()),
    )
}

/// The closer of two optional raw hits.
fn merge_hit(a: Option<HitRecord>, b: Option<HitRecord>) -> (r: Option<HitRecord>)
    ensures
        hit3_view(r) == closer_hit_s(hit3_view(a), hit3_view(b)),
{
    match (a, b) {
        (None, _) => b,
        (Some(x), None) => Some(x),
        (Some(x), Some(y)) => if y.1.raw < x.1.raw {
            Some(y)
        } else {
            Some(x)
        },
    }
}

/// Where the ray first meets the box: each of the six derived faces is
/// tested and the closest hit wins. No hit on any face means no hit.
pub fn ray_box(ray: &Ray, _box: &Box) -> (r: Option<HitRecord>)
    requires
        ray@.wf(),
        _box.wf(),
    ensures
        hit3_view(r) == ray_box_s(ray@, *_box),
{
    let mut best: Option<HitRecord> = ray_face(ray, &_box.top);
    best = merge_hit(best, ray_face(ray, &_box.bottom));
    best = merge_hit(best, ray_face(ray, &_box.left));
    best = merge_hit(best, ray_face(ray, &_box.right));
    best = merge_hit(best, ray_face(ray, &_box.front));
    best = merge_hit(best, ray_face(ray, &_box.back));
    best
}

/// The box test agrees with the six face tests: it reports nothing exactly
/// when all six faces report nothing, and a reported hit is one of the six
/// face hits, never farther than any of them.
pub proof fn lemma_ray_box_min(r: RayG, b: Box)
    ensures
        (ray_box_s(r, b) is None) <==> (hit3_s(r, b.top.geom()) is None && hit3_s(
            r,
            b.bottom.geom(),
        ) is None && hit3_s(r, b.left.geom()) is None && hit3_s(r, b.right.geom()) is None
            && hit3_s(r, b.front.geom()) is None && hit3_s(r, b.back.geom()) is None),
        ray_box_s(r, b) is Some ==> (ray_box_s(r, b) == hit3_s(r, b.top.geom()) || ray_box_s(
            r,
            b,
        ) == hit3_s(r, b.bottom.geom()) || ray_box_s(r, b) == hit3_s(r, b.left.geom())
            || ray_box_s(r, b) == hit3_s(r, b.right.geom()) || ray_box_s(r, b) == hit3_s(
            r,
            b.front.geom(),
        ) || ray_box_s(r, b) == hit3_s(r, b.back.geom())),
        hit3_s(r, b.top.geom()) is Some ==> ray_box_s(r, b) is Some && (ray_box_s(r, b)->0).1
            <= (hit3_s(r, b.top.geom())->0).1,
        hit3_s(r, b.bottom.geom()) is Some ==> ray_box_s(r, b) is Some && (ray_box_s(r, b)->0).1
            <= (hit3_s(r, b.bottom.geom())->0).1,
        hit3_s(r, b.left.geom()) is Some ==> ray_box_s(r, b) is Some && (ray_box_s(r, b)->0).1
            <= (hit3_s(r, b.left.geom())->0).1,
        hit3_s(r, b.right.geom()) is Some ==> ray_box_s(r, b) is Some && (ray_box_s(r, b)->0).1
            <= (hit3_s(r, b.right.geom())->0).1,
        hit3_s(r, b.front.geom()) is Some ==> ray_box_s(r, b) is Some && (ray_box_s(r, b)->0).1
            <= (hit3_s(r, b.front.geom())->0).1,
        hit3_s(r, b.back.geom()) is Some ==> ray_box_s(r, b) is Some && (ray_box_s(r, b)->0).1
            <= (hit3_s(r, b.back.geom())->0).1,
{
}

/// The running minimum of a sequence of hits, scanned from index `i`; an
/// earlier hit wins ties.
pub open spec fn min_inter_from<'a>(
    s: Seq<Intersection<'a>>,
    acc: Intersection<'a>,
    i: int,
) -> Intersection<'a>
    decreases s.len() - i,
{
    if i < 0 || i >= s.len() {
        acc
    } else {
        min_inter_from(
            s,
            if s[i].distance@ < acc.distance@ {
                s[i]
            } else {
                acc
            },
            i + 1,
        )
    }
}

/// The minimum-distance hit of a sequence, or nothing for an empty one.
pub open spec fn closest_inter_s<'a>(s: Seq<Intersection<'a>>) -> Option<Intersection<'a>> {
    if s.len() == 0 {
        None
    } else {
        Some(min_inter_from(s, s[0], 1))
    }
}

/// The minimum-distance hit of the given ones: present exactly when the
/// input is nonempty, one of the inputs, and no farther than any of them.
pub fn closest_intersection<'a>(intersections: Vec<Intersection<'a>>) -> (r: Option<
    Intersection<'a>,
>)
    ensures
        r == closest_inter_s(intersections@),
        (r is None) <==> intersections@.len() == 0,
        r is Some ==> exists|i: int|
            0 <= i < intersections@.len() && intersections@[i] == r->0,
        r is Some ==> forall|j: int|
            0 <= j < intersections@.len() ==> (r->0).distance@ <= intersections@[j].distance@,
{
    if intersections.len() == 0 {
        return None;
    }
    let ghost s = intersections@;
    let mut best: Intersection<'a> = intersections[0];
    let ghost mut bi: int = 0;
    let mut i: usize = 1;
    while i < intersections.len()
        invariant
            s == intersections@,
            1 <= i <= s.len(),
            0 <= bi < i,
            best == s[bi],
            forall|j: int| 0 <= j < i ==> best.distance@ <= s[j].distance@,
            min_inter_from(s, best, i as int) == min_inter_from(s, s[0], 1),
        decreases s.len() - i,
    {
        proof {
            assert(min_inter_from(s, best, i as int) == min_inter_from(
                s,
                if s[i as int].distance@ < best.distance@ {
                    s[i as int]
                } else {
                    best
                },
                i as int + 1,
            ));
        }
        if intersections[i].distance.raw < best.distance.raw {
            best = intersections[i];
            proof {
                bi = i as int;
            }
        }
        i = i + 1;
    }
    Some(best)
}

} // verus!
