//! The scene: a background color, the objects, and the camera, with the
//! linear-scan closest-intersection query the renderer relies on.

use vstd::prelude::*;
use crate::util::Color;
use crate::camera::Camera;
use crate::light::Light;
use crate::ray::Ray;
use crate::intersection::Intersection;
use crate::objects::object::{Object, Surface, object_hit_s, inter_view};
use crate::transform::MAT_BOUND;
use crate::ray::HIT_BOUND;

verus! {

/// The lights among a sequence of objects, in order.
pub open spec fn lights_of(s: Seq<Object>) -> Seq<Light>
    decreases s.len(),
{
    if s.len() == 0 {
        Seq::empty()
    } else {
        let rest = lights_of(s.drop_last());
        match s.last() {
            Object::Light(l) => rest.push(l),
            Object::Surface(_) => rest,
        }
    }
}

/// The surfaces among a sequence of objects, in order.
pub open spec fn surfaces_of(s: Seq<Object>) -> Seq<Surface>
    decreases s.len(),
{
    if s.len() == 0 {
        Seq::empty()
    } else {
        let rest = surfaces_of(s.drop_last());
        match s.last() {
            Object::Light(_) => rest,
            Object::Surface(f) => rest.push(f),
        }
    }
}

/// The running first-minimum of the objects' hits, scanned from index `i`:
/// the winning object's index with its hit data. An earlier object keeps a
/// tie.
pub open spec fn scene_best_from(
    s: Seq<Object>,
    r: crate::ray::RayG,
    i: int,
    acc: Option<(int, (crate::vector::V3, int, crate::vector::V3))>,
) -> Option<(int, (crate::vector::V3, int, crate::vector::V3))>
    decreases s.len() - i,
{
    if i < 0 || i >= s.len() {
        acc
    } else {
        let stepped = match (acc, object_hit_s(s[i], r)) {
            (None, Some(h)) => Some((i, h)),
            (Some(a), Some(h)) => if h.1 < a.1.1 {
                Some((i, h))
            } else {
                acc
            },
            _ => acc,
        };
        scene_best_from(s, r, i + 1, stepped)
    }
}

/// The scene's closest hit for a ray: the first object attaining the
/// minimum distance, with its hit data; nothing when every object misses.
pub open spec fn scene_hit_s(s: Seq<Object>, r: crate::ray::RayG) -> Option<
    (int, (crate::vector::V3, int, crate::vector::V3)),
> {
    scene_best_from(s, r, 0, None)
}

/// A scene: what is rendered.
pub struct Scene {
    pub bg: Color,
    pub objects: Vec<Object>,
    pub camera: Camera,
}

impl Scene {
    /// A renderable scene: a unit-range background, a well-formed camera
    /// and well-formed objects.
    pub open spec fn wf(self) -> bool {
        self.bg@.in_unit() && self.camera.wf() && forall|i: int|
            0 <= i < self.objects@.len() ==> (#[trigger] self.objects@[i]).wf()
    }

    pub fn new(background: Color, objects: Vec<Object>, camera: Camera) -> (r: Scene)
        ensures
            r.bg == background,
            r.objects == objects,
            r.camera == camera,
    {
        Scene { bg: background, objects, camera }
    }

    pub fn background(&self) -> (r: Color)
        ensures
            r == self.bg,
    {
        self.bg
    }

    pub fn set_background(&mut self, background: Color)
        ensures
            final(self).bg == background,
            final(self).objects == old(self).objects,
            final(self).camera == old(self).camera,
    {
        self.bg = background;
    }

    pub fn camera(&self) -> (r: &Camera)
        ensures
            *r == self.camera,
    {
        &self.camera
    }

    pub fn objects(&self) -> (r: &Vec<Object>)
        ensures
            *r == self.objects,
    {
        &self.objects
    }

    /// The scene's surfaces, in scene order.
    pub fn surfaces(&self) -> (r: Vec<&Surface>)
        ensures
            r@.len() == surfaces_of(self.objects@).len(),
            forall|i: int| 0 <= i < r@.len() ==> *(#[trigger] r@[i]) == surfaces_of(
                self.objects@,
            )[i],
    {
        let n: usize = self.objects.len();
        let mut r: Vec<&Surface> = Vec::new();
        let mut i: usize = 0;
        proof {
            assert(self.objects@.subrange(0, 0) =~= Seq::<Object>::empty());
        }
        while i < n
            invariant
                n == self.objects@.len(),
                i <= n,
                r@.len() == surfaces_of(self.objects@.subrange(0, i as int)).len(),
                forall|j: int| 0 <= j < r@.len() ==> *(#[trigger] r@[j]) == surfaces_of(
                    self.objects@.subrange(0, i as int),
                )[j],
            decreases n - i,
        {
            proof {
                let pre = self.objects@.subrange(0, i as int);
                let post = self.objects@.subrange(0, i as int + 1);
                assert(post.drop_last() =~= pre);
                assert(post.last() == self.objects@[i as int]);
            }
            match &self.objects[i] {
                Object::Surface(s) => r.push(s),
                Object::Light(_) => (),
            }
            i = i + 1;
        }
        proof {
            assert(self.objects@.subrange(0, n as int) =~= self.objects@);
        }
        r
    }

    /// The scene's lights, in scene order.
    pub fn lights(&self) -> (r: Vec<&Light>)
        ensures
            r@.len() == lights_of(self.objects@).len(),
            forall|i: int| 0 <= i < r@.len() ==> *(#[trigger] r@[i]) == lights_of(
                self.objects@,
            )[i],
    {
        let n: usize = self.objects.len();
        let mut r: Vec<&Light> = Vec::new();
        let mut i: usize = 0;
        proof {
            assert(self.objects@.subrange(0, 0) =~= Seq::<Object>::empty());
        }
        while i < n
            invariant
                n == self.objects@.len(),
                i <= n,
                r@.len() == lights_of(self.objects@.subrange(0, i as int)).len(),
                forall|j: int| 0 <= j < r@.len() ==> *(#[trigger] r@[j]) == lights_of(
                    self.objects@.subrange(0, i as int),
                )[j],
            decreases n - i,
        {
            proof {
                let pre = self.objects@.subrange(0, i as int);
                let post = self.objects@.subrange(0, i as int + 1);
                assert(post.drop_last() =~= pre);
                assert(post.last() == self.objects@[i as int]);
            }
            match &self.objects[i] {
                Object::Light(l) => r.push(l),
                Object::Surface(_) => (),
            }
            i = i + 1;
        }
        proof {
            assert(self.objects@.subrange(0, n as int) =~= self.objects@);
        }
        r
    }

    /// The closest hit of the ray over every object in the scene, by linear
    /// scan: absent exactly when no object is hit; otherwise a hit of one of
    /// the objects, carrying that object, no farther than any other object's
    /// hit. Equally close hits go to the earliest object.
    #[verifier::rlimit(100)]
    pub fn intersects<'a>(&'a self, ray: &Ray) -> (r: Option<Intersection<'a>>)
        requires
            self.wf(),
            ray@.wf(),
        ensures
            (r is None) <==> scene_hit_s(self.objects@, ray@) is None,
            (r is None) <==> (forall|i: int|
                0 <= i < self.objects@.len() ==> object_hit_s(
                    #[trigger] self.objects@[i],
                    ray@,
                ) is None),
            r is Some ==> {
                let (w, h) = scene_hit_s(self.objects@, ray@)->0;
                0 <= w < self.objects@.len() && *(r->0).object == self.objects@[w]
                    && inter_view(r) == Some(h)
            },
            r is Some ==> forall|i: int|
                0 <= i < self.objects@.len() && object_hit_s(
                    #[trigger] self.objects@[i],
                    ray@,
                ) is Some ==> (r->0).distance@ <= (object_hit_s(self.objects@[i], ray@)->0).1,
            r is Some ==> (r->0).position@.bounded(HIT_BOUND as int) && (
            r->0).normal@.bounded(MAT_BOUND as int) && (r->0).distance@ >= 0,
            r is Some ==> (r->0).object.wf(),
    {
        let n: usize = self.objects.len();
        let ghost s = self.objects@;
        let mut best: Option<Intersection<'a>> = None;
        let ghost mut bi: int = 0;
        let mut i: usize = 0;
        while i < n
            invariant
                self.wf(),
                ray@.wf(),
                n == s.len(),
                s == self.objects@,
                i <= n,
                (best is None) <==> (forall|j: int|
                    0 <= j < i ==> object_hit_s(#[trigger] s[j], ray@) is None),
                best is Some ==> 0 <= bi < i && *(best->0).object == s[bi] && inter_view(best)
                    == object_hit_s(s[bi], ray@),
                scene_best_from(s, ray@, i as int, acc_view(best, bi)) == scene_hit_s(s, ray@),
                best is Some ==> forall|j: int|
                    0 <= j < i && object_hit_s(#[trigger] s[j], ray@) is Some ==> (
                    best->0).distance@ <= (object_hit_s(s[j], ray@)->0).1,
                best is Some ==> (best->0).position@.bounded(HIT_BOUND as int) && (
                best->0).normal@.bounded(MAT_BOUND as int) && (best->0).distance@ >= 0,
                best is Some ==> (best->0).object.wf(),
            decreases n - i,
        {
            proof {
                assert(s[i as int].wf());
            }
            let cand: Option<Intersection<'a>> = self.objects[i].intersects(ray);
            proof {
                assert(scene_best_from(s, ray@, i as int, acc_view(best, bi))
                    == scene_best_from(
                    s,
                    ray@,
                    i as int + 1,
                    match (acc_view(best, bi), object_hit_s(s[i as int], ray@)) {
                        (None, Some(h)) => Some((i as int, h)),
                        (Some(a), Some(h)) => if h.1 < a.1.1 {
                            Some((i as int, h))
                        } else {
                            acc_view(best, bi)
                        },
                        _ => acc_view(best, bi),
                    },
                ));
            }
            match (&best, &cand) {
                (None, Some(_)) => {
                    best = cand;
                    proof {
                        bi = i as int;
                    }
                },
                (Some(b), Some(c)) => {
                    if c.distance.raw < b.distance.raw {
                        best = cand;
                        proof {
                            bi = i as int;
                        }
                    }
                },
                _ => (),
            }
            i = i + 1;
        }
        best
    }
}

/// The ghost value of a running best intersection: the winning index with
/// the hit data.
pub open spec fn acc_view<'a>(best: Option<Intersection<'a>>, bi: int) -> Option<
    (int, (crate::vector::V3, int, crate::vector::V3)),
> {
    match best {
        None => None,
        Some(b) => Some((bi, (b.position@, b.distance@, b.normal@))),
    }
}

/// Every light of a sequence of well-formed objects is well-formed.
pub proof fn lemma_lights_of_wf(s: Seq<Object>)
    requires
        forall|i: int| 0 <= i < s.len() ==> (#[trigger] s[i]).wf(),
    ensures
        forall|j: int| 0 <= j < lights_of(s).len() ==> (#[trigger] lights_of(s)[j]).wf(),
    decreases s.len(),
{
    if s.len() > 0 {
        assert(forall|i: int|
            0 <= i < s.drop_last().len() ==> (#[trigger] s.drop_last()[i]) == s[i]);
        lemma_lights_of_wf(s.drop_last());
        assert(s[s.len() - 1].wf());
        let rest = lights_of(s.drop_last());
        match s.last() {
            Object::Light(l) => {
                assert(lights_of(s) =~= rest.push(l));
                assert(l.wf());
            },
            Object::Surface(_) => {
                assert(lights_of(s) =~= rest);
            },
        }
    }
}

} // verus!
