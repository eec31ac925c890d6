//! The closed set of scene members: emitters (lights) and reflective
//! surfaces (faces and boxes), with intersection and material access
//! dispatched by exhaustive matching.

use vstd::prelude::*;
use crate::vector::V3;
use crate::transform::MAT_BOUND;
use crate::ray::{Ray, RayG, HIT_BOUND};
use crate::intersection::{Intersection, hit3_s, hit3_view, ray_box_s, ray_face, ray_box};
use crate::objects::face::Face;
use crate::objects::_box::Box;
use crate::light::Light;
use crate::material::Material;

verus! {

/// Reflective geometry: a single face or a box of six.
#[derive(Clone, Copy, Debug)]
pub enum Surface {
    Box(Box),
    Face(Face),
}

/// Structural identity of two surfaces: same shape kind, equal geometry;
/// materials play no part.
pub open spec fn surface_geom_eq(a: Surface, b: Surface) -> bool {
    match (a, b) {
        (Surface::Box(x), Surface::Box(y)) => crate::objects::_box::box_geom_eq(x, y),
        (Surface::Face(x), Surface::Face(y)) => crate::objects::face::face_geom_eq(x, y),
        _ => false,
    }
}

impl PartialEq for Surface {
    fn eq(&self, other: &Surface) -> (r: bool) {
        match (self, other) {
            (Surface::Box(a), Surface::Box(b)) => a == b,
            (Surface::Face(a), Surface::Face(b)) => a == b,
            _ => false,
        }
    }
}

impl vstd::std_specs::cmp::PartialEqSpecImpl for Surface {
    open spec fn obeys_eq_spec() -> bool {
        true
    }

    open spec fn eq_spec(&self, other: &Surface) -> bool {
        surface_geom_eq(*self, *other)
    }
}

/// The hit a surface reports for a ray.
pub open spec fn surface_hit_s(s: Surface, r: RayG) -> Option<(V3, int, V3)> {
    match s {
        Surface::Face(f) => hit3_s(r, f.geom()),
        Surface::Box(b) => ray_box_s(r, b),
    }
}

/// The material of a surface.
pub open spec fn surface_material_s(s: Surface) -> Material {
    match s {
        Surface::Face(f) => f.material,
        Surface::Box(b) => b.material,
    }
}

impl Surface {
    pub open spec fn wf(self) -> bool {
        match self {
            Surface::Face(f) => f.wf(),
            Surface::Box(b) => b.wf(),
        }
    }

    pub fn from_box(_box: Box) -> (r: Surface)
        ensures
            r == Surface::Box(_box),
    {
        Surface::Box(_box)
    }

    pub fn from_face(face: Face) -> (r: Surface)
        ensures
            r == Surface::Face(face),
    {
        Surface::Face(face)
    }

    pub fn is_box(&self) -> (r: bool)
        ensures
            r == (self is Box),
    {
        match self {
            Surface::Box(_) => true,
            _ => false,
        }
    }

    pub fn is_face(&self) -> (r: bool)
        ensures
            r == (self is Face),
    {
        match self {
            Surface::Face(_) => true,
            _ => false,
        }
    }
}

/// A scene member: an emitting light or a reflective surface.
#[derive(Clone, Copy, Debug)]
pub enum Object {
    Light(Light),
    Surface(Surface),
}

/// Structural identity of two objects: same tag, equal contained geometry
/// (and, for lights, equal emission); the shadow test recognizes its target
/// light by this, not by reference identity or by materials.
pub open spec fn obj_geom_eq(a: Object, b: Object) -> bool {
    match (a, b) {
        (Object::Light(x), Object::Light(y)) => crate::light::light_eq_s(x, y),
        (Object::Surface(x), Object::Surface(y)) => surface_geom_eq(x, y),
        _ => false,
    }
}

impl PartialEq for Object {
    fn eq(&self, other: &Object) -> (r: bool) {
        match (self, other) {
            (Object::Light(a), Object::Light(b)) => a == b,
            (Object::Surface(a), Object::Surface(b)) => a == b,
            _ => false,
        }
    }
}

impl vstd::std_specs::cmp::PartialEqSpecImpl for Object {
    open spec fn obeys_eq_spec() -> bool {
        true
    }

    open spec fn eq_spec(&self, other: &Object) -> bool {
        obj_geom_eq(*self, *other)
    }
}

/// The hit an object reports for a ray: a light is met through its face,
/// a surface through its geometry.
#[verifier::opaque]
pub open spec fn object_hit_s(o: Object, r: RayG) -> Option<(V3, int, V3)> {
    match o {
        Object::Light(l) => hit3_s(r, l.face.geom()),
        Object::Surface(s) => surface_hit_s(s, r),
    }
}

/// The nominal material of an object; a light's is its face's.
pub open spec fn object_material_s(o: Object) -> Material {
    match o {
        Object::Light(l) => l.face.material,
        Object::Surface(s) => surface_material_s(s),
    }
}

/// An optional intersection seen at the specification level.
pub open spec fn inter_view<'a>(o: Option<Intersection<'a>>) -> Option<(V3, int, V3)> {
    match o {
        Some(i) => Some((i.position@, i.distance@, i.normal@)),
        None => None,
    }
}

impl Object {
    pub open spec fn wf(self) -> bool {
        match self {
            Object::Light(l) => l.wf(),
            Object::Surface(s) => s.wf(),
        }
    }

    pub fn from_light(l: Light) -> (r: Object)
        ensures
            r == Object::Light(l),
    {
        Object::Light(l)
    }

    pub fn from_surface(s: Surface) -> (r: Object)
        ensures
            r == Object::Surface(s),
    {
        Object::Surface(s)
    }

    pub fn is_light(&self) -> (r: bool)
        ensures
            r == (self is Light),
    {
        match self {
            Object::Light(_) => true,
            Object::Surface(_) => false,
        }
    }

    pub fn is_surface(&self) -> (r: bool)
        ensures
            r == (self is Surface),
    {
        match self {
            Object::Light(_) => false,
            Object::Surface(_) => true,
        }
    }

    pub fn as_light(&self) -> (r: Option<&Light>)
        ensures
            match r {
                Some(l) => self is Light && *self == Object::Light(*l),
                None => !(self is Light),
            },
    {
        match self {
            Object::Light(l) => Some(l),
            Object::Surface(_) => None,
        }
    }

    pub fn as_surface(&self) -> (r: Option<&Surface>)
        ensures
            match r {
                Some(s) => self is Surface && *self == Object::Surface(*s),
                None => !(self is Surface),
            },
    {
        match self {
            Object::Light(_) => None,
            Object::Surface(s) => Some(s),
        }
    }

    /// Where the ray meets this object, wrapped with a reference back to
    /// the struck object itself.
    pub fn intersects<'a>(&'a self, ray: &Ray) -> (r: Option<Intersection<'a>>)
        requires
            ray@.wf(),
            self.wf(),
        ensures
            inter_view(r) == object_hit_s(*self, ray@),
            r is Some ==> (r->0).object == self,
            r is Some ==> (r->0).position@.bounded(HIT_BOUND as int),
            r is Some ==> (r->0).normal@.bounded(MAT_BOUND as int),
            r is Some ==> (r->0).distance@ >= 0,
    {
        proof {
            reveal(object_hit_s);
        }
        let hit: Option<crate::intersection::HitRecord> = match self {
            Object::Light(l) => ray_face(ray, &l.face),
            Object::Surface(s) => match s {
                Surface::Face(f) => ray_face(ray, f),
                Surface::Box(b) => ray_box(ray, b),
            },
        };
        proof {
            lemma_hit_bounds(*self, ray@);
        }
        match hit {
            Some(h) => Some(Intersection::new(h.0, h.1, h.2, self)),
            None => None,
        }
    }

    /// The object's nominal material: a surface's own, or the material of
    /// the light's face.
    pub fn material(&self) -> (r: Material)
        ensures
            r == object_material_s(*self),
    {
        match self {
            Object::Light(l) => l.face.material,
            Object::Surface(s) => match s {
                Surface::Face(f) => f.material,
                Surface::Box(b) => b.material,
            },
        }
    }
}

/// A reported hit lies within the supported world volume, carries a
/// rotation-sized normal, and a nonnegative distance.
proof fn lemma_hit_bounds(o: Object, r: RayG)
    requires
        o.wf(),
        r.wf(),
    ensures
        object_hit_s(o, r) is Some ==> {
            let h = object_hit_s(o, r)->0;
            h.0.bounded(HIT_BOUND as int) && h.2.bounded(MAT_BOUND as int) && h.1 >= 0
        },
{
    reveal(object_hit_s);
    match o {
        Object::Light(l) => {
            lemma_face_hit_bounds(l.face, r);
        },
        Object::Surface(s) => {
            match s {
                Surface::Face(f) => {
                    lemma_face_hit_bounds(f, r);
                },
                Surface::Box(b) => {
                    lemma_face_hit_bounds(b.top, r);
                    lemma_face_hit_bounds(b.bottom, r);
                    lemma_face_hit_bounds(b.left, r);
                    lemma_face_hit_bounds(b.right, r);
                    lemma_face_hit_bounds(b.front, r);
                    lemma_face_hit_bounds(b.back, r);
                },
            }
        },
    }
}

/// The ray-face specification only reports points within the world guard,
/// normals from the face's rotation, and nonnegative distances.
proof fn lemma_face_hit_bounds(f: Face, r: RayG)
    requires
        f.wf(),
        r.wf(),
    ensures
        hit3_s(r, f.geom()) is Some ==> {
            let h = hit3_s(r, f.geom())->0;
            h.0.bounded(HIT_BOUND as int) && h.2.bounded(MAT_BOUND as int) && h.1 >= 0
        },
{
    if hit3_s(r, f.geom()) is Some {
        let h = hit3_s(r, f.geom())->0;
        crate::vector::lemma_norm_s_nonneg(crate::vector::sub_s(h.0, r.origin));
    }
}

} // verus!
