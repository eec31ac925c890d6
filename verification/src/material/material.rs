//! The closed set of surface materials, dispatched by exhaustive matching.

use vstd::prelude::*;
use crate::util::{Color, C3};
use crate::material::simple::Simple;
use crate::material::phong::Phong;

verus! {

/// Largest accepted Phong exponent.
pub const SHININESS_MAX: u32 = 0x10_0000;

/// A surface's reflectance description: flat or Phong.
#[derive(Clone, Copy, Debug, PartialEq, Eq, Structural)]
pub enum Material {
    Simple(Simple),
    Phong(Phong),
}

/// The ambient color of a material.
pub open spec fn ambient_s(m: Material) -> C3 {
    match m {
        Material::Simple(s) => s.color@,
        Material::Phong(p) => p.ambient@,
    }
}

/// The diffuse color of a material; a flat material has none.
pub open spec fn diffuse_s(m: Material) -> C3 {
    match m {
        Material::Simple(s) => C3 { r: 0, g: 0, b: 0 },
        Material::Phong(p) => p.diffuse@,
    }
}

/// The specular color of a material; a flat material has none.
pub open spec fn specular_s(m: Material) -> C3 {
    match m {
        Material::Simple(s) => C3 { r: 0, g: 0, b: 0 },
        Material::Phong(p) => p.specular@,
    }
}

/// The Phong exponent; a flat material carries the unused sentinel one.
pub open spec fn shininess_s(m: Material) -> int {
    match m {
        Material::Simple(s) => 1,
        Material::Phong(p) => p.shininess as int,
    }
}

impl Material {
    /// Colors within `[0, 1]` per channel and a bounded exponent: what the
    /// shading arithmetic relies on.
    pub open spec fn wf(self) -> bool {
        ambient_s(self).in_unit() && diffuse_s(self).in_unit() && specular_s(self).in_unit()
            && 0 <= shininess_s(self) <= SHININESS_MAX
    }

    pub fn from_simple(s: Simple) -> (r: Material)
        ensures
            r == Material::Simple(s),
    {
        Material::Simple(s)
    }

    pub fn from_phong(p: Phong) -> (r: Material)
        ensures
            r == Material::Phong(p),
    {
        Material::Phong(p)
    }

    pub fn ambient_color(&self) -> (r: Color)
        ensures
            r@ == ambient_s(*self),
    {
        match self {
            Material::Simple(s) => s.color,
            Material::Phong(p) => p.ambient,
        }
    }

    pub fn diffuse_color(&self) -> (r: Color)
        ensures
            r@ == diffuse_s(*self),
    {
        match self {
            Material::Simple(_) => Color::black(),
            Material::Phong(p) => p.diffuse,
        }
    }

    pub fn specular_color(&self) -> (r: Color)
        ensures
            r@ == specular_s(*self),
    {
        match self {
            Material::Simple(_) => Color::black(),
            Material::Phong(p) => p.specular,
        }
    }

    pub fn shininess(&self) -> (r: u32)
        ensures
            r as int == shininess_s(*self),
    {
        match self {
            Material::Simple(_) => 1,
            Material::Phong(p) => p.shininess,
        }
    }
}

} // verus!
