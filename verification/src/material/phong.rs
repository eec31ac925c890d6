//! A Phong material: ambient, diffuse and specular colors and a whole-number
//! shininess exponent.

use vstd::prelude::*;
use crate::util::Color;

verus! {

/// A Phong reflectance description.
#[derive(Clone, Copy, Debug, PartialEq, Eq, Structural)]
pub struct Phong {
    pub ambient: Color,
    pub diffuse: Color,
    pub specular: Color,
    pub shininess: u32,
}

impl Phong {
    pub fn new(ambient: Color, diffuse: Color, specular: Color, shininess: u32) -> (r: Phong)
        ensures
            r == (Phong { ambient, diffuse, specular, shininess }),
    {
        Phong { ambient, diffuse, specular, shininess }
    }
}

} // verus!
