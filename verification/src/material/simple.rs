//! A flat material: a single ambient color, no diffuse or specular response.

use vstd::prelude::*;
use crate::util::Color;

verus! {

/// A flat, ambient-only material.
#[derive(Clone, Copy, Debug, PartialEq, Eq, Structural)]
pub struct Simple {
    pub color: Color,
}

impl Simple {
    pub fn new(color: Color) -> (r: Simple)
        ensures
            r.color == color,
    {
        Simple { color }
    }
}

} // verus!
