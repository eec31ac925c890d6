//! The emission description of a light: diffuse and specular intensities.

use vstd::prelude::*;
use crate::util::Color;

verus! {

/// What a light emits, as opposed to what a surface reflects.
#[derive(Clone, Copy, Debug, PartialEq, Eq, Structural)]
pub struct LightMaterial {
    pub diffuse_intensity: Color,
    pub specular_intensity: Color,
}

impl LightMaterial {
    pub fn new(diffuse: Color, specular: Color) -> (r: LightMaterial)
        ensures
            r.diffuse_intensity == diffuse,
            r.specular_intensity == specular,
    {
        LightMaterial { diffuse_intensity: diffuse, specular_intensity: specular }
    }

    /// Both intensities within `[0, 1]` per channel.
    pub open spec fn wf(self) -> bool {
        self.diffuse_intensity@.in_unit() && self.specular_intensity@.in_unit()
    }
}

} // verus!
