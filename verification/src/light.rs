//! The single static point light a scene is shaded against.

use vstd::prelude::*;
use crate::vec3::Vec3;
use crate::material::COLOR_LIM;

verus! {

/// Magnitude limit (2^32, i.e. 65536 whole units) for scene positions:
/// light and camera placement, primitive centers and extents.
pub const POS_LIM: i64 = 0x1_0000_0000i64;

/// Intensity limit (2^26, i.e. 1024 whole units) for a well-formed light.
pub const INTENSITY_LIM: i64 = 0x400_0000i64;

/// A point light: position, linear color, and a scalar intensity.
#[derive(Clone, Copy, Debug)]
pub struct Light {
    pub position: Vec3,
    pub color: Vec3,
    pub intensity: i64,
}

impl Light {
    /// Bounds under which the shading arithmetic is overflow-free.
    pub open spec fn wf(self) -> bool {
        &&& self.position.in_range(POS_LIM as int)
        &&& self.color.in_range(COLOR_LIM as int)
        &&& 0 <= self.intensity <= INTENSITY_LIM
    }

    pub fn new(position: Vec3, color: Vec3, intensity: i64) -> (l: Light)
        ensures
            l == (Light { position, color, intensity }),
    {
        Light { position, color, intensity }
    }
}

} // verus!
