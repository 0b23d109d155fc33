//! The single directional light used for flat shading.

use vstd::prelude::*;

use crate::types::COORD_LIMIT;
use crate::types::ONE;
use crate::types::Vec3;

verus! {

/// A light source. Its direction is derived from its position (the ray
/// from the origin), and it is not mutated after construction.
#[derive(Clone, Copy, PartialEq, Eq, Structural, Debug)]
pub struct LightSource {
    /// Position in world units.
    pub r: Vec3,
    /// Direction, `r` less the origin.
    pub direction: Vec3,
    /// `ONE`-scaled intensity.
    pub intensity: i64,
    /// RGB colour, each channel `ONE`-scaled.
    pub color: Vec3,
    /// Whether the light radiates from a point rather than a direction.
    pub point_source: bool,
}

impl LightSource {
    /// A full-intensity white point light at `r`, shining along `r`.
    pub fn new(r: Vec3) -> (l: LightSource)
        requires
            r.in_range(COORD_LIMIT as int),
        ensures
            l == (LightSource {
                r,
                direction: r,
                intensity: ONE,
                color: Vec3 { x: ONE, y: ONE, z: ONE },
                point_source: true,
            }),
    {
        let direction = crate::math::vec3_sub(r, Vec3::zero());
        LightSource {
            r,
            direction,
            intensity: ONE,
            color: Vec3 { x: ONE, y: ONE, z: ONE },
            point_source: true,
        }
    }
}

} // verus!
