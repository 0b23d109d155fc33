//! Shared scalar conventions and the small value types of the crate.
//!
//! World positions are whole integer units. Quantities that are fractions
//! of one — sines and cosines, matrix entries, colour channels, shading
//! factors — are fixed-point numbers scaled by [`ONE`].

use vstd::prelude::*;

verus! {

/// Fixed-point scale: the integer `ONE` stands for the real number 1.
pub const ONE: i64 = 1_000_000;

/// Largest magnitude a world coordinate may take, so that every product
/// formed by the geometry routines stays inside the machine integers.
pub const COORD_LIMIT: i64 = 1_000_000_000;

/// Largest viewport extent and focal length the camera accepts.
pub const VIEW_LIMIT: i64 = 1_000_000;

/// A point or direction in 3-space.
///
/// Held in whole world units when it is a position, and `ONE`-scaled when
/// it is a unit direction (a normal, a normalized light direction).
#[derive(Clone, Copy, PartialEq, Eq, Structural, Debug)]
pub struct Vec3 {
    pub x: i64,
    pub y: i64,
    pub z: i64,
}

impl Vec3 {
    /// Every component has magnitude at most `bound`.
    pub open spec fn in_range(self, bound: int) -> bool {
        &&& -bound <= self.x <= bound
        &&& -bound <= self.y <= bound
        &&& -bound <= self.z <= bound
    }

    pub open spec fn zero_spec() -> Vec3 {
        Vec3 { x: 0, y: 0, z: 0 }
    }

    pub fn new(x: i64, y: i64, z: i64) -> (r: Vec3)
        ensures
            r == (Vec3 { x, y, z }),
    {
        Vec3 { x, y, z }
    }

    pub fn zero() -> (r: Vec3)
        ensures
            r == Vec3::zero_spec(),
    {
        Vec3 { x: 0, y: 0, z: 0 }
    }
}

/// A 3x3 matrix of `ONE`-scaled entries, held as three rows.
#[derive(Clone, Copy, PartialEq, Eq, Structural, Debug)]
pub struct Mat3 {
    pub x: Vec3,
    pub y: Vec3,
    pub z: Vec3,
}

impl Mat3 {
    /// Every entry has magnitude at most `bound`.
    pub open spec fn in_range(self, bound: int) -> bool {
        &&& self.x.in_range(bound)
        &&& self.y.in_range(bound)
        &&& self.z.in_range(bound)
    }
}

/// A projected point on the 2D canvas, in whole pixels.
#[derive(Clone, Copy, PartialEq, Eq, Structural, Debug)]
pub struct Point2 {
    pub x: i64,
    pub y: i64,
}

/// An RGBA colour; each channel is `ONE`-scaled and lies in `[0, ONE]`.
#[derive(Clone, Copy, PartialEq, Eq, Structural, Debug)]
pub struct Color {
    pub r: i64,
    pub g: i64,
    pub b: i64,
    pub a: i64,
}

impl Color {
    /// Every channel lies in `[0, ONE]`.
    pub open spec fn wf(self) -> bool {
        &&& 0 <= self.r <= ONE
        &&& 0 <= self.g <= ONE
        &&& 0 <= self.b <= ONE
        &&& 0 <= self.a <= ONE
    }

    pub fn new(r: i64, g: i64, b: i64, a: i64) -> (c: Color)
        ensures
            c == (Color { r, g, b, a }),
    {
        Color { r, g, b, a }
    }
}

/// Width of a wireframe line, `ONE`-scaled (half a pixel).
pub const LINE_WIDTH: i64 = 500_000;

/// One primitive for the external 2D canvas. The canvas collaborator
/// consumes these in order; the renderer never draws directly.
#[derive(Clone, Copy, PartialEq, Eq, Structural, Debug)]
pub enum DrawCmd {
    /// Fill the whole canvas with `color`.
    Clear { color: Color },
    /// Fill the triangle `a b c` with `color`.
    Polygon { a: Point2, b: Point2, c: Point2, color: Color },
    /// Stroke a segment with the given `ONE`-scaled width.
    Line { x0: i64, y0: i64, x1: i64, y1: i64, color: Color, width: i64 },
}

} // verus!
