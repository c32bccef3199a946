//! Shared geometric primitives: fixed-point 2D vectors, colours, and the
//! descriptors the rasterizer takes as parameter objects.
//!
//! Coordinates are fixed-point: an `i64` carries a world coordinate scaled
//! by [`FP_ONE`].  Screen-space quantities (pixel positions, strip bounds)
//! are plain integers.

use vstd::prelude::*;

verus! {

/// One fixed-point unit: world coordinate `1.0` is stored as `FP_ONE`.
pub const FP_ONE: i64 = 1024;

/// Half a fixed-point unit.
pub const FP_HALF: i64 = 512;

/// `FP_ONE / sqrt(2)`, rounded to the nearest integer: the axis component
/// of a unit-length diagonal direction.
pub const FP_DIAG: i64 = 724;

/// Largest coordinate magnitude the geometry routines accept.  Keeps every
/// intermediate product of two coordinates comfortably inside `i64`.
pub const COORD_MAX: i64 = 1048576;

/// A 2D vector in fixed-point world units.
#[derive(Clone, Copy, PartialEq, Eq, Structural, Debug)]
pub struct Vec2Fx {
    pub x: i64,
    pub y: i64,
}

impl Vec2Fx {
    /// Both components within the coordinate bound.
    pub open spec fn bounded(self) -> bool {
        -COORD_MAX <= self.x <= COORD_MAX && -COORD_MAX <= self.y <= COORD_MAX
    }

    /// Both components within a quarter of the coordinate bound: what the
    /// view transform accepts, so that its result is still `bounded`.
    pub open spec fn tight(self) -> bool {
        -COORD_MAX / 4 <= self.x <= COORD_MAX / 4 && -COORD_MAX / 4 <= self.y <= COORD_MAX / 4
    }
}

/// An 8-bit-per-channel colour.
#[derive(Clone, Copy, PartialEq, Eq, Structural, Debug)]
pub struct Rgb {
    pub r: u8,
    pub g: u8,
    pub b: u8,
}

/// A filled circle to rasterize, in pixel coordinates.
pub struct CricleDescriptor {
    pub centre: Vec2Fx,
    pub radius: i64,
    pub color: Rgb,
}

/// A line segment to rasterize, in pixel coordinates.
pub struct LineDescriptor {
    pub start: Vec2Fx,
    pub end: Vec2Fx,
    pub color: Rgb,
}

/// A vertical screen strip: column `y`, rows `top_x..bottom_x`, colour and
/// a depth byte composited under the "higher depth wins" rule.
pub struct VerticalLineDescriptor {
    pub y: u32,
    pub top_x: u32,
    pub bottom_x: u32,
    pub color: Rgb,
    pub depth: u8,
}

/// Bounds on two factors bound their product.
pub proof fn lemma_mul_bound(a: int, b: int, ma: int, mb: int)
    by (nonlinear_arith)
    requires
        -ma <= a <= ma,
        -mb <= b <= mb,
        0 <= ma,
        0 <= mb,
    ensures
        -(ma * mb) <= a * b <= ma * mb,
{
}

} // verus!
