//! Points, sprite sizes and the overlap test of two axis-aligned boxes.

use vstd::prelude::*;
use crate::constants::{SCALE_UNIT, VIEW_MAX};

verus! {

/// A position in the plane of the game.
#[derive(Clone, Copy, Debug, PartialEq, Eq, Structural)]
pub struct Point {
    pub x: i32,
    pub y: i32,
}

impl Point {
    /// The point lies in the field, the square about the origin in which
    /// ships stand.
    pub open spec fn in_field(self) -> bool {
        &&& -(VIEW_MAX as int) <= self.x <= VIEW_MAX
        &&& -(VIEW_MAX as int) <= self.y <= VIEW_MAX
    }

    /// Decides `in_field`.
    pub fn is_in_field(&self) -> (out: bool)
        ensures
            out == self.in_field(),
    {
        let limit: i32 = VIEW_MAX as i32;
        -limit <= self.x && self.x <= limit && -limit <= self.y && self.y <= limit
    }
}

/// Logical width and height of a sprite, before its scale is applied.
#[derive(Clone, Copy, Debug, PartialEq, Eq, Structural)]
pub struct SpriteSize {
    pub width: u32,
    pub height: u32,
}

/// The scale of a sprite on each axis, in thousandths.
#[derive(Clone, Copy, Debug, PartialEq, Eq, Structural)]
pub struct Scale {
    pub x: u32,
    pub y: u32,
}

/// Width and height of a collision box: a sprite's size with its scale applied.
#[derive(Clone, Copy, Debug, PartialEq, Eq, Structural)]
pub struct Extent {
    pub width: u64,
    pub height: u64,
}

/// Width and height of the view, whose centre is the origin.
#[derive(Clone, Copy, Debug, PartialEq, Eq, Structural)]
pub struct WinSize {
    pub width: u32,
    pub height: u32,
}

impl WinSize {
    /// A view is large enough to place a flight path in, and small enough
    /// that every point near it has coordinates of 32 bits.
    pub open spec fn wf(self) -> bool {
        &&& 4 <= self.width <= VIEW_MAX
        &&& 3 <= self.height <= VIEW_MAX
    }

    /// Decides `wf`.
    pub fn is_wf(&self) -> (out: bool)
        ensures
            out == self.wf(),
    {
        4 <= self.width && self.width <= VIEW_MAX && 3 <= self.height && self.height <= VIEW_MAX
    }
}

/// Evidence that two boxes overlap: on each axis, twice the distance by
/// which the boxes reach into each other. Both are positive.
#[derive(Clone, Copy, Debug, PartialEq, Eq, Structural)]
pub struct Overlap {
    pub x: u128,
    pub y: u128,
}

/// Absolute difference of two coordinates.
pub open spec fn gap(a: int, b: int) -> int {
    if a >= b { a - b } else { b - a }
}

/// Twice the reach of two boxes into each other along one axis; positive
/// exactly when their extents on that axis overlap.
pub open spec fn reach(center_a: int, extent_a: int, center_b: int, extent_b: int) -> int {
    extent_a + extent_b - 2 * gap(center_a, center_b)
}

/// Two boxes, each given by its centre and full size, overlap when on both
/// axes the centres are closer than half the sum of the extents.
pub open spec fn overlaps(center_a: Point, size_a: Extent, center_b: Point, size_b: Extent) -> bool {
    &&& reach(center_a.x as int, size_a.width as int, center_b.x as int, size_b.width as int) > 0
    &&& reach(center_a.y as int, size_a.height as int, center_b.y as int, size_b.height as int) > 0
}

impl SpriteSize {
    /// The box of a sprite of this size at the given scale: each side
    /// times the scale on its axis, rounded down.
    pub open spec fn scaled_spec(self, scale: Scale) -> Extent {
        Extent {
            width: (self.width * scale.x / (SCALE_UNIT as int)) as u64,
            height: (self.height * scale.y / (SCALE_UNIT as int)) as u64,
        }
    }

    /// Computes `scaled_spec`.
    pub fn scaled(self, scale: Scale) -> (out: Extent)
        ensures
            out == self.scaled_spec(scale),
    {
        assert(self.width * scale.x <= 0xFFFF_FFFF * 0xFFFF_FFFF) by (nonlinear_arith)
            requires
                0 <= self.width <= 0xFFFF_FFFF,
                0 <= scale.x <= 0xFFFF_FFFF,
        ;
        assert(self.height * scale.y <= 0xFFFF_FFFF * 0xFFFF_FFFF) by (nonlinear_arith)
            requires
                0 <= self.height <= 0xFFFF_FFFF,
                0 <= scale.y <= 0xFFFF_FFFF,
        ;
        Extent {
            width: (self.width as u64 * scale.x as u64) / 1_000u64,
            height: (self.height as u64 * scale.y as u64) / 1_000u64,
        }
    }
}

fn axis_reach(center_a: i32, extent_a: u64, center_b: i32, extent_b: u64) -> (out: i128)
    ensures
        out == reach(center_a as int, extent_a as int, center_b as int, extent_b as int),
{
    let a: i128 = center_a as i128;
    let b: i128 = center_b as i128;
    let apart: i128 = if a >= b { a - b } else { b - a };
    extent_a as i128 + extent_b as i128 - 2 * apart
}

/// Tests two unrotated boxes for overlap. Boxes that only touch do not overlap.
pub fn overlap(center_a: Point, size_a: Extent, center_b: Point, size_b: Extent) -> (out: Option<
    Overlap,
>)
    ensures
        out.is_some() <==> overlaps(center_a, size_a, center_b, size_b),
        out matches Some(o) ==> o.x == reach(
            center_a.x as int,
            size_a.width as int,
            center_b.x as int,
            size_b.width as int,
        ) && o.y == reach(
            center_a.y as int,
            size_a.height as int,
            center_b.y as int,
            size_b.height as int,
        ),
{
    let x: i128 = axis_reach(center_a.x, size_a.width, center_b.x, size_b.width);
    let y: i128 = axis_reach(center_a.y, size_a.height, center_b.y, size_b.height);
    if x > 0 && y > 0 {
        Some(Overlap { x: x as u128, y: y as u128 })
    } else {
        None
    }
}

/// The overlap test does not depend on the order of the two boxes.
pub proof fn overlap_is_symmetric(center_a: Point, size_a: Extent, center_b: Point, size_b: Extent)
    ensures
        overlaps(center_a, size_a, center_b, size_b) == overlaps(center_b, size_b, center_a, size_a),
{
}

} // verus!
