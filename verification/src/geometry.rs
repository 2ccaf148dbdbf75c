//! Places and rectangles on the window.
//!
//! Lengths are thousandths of a logical pixel, which is finer than anything a
//! pointer reports.

use vstd::prelude::*;

verus! {

/// How many units one logical pixel has.
pub const PIXEL: i32 = 1_000;

/// A place on the window.
#[derive(Debug, Clone, Copy, PartialEq, Eq, Structural)]
pub struct Point {
    pub x: i32,
    pub y: i32,
}

/// The extent of something on the window.
#[derive(Debug, Clone, Copy, PartialEq, Eq, Structural)]
pub struct Size {
    pub width: i32,
    pub height: i32,
}

/// A rectangle on the window.
#[derive(Debug, Clone, Copy, PartialEq, Eq, Structural)]
pub struct Bounds {
    pub origin: Point,
    pub size: Size,
}

/// Whether `place` lies between two ends, both included.
pub open spec fn lies_within(place: int, low: int, high: int) -> bool {
    low <= place <= high
}

impl Bounds {
    /// Whether a point lies in the rectangle once it has grown by `margin` on
    /// every side. The edges belong to it.
    pub open spec fn covers(self, point: Point, margin: int) -> bool {
        &&& lies_within(
            point.x as int,
            self.origin.x - margin,
            self.origin.x + self.size.width + margin,
        )
        &&& lies_within(
            point.y as int,
            self.origin.y - margin,
            self.origin.y + self.size.height + margin,
        )
    }

    /// Whether a point lies in the rectangle once it has grown by `margin` on
    /// every side. The edges belong to it.
    pub fn contains(self, point: Point, margin: i32) -> (inside: bool)
        ensures
            inside == self.covers(point, margin as int),
            inside <==> self.origin.x - margin <= point.x && point.x <= self.origin.x
                + self.size.width + margin && self.origin.y - margin <= point.y && point.y
                <= self.origin.y + self.size.height + margin,
    {
        let left: i64 = self.origin.x as i64 - margin as i64;
        let right: i64 = self.origin.x as i64 + self.size.width as i64 + margin as i64;
        let top: i64 = self.origin.y as i64 - margin as i64;
        let bottom: i64 = self.origin.y as i64 + self.size.height as i64 + margin as i64;
        left <= point.x as i64 && point.x as i64 <= right && top <= point.y as i64
            && point.y as i64 <= bottom
    }
}

/// A rectangle grown by a margin reaches that far beyond each of its edges, and
/// no further.
pub proof fn a_rectangle_reaches_as_far_as_its_margin(bounds: Bounds, point: Point, margin: int)
    ensures
        bounds.covers(point, margin) <==> {
            &&& bounds.origin.x - point.x <= margin
            &&& point.x - (bounds.origin.x + bounds.size.width) <= margin
            &&& bounds.origin.y - point.y <= margin
            &&& point.y - (bounds.origin.y + bounds.size.height) <= margin
        },
{
}

} // verus!
