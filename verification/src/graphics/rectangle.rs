//! Axis-aligned boxes.

use crate::fixed::from_whole;
use vstd::prelude::*;

verus! {

/// An axis-aligned box: its top-left corner and its extent, in fixed-point
/// units.
#[derive(Debug, Copy, Clone, Default, PartialEq, Eq, Structural)]
pub struct Rectangle {
    pub x: i64,
    pub y: i64,
    pub width: i64,
    pub height: i64,
}

impl Rectangle {
    pub fn new(x: i64, y: i64, width: i64, height: i64) -> (r: Self)
        ensures
            r == (Rectangle { x, y, width, height }),
    {
        Self { x, y, width, height }
    }

    /// The box given by whole numbers in the order x, y, width, height.
    pub fn from_array(r: &[i32; 4]) -> (b: Rectangle)
        ensures
            b.x == r[0] * 1_000_000,
            b.y == r[1] * 1_000_000,
            b.width == r[2] * 1_000_000,
            b.height == r[3] * 1_000_000,
    {
        Rectangle::new(
            from_whole(r[0] as i64),
            from_whole(r[1] as i64),
            from_whole(r[2] as i64),
            from_whole(r[3] as i64),
        )
    }

    /// The box given by a whole corner and a whole extent.
    pub fn from_tuple(r: &(i32, i32, u32, u32)) -> (b: Rectangle)
        ensures
            b.x == r.0 * 1_000_000,
            b.y == r.1 * 1_000_000,
            b.width == r.2 * 1_000_000,
            b.height == r.3 * 1_000_000,
    {
        Rectangle::new(
            from_whole(r.0 as i64),
            from_whole(r.1 as i64),
            from_whole(r.2 as i64),
            from_whole(r.3 as i64),
        )
    }
}

} // verus!
