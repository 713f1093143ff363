//! Setting one pixel of a frame buffer.

use crate::canvas::rectangle::boxed;
use crate::canvas::rectangle::fill;
use crate::fixed::round;
use crate::graphics::color::Color;
use crate::graphics::point::Point;
use vstd::prelude::*;

verus! {

/// The frame buffer after the pixel nearest to `point` was set to `color`;
/// a point outside the frame changes nothing.
pub open spec fn point_drawn(
    before: Seq<u8>,
    width: u32,
    height: u32,
    point: Point,
    color: Color,
) -> Seq<u8> {
    boxed(before, width, height, round(point.x) as int, round(point.y) as int, 1, 1, color)
}

/// Sets the pixel nearest to `point` to `color`.
pub fn render(buffer: &mut [u8], width: u32, height: u32, point: &Point, color: &Color)
    ensures
        final(buffer)@ == point_drawn(old(buffer)@, width, height, *point, *color),
{
    fill(buffer, width, height, round(point.x), round(point.y), 1, 1, color);
}

} // verus!
