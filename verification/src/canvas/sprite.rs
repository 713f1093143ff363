//! Copying a framed part of an image into a frame buffer.

use crate::canvas::image::blit;
use crate::canvas::image::blitted;
use crate::fixed::round;
use crate::graphics::image::Image;
use crate::graphics::image::Picture;
use crate::graphics::point::Point;
use crate::graphics::rectangle::Rectangle;
use vstd::prelude::*;

verus! {

/// Whether `rectangle`, with its corner and its extent each rounded to the
/// nearest pixel, frames a part of `picture`: it starts at or after the
/// picture's corner and ends inside it.
pub open spec fn frames(rectangle: Rectangle, picture: Picture) -> bool {
    &&& round(rectangle.x) >= 0
    &&& round(rectangle.y) >= 0
    &&& round(rectangle.x) + round(rectangle.width) <= picture.width
    &&& round(rectangle.y) + round(rectangle.height) <= picture.height
}

/// The frame buffer after the part of `picture` that `rectangle` frames was
/// drawn with its corner at `point`, rounded to the nearest pixel. A
/// rectangle that does not frame a part of the picture draws nothing.
pub open spec fn sprite_drawn(
    before: Seq<u8>,
    width: u32,
    height: u32,
    point: Point,
    rectangle: Rectangle,
    picture: Picture,
) -> Seq<u8> {
    if frames(rectangle, picture) {
        blitted(
            before,
            width,
            height,
            picture,
            round(point.x) as int,
            round(point.y) as int,
            round(rectangle.x) as int,
            round(rectangle.y) as int,
            round(rectangle.width) as int,
            round(rectangle.height) as int,
        )
    } else {
        before
    }
}

/// Draws the part of `image` that `rectangle` frames with its corner at
/// `point`. Parts outside the frame buffer are clipped, and a source pixel
/// whose alpha is zero leaves the frame's pixel as it was.
pub fn render(
    buffer: &mut [u8],
    width: u32,
    height: u32,
    point: &Point,
    rectangle: &Rectangle,
    image: &Image,
)
    ensures
        final(buffer)@ == sprite_drawn(old(buffer)@, width, height, *point, *rectangle, image@),
{
    let rx: i32 = round(rectangle.x);
    let ry: i32 = round(rectangle.y);
    if rx < 0 || ry < 0 {
        return ;
    }
    let rw: i32 = round(rectangle.width);
    let rh: i32 = round(rectangle.height);
    if rx as i64 + rw as i64 > image.width() as i64 || ry as i64 + rh as i64 > image.height() as i64 {
        return ;
    }
    let x0: i32 = round(point.x);
    let y0: i32 = round(point.y);
    if rw <= 0 || rh <= 0 {
        proof {
            assert(buffer@ =~= blitted(
                buffer@,
                width,
                height,
                image@,
                x0 as int,
                y0 as int,
                rx as int,
                ry as int,
                rw as int,
                rh as int,
            ));
        }
        return ;
    }
    blit(buffer, width, height, x0, y0, image, rx as u32, ry as u32, rw as u32, rh as u32);
}

} // verus!
