//! Drawing a list of graphics in order.

use crate::canvas::background;
use crate::canvas::image;
use crate::canvas::point;
use crate::canvas::rectangle;
use crate::canvas::sprite;
use crate::graphics::graphic::Drawing;
use crate::graphics::graphic::Graphic;
use vstd::prelude::*;

verus! {

/// The frame buffer after one drawing was added.
pub open spec fn drawn_over(before: Seq<u8>, width: u32, height: u32, drawing: Drawing) -> Seq<u8> {
    match drawing {
        Drawing::Nothing => before,
        Drawing::Background { color } => background::filled(before, color),
        Drawing::Point { point, color } => point::point_drawn(before, width, height, point, color),
        Drawing::Rectangle { rectangle, color } => rectangle::rectangle_drawn(
            before,
            width,
            height,
            rectangle,
            color,
        ),
        Drawing::Image { picture } => image::drawn(before, width, height, picture),
        Drawing::Sprite { picture, point, rectangle } => sprite::sprite_drawn(
            before,
            width,
            height,
            point,
            rectangle,
            picture,
        ),
    }
}

/// The frame buffer after the first `count` of `graphics` were drawn in
/// order, each over what the ones before it left.
pub open spec fn composed(
    before: Seq<u8>,
    width: u32,
    height: u32,
    graphics: Seq<&Graphic>,
    count: nat,
) -> Seq<u8>
    decreases count,
{
    if count == 0 {
        before
    } else {
        drawn_over(
            composed(before, width, height, graphics, (count - 1) as nat),
            width,
            height,
            graphics[count - 1]@,
        )
    }
}

/// Draws `graphics` into the frame buffer in order, later ones over earlier
/// ones.
pub fn render(buffer: &mut [u8], width: u32, height: u32, graphics: &Vec<&Graphic>)
    ensures
        final(buffer)@ == composed(old(buffer)@, width, height, graphics@, graphics@.len()),
{
    let ghost before = buffer@;
    let mut i: usize = 0;
    while i < graphics.len()
        invariant
            i <= graphics.len(),
            buffer@ == composed(before, width, height, graphics@, i as nat),
        decreases graphics.len() - i,
    {
        match graphics[i] {
            Graphic::Background { color } => {
                background::render(buffer, color);
            },
            Graphic::Point { point, color } => {
                point::render(buffer, width, height, point, color);
            },
            Graphic::Rectangle { rectangle, color } => {
                rectangle::render(buffer, width, height, rectangle, color);
            },
            Graphic::Image { image } => {
                image::render(buffer, width, height, image);
            },
            Graphic::Sprite { image, point, rectangle } => {
                sprite::render(buffer, width, height, point, rectangle, image);
            },
            _ => {},
        }
        i += 1;
    }
}

} // verus!
