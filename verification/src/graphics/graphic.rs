//! The closed set of things that can be drawn.

use crate::graphics::color::Color;
use crate::graphics::image::Image;
use crate::graphics::image::Picture;
use crate::graphics::point::Point;
use crate::graphics::rectangle::Rectangle;
use vstd::prelude::*;

verus! {

/// Something to draw into a frame.
#[derive(Debug, Clone, Default)]
pub enum Graphic {
    /// Nothing.
    #[default]
    Nothing,
    /// The whole frame in one colour.
    Background { color: Color },
    /// One pixel.
    Point { point: Point, color: Color },
    /// A filled box.
    Rectangle { rectangle: Rectangle, color: Color },
    /// An image at its own position.
    Image { image: Image },
    /// The part of an image that `rectangle` frames, drawn at `point`.
    Sprite { image: Image, point: Point, rectangle: Rectangle },
}

/// What a [`Graphic`] stands for, with each image as its [`Picture`].
pub enum Drawing {
    Nothing,
    Background { color: Color },
    Point { point: Point, color: Color },
    Rectangle { rectangle: Rectangle, color: Color },
    Image { picture: Picture },
    Sprite { picture: Picture, point: Point, rectangle: Rectangle },
}

impl Drawing {
    /// The same drawing at the position `(x, y)`. A background and nothing
    /// have no position and stay as they are.
    pub open spec fn moved(self, x: i64, y: i64) -> Drawing {
        match self {
            Drawing::Nothing => self,
            Drawing::Background { .. } => self,
            Drawing::Point { point, color } => Drawing::Point { point: Point { x, y }, color },
            Drawing::Rectangle { rectangle, color } => Drawing::Rectangle {
                rectangle: Rectangle { x, y, ..rectangle },
                color,
            },
            Drawing::Image { picture } => Drawing::Image { picture: picture.moved(x, y) },
            Drawing::Sprite { picture, point, rectangle } => Drawing::Sprite {
                picture,
                point: Point { x, y },
                rectangle,
            },
        }
    }
}

impl View for Graphic {
    type V = Drawing;

    open spec fn view(&self) -> Drawing {
        match *self {
            Graphic::Nothing => Drawing::Nothing,
            Graphic::Background { color } => Drawing::Background { color },
            Graphic::Point { point, color } => Drawing::Point { point, color },
            Graphic::Rectangle { rectangle, color } => Drawing::Rectangle { rectangle, color },
            Graphic::Image { image } => Drawing::Image { picture: image@ },
            Graphic::Sprite { image, point, rectangle } => Drawing::Sprite {
                picture: image@,
                point,
                rectangle,
            },
        }
    }
}

impl Graphic {
    pub fn none() -> (g: Self)
        ensures
            g@ == Drawing::Nothing,
    {
        Graphic::Nothing
    }

    pub fn background(color: Color) -> (g: Self)
        ensures
            g@ == (Drawing::Background { color }),
    {
        Graphic::Background { color }
    }

    pub fn point(point: Point, color: Color) -> (g: Self)
        ensures
            g@ == (Drawing::Point { point, color }),
    {
        Graphic::Point { point, color }
    }

    pub fn rectangle(rectangle: Rectangle, color: Color) -> (g: Self)
        ensures
            g@ == (Drawing::Rectangle { rectangle, color }),
    {
        Graphic::Rectangle { rectangle, color }
    }

    pub fn image(image: Image) -> (g: Self)
        ensures
            g@ == (Drawing::Image { picture: image@ }),
    {
        Graphic::Image { image }
    }

    /// An image moved to the position `(x, y)`.
    pub fn image_x_y(image: Image, x: i64, y: i64) -> (g: Self)
        ensures
            g@ == (Drawing::Image { picture: image@.moved(x, y) }),
    {
        let mut image = image;
        image.set_x(x);
        image.set_y(y);
        Graphic::Image { image }
    }

    /// The cut-out of `image` that `rectangle` frames, as an image of its own;
    /// see [`Image::crop_rectangle`].
    pub fn cropped_image(image: &mut Image, rectangle: Rectangle) -> (g: Self)
        ensures
            final(image)@ == old(image)@,
            g@ == (Drawing::Image {
                picture: old(image)@.cropped(
                    crate::fixed::whole_u32(rectangle.x),
                    crate::fixed::whole_u32(rectangle.y),
                    crate::fixed::whole_u32(rectangle.width),
                    crate::fixed::whole_u32(rectangle.height),
                ),
            }),
    {
        let image = image.crop_rectangle(rectangle);
        Graphic::Image { image }
    }

    pub fn sprite(image: Image, point: Point, rectangle: Rectangle) -> (g: Self)
        ensures
            g@ == (Drawing::Sprite { picture: image@, point, rectangle }),
    {
        Graphic::Sprite { image, point, rectangle }
    }

    /// Moves the drawing to the position `(x, y)`.
    pub fn set_x_y(&mut self, x: i64, y: i64)
        ensures
            final(self)@ == old(self)@.moved(x, y),
    {
        match self {
            Graphic::Point { point, .. } => {
                point.x = x;
                point.y = y;
            },
            Graphic::Rectangle { rectangle, .. } => {
                rectangle.x = x;
                rectangle.y = y;
            },
            Graphic::Image { image } => {
                image.set_x(x);
                image.set_y(y);
            },
            Graphic::Sprite { point, .. } => {
                point.x = x;
                point.y = y;
            },
            _ => {},
        }
    }
}

} // verus!
