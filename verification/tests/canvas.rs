use platform_prototype::canvas;
use platform_prototype::graphics::color::Color;
use platform_prototype::graphics::graphic::Graphic;
use platform_prototype::graphics::image::Image;
use platform_prototype::graphics::point::Point;
use platform_prototype::graphics::rectangle::Rectangle;

const ONE: i64 = 1_000_000;

/// An image of `width` by `height` pixels whose pixel `i`, counted row by
/// row, is `(i + 1, 100 + i, 200, alpha)`.
fn picture(x: i64, y: i64, width: u32, height: u32, alpha: u8) -> Image {
    let mut bytes = Vec::new();
    for i in 0..width * height {
        bytes.extend_from_slice(&[(i + 1) as u8, (100 + i) as u8, 200, alpha]);
    }
    Image::new(x * ONE, y * ONE, width, height, bytes).unwrap()
}

/// The pixel in column `col` of row `row` of a frame `width` pixels wide.
fn pixel(buffer: &[u8], width: usize, col: usize, row: usize) -> [u8; 4] {
    let at = (row * width + col) * 4;
    [buffer[at], buffer[at + 1], buffer[at + 2], buffer[at + 3]]
}

#[test]
fn opaque_image_at_the_corner_fills_exactly_its_block() {
    let mut buffer = vec![0u8; 4 * 4 * 4];
    let image = picture(0, 0, 2, 2, 255);
    canvas::image::render(&mut buffer, 4, 4, &image);
    for row in 0..4 {
        for col in 0..4 {
            let expected = if row < 2 && col < 2 {
                let i = (row * 2 + col) as u8;
                [i + 1, 100 + i, 200, 255]
            } else {
                [0, 0, 0, 0]
            };
            assert_eq!(pixel(&buffer, 4, col, row), expected);
        }
    }
}

#[test]
fn image_is_drawn_at_its_rounded_position() {
    let mut buffer = vec![0u8; 4 * 4 * 4];
    let mut image = picture(0, 0, 1, 1, 255);
    image.set_x_y(1_500_000, 2_499_999);
    canvas::image::render(&mut buffer, 4, 4, &image);
    assert_eq!(pixel(&buffer, 4, 2, 2), [1, 100, 200, 255]);
    assert_eq!(buffer.iter().filter(|b| **b != 0).count(), 4);
}

#[test]
fn transparent_pixels_leave_the_frame_as_it_was() {
    let mut buffer = vec![9u8; 2 * 2 * 4];
    let image = Image::new(
        0,
        0,
        2,
        1,
        vec![1, 2, 3, 0, 4, 5, 6, 1],
    )
    .unwrap();
    canvas::image::render(&mut buffer, 2, 2, &image);
    assert_eq!(pixel(&buffer, 2, 0, 0), [9, 9, 9, 9]);
    assert_eq!(pixel(&buffer, 2, 1, 0), [4, 5, 6, 1]);
    assert_eq!(pixel(&buffer, 2, 0, 1), [9, 9, 9, 9]);
}

#[test]
fn image_is_clipped_at_every_edge() {
    let mut buffer = vec![0u8; 3 * 3 * 4];
    canvas::image::render(&mut buffer, 3, 3, &picture(-1, -1, 2, 2, 255));
    assert_eq!(pixel(&buffer, 3, 0, 0), [4, 103, 200, 255]);
    assert_eq!(buffer.iter().filter(|b| **b != 0).count(), 4);
    let mut buffer = vec![0u8; 3 * 3 * 4];
    canvas::image::render(&mut buffer, 3, 3, &picture(2, 2, 2, 2, 255));
    assert_eq!(pixel(&buffer, 3, 2, 2), [1, 100, 200, 255]);
    assert_eq!(buffer.iter().filter(|b| **b != 0).count(), 4);
    let mut buffer = vec![0u8; 3 * 3 * 4];
    canvas::image::render(&mut buffer, 3, 3, &picture(3, 0, 2, 2, 255));
    canvas::image::render(&mut buffer, 3, 3, &picture(0, 3, 2, 2, 255));
    canvas::image::render(&mut buffer, 3, 3, &picture(-2, 0, 2, 2, 255));
    canvas::image::render(&mut buffer, 3, 3, &picture(0, -2, 2, 2, 255));
    assert_eq!(buffer, vec![0u8; 3 * 3 * 4]);
}

#[test]
fn image_wider_than_the_frame_does_not_wrap_into_the_next_row() {
    let mut buffer = vec![0u8; 2 * 2 * 4];
    canvas::image::render(&mut buffer, 2, 2, &picture(0, 0, 5, 2, 255));
    assert_eq!(pixel(&buffer, 2, 0, 0), [1, 100, 200, 255]);
    assert_eq!(pixel(&buffer, 2, 1, 0), [2, 101, 200, 255]);
    assert_eq!(pixel(&buffer, 2, 0, 1), [6, 105, 200, 255]);
    assert_eq!(pixel(&buffer, 2, 1, 1), [7, 106, 200, 255]);
}

#[test]
fn image_far_outside_the_frame_draws_nothing() {
    let mut buffer = vec![0u8; 2 * 2 * 4];
    let mut image = picture(0, 0, 2, 2, 255);
    image.set_x_y(i64::MAX, i64::MIN);
    canvas::image::render(&mut buffer, 2, 2, &image);
    image.set_x_y(i64::MIN, i64::MAX);
    canvas::image::render(&mut buffer, 2, 2, &image);
    assert_eq!(buffer, vec![0u8; 16]);
}

#[test]
fn buffer_shorter_than_the_frame_takes_only_whole_pixels() {
    let mut buffer = vec![0u8; 2 * 4 + 3];
    canvas::image::render(&mut buffer, 2, 2, &picture(0, 0, 2, 2, 255));
    assert_eq!(pixel(&buffer, 2, 0, 0), [1, 100, 200, 255]);
    assert_eq!(pixel(&buffer, 2, 1, 0), [2, 101, 200, 255]);
    assert_eq!(&buffer[8..], &[0, 0, 0]);
}

#[test]
fn frame_without_pixels_takes_nothing() {
    let mut buffer: Vec<u8> = Vec::new();
    canvas::image::render(&mut buffer, 0, 0, &picture(0, 0, 2, 2, 255));
    let mut buffer = vec![0u8; 16];
    canvas::image::render(&mut buffer, 0, 4, &picture(0, 0, 2, 2, 255));
    canvas::image::render(&mut buffer, 4, 0, &picture(0, 0, 2, 2, 255));
    assert_eq!(buffer, vec![0u8; 16]);
    canvas::image::render(&mut buffer, 2, 2, &Image::new(0, 0, 0, 0, Vec::new()).unwrap());
    assert_eq!(buffer, vec![0u8; 16]);
}

#[test]
fn background_fills_every_pixel() {
    let mut buffer = vec![0u8; 2 * 2 * 4];
    canvas::background::render(&mut buffer, &Color::new(1, 2, 3, 4));
    assert_eq!(buffer, [1, 2, 3, 4].repeat(4));
}

#[test]
fn background_leaves_a_part_of_a_pixel_at_the_end() {
    let mut buffer = vec![7u8; 4 + 3];
    canvas::background::render(&mut buffer, &Color::new(1, 2, 3, 4));
    assert_eq!(buffer, vec![1, 2, 3, 4, 7, 7, 7]);
}

#[test]
fn sprite_draws_the_framed_part_of_the_image() {
    let mut buffer = vec![0u8; 4 * 4 * 4];
    let image = picture(9, 9, 3, 3, 255);
    canvas::sprite::render(
        &mut buffer,
        4,
        4,
        &Point::new(2 * ONE, ONE),
        &Rectangle::new(ONE, ONE, 2 * ONE, 2 * ONE),
        &image,
    );
    assert_eq!(pixel(&buffer, 4, 2, 1), [5, 104, 200, 255]);
    assert_eq!(pixel(&buffer, 4, 3, 1), [6, 105, 200, 255]);
    assert_eq!(pixel(&buffer, 4, 2, 2), [8, 107, 200, 255]);
    assert_eq!(pixel(&buffer, 4, 3, 2), [9, 108, 200, 255]);
    assert_eq!(buffer.iter().filter(|b| **b != 0).count(), 16);
}

#[test]
fn sprite_whose_frame_leaves_the_image_draws_nothing() {
    let image = picture(0, 0, 3, 3, 255);
    let mut buffer = vec![0u8; 4 * 4 * 4];
    let at = Point::new(0, 0);
    canvas::sprite::render(&mut buffer, 4, 4, &at, &Rectangle::new(-ONE, 0, ONE, ONE), &image);
    canvas::sprite::render(&mut buffer, 4, 4, &at, &Rectangle::new(0, -ONE, ONE, ONE), &image);
    canvas::sprite::render(&mut buffer, 4, 4, &at, &Rectangle::new(2 * ONE, 0, 2 * ONE, ONE), &image);
    canvas::sprite::render(&mut buffer, 4, 4, &at, &Rectangle::new(0, 0, ONE, 4 * ONE), &image);
    canvas::sprite::render(&mut buffer, 4, 4, &at, &Rectangle::new(0, 0, 0, ONE), &image);
    canvas::sprite::render(&mut buffer, 4, 4, &at, &Rectangle::new(0, 0, ONE, -ONE), &image);
    canvas::sprite::render(&mut buffer, 4, 4, &at, &Rectangle::new(0, 0, i64::MAX, i64::MAX), &image);
    assert_eq!(buffer, vec![0u8; 64]);
}

#[test]
fn sprite_skips_transparent_pixels_and_clips() {
    let mut buffer = vec![9u8; 2 * 2 * 4];
    let image = Image::new(0, 0, 2, 2, vec![1, 1, 1, 0, 2, 2, 2, 2, 3, 3, 3, 3, 4, 4, 4, 4]).unwrap();
    canvas::sprite::render(
        &mut buffer,
        2,
        2,
        &Point::new(ONE, 0),
        &Rectangle::new(0, 0, 2 * ONE, 2 * ONE),
        &image,
    );
    assert_eq!(pixel(&buffer, 2, 0, 0), [9, 9, 9, 9]);
    assert_eq!(pixel(&buffer, 2, 1, 0), [9, 9, 9, 9]);
    assert_eq!(pixel(&buffer, 2, 1, 1), [3, 3, 3, 3]);
    assert_eq!(pixel(&buffer, 2, 0, 1), [9, 9, 9, 9]);
}

#[test]
fn rectangle_fills_its_box_clipped_to_the_frame() {
    let mut buffer = vec![0u8; 3 * 3 * 4];
    let color = Color::new(1, 2, 3, 4);
    canvas::rectangle::render(&mut buffer, 3, 3, &Rectangle::new(ONE, -ONE, 5 * ONE, 3 * ONE), &color);
    for row in 0..3 {
        for col in 0..3 {
            let expected = if col >= 1 && row < 2 { [1, 2, 3, 4] } else { [0, 0, 0, 0] };
            assert_eq!(pixel(&buffer, 3, col, row), expected);
        }
    }
}

#[test]
fn rectangle_without_extent_fills_nothing() {
    let mut buffer = vec![0u8; 3 * 3 * 4];
    let color = Color::new(1, 2, 3, 4);
    canvas::rectangle::render(&mut buffer, 3, 3, &Rectangle::new(ONE, ONE, 0, ONE), &color);
    canvas::rectangle::render(&mut buffer, 3, 3, &Rectangle::new(ONE, ONE, ONE, -ONE), &color);
    canvas::rectangle::render(&mut buffer, 3, 3, &Rectangle::new(5 * ONE, ONE, ONE, ONE), &color);
    assert_eq!(buffer, vec![0u8; 36]);
}

#[test]
fn point_sets_the_nearest_pixel() {
    let mut buffer = vec![0u8; 3 * 3 * 4];
    let color = Color::new(1, 2, 3, 4);
    canvas::point::render(&mut buffer, 3, 3, &Point::new(1_600_000, 400_000), &color);
    assert_eq!(pixel(&buffer, 3, 2, 0), [1, 2, 3, 4]);
    assert_eq!(buffer.iter().filter(|b| **b != 0).count(), 4);
    canvas::point::render(&mut buffer, 3, 3, &Point::new(3 * ONE, 0), &color);
    canvas::point::render(&mut buffer, 3, 3, &Point::new(-ONE, 0), &color);
    assert_eq!(buffer.iter().filter(|b| **b != 0).count(), 4);
}

#[test]
fn graphics_are_drawn_in_order() {
    let mut buffer = vec![0u8; 2 * 2 * 4];
    let back = Graphic::background(Color::new(5, 5, 5, 5));
    let dot = Graphic::point(Point::new(ONE, ONE), Color::new(6, 6, 6, 6));
    let image = Graphic::image(picture(0, 0, 1, 1, 255));
    let nothing = Graphic::none();
    let band = Graphic::rectangle(Rectangle::new(0, ONE, 2 * ONE, ONE), Color::new(7, 7, 7, 7));
    let part = Graphic::sprite(
        picture(0, 0, 2, 2, 255),
        Point::new(ONE, 0),
        Rectangle::new(ONE, ONE, ONE, ONE),
    );
    canvas::graphics::render(&mut buffer, 2, 2, &vec![&dot, &back, &nothing, &band, &image, &part]);
    assert_eq!(pixel(&buffer, 2, 0, 0), [1, 100, 200, 255]);
    assert_eq!(pixel(&buffer, 2, 1, 0), [4, 103, 200, 255]);
    assert_eq!(pixel(&buffer, 2, 0, 1), [7, 7, 7, 7]);
    assert_eq!(pixel(&buffer, 2, 1, 1), [7, 7, 7, 7]);
    canvas::graphics::render(&mut buffer, 2, 2, &vec![&back, &dot]);
    assert_eq!(pixel(&buffer, 2, 0, 0), [5, 5, 5, 5]);
    assert_eq!(pixel(&buffer, 2, 1, 1), [6, 6, 6, 6]);
}

#[test]
fn graphic_set_x_y_moves_what_has_a_position() {
    let mut buffer = vec![0u8; 3 * 3 * 4];
    let mut image = Graphic::image_x_y(picture(0, 0, 1, 1, 255), ONE, ONE);
    canvas::graphics::render(&mut buffer, 3, 3, &vec![&image]);
    assert_eq!(pixel(&buffer, 3, 1, 1), [1, 100, 200, 255]);
    image.set_x_y(2 * ONE, 0);
    let mut dot = Graphic::point(Point::new(0, 0), Color::new(6, 6, 6, 6));
    dot.set_x_y(0, 2 * ONE);
    let mut band = Graphic::rectangle(Rectangle::new(0, 0, ONE, ONE), Color::new(7, 7, 7, 7));
    band.set_x_y(2 * ONE, 2 * ONE);
    let mut part = Graphic::sprite(picture(0, 0, 2, 1, 255), Point::new(0, 0), Rectangle::new(ONE, 0, ONE, ONE));
    part.set_x_y(ONE, 2 * ONE);
    let mut back = Graphic::background(Color::new(0, 0, 0, 0));
    back.set_x_y(ONE, ONE);
    let mut nothing = Graphic::none();
    nothing.set_x_y(ONE, ONE);
    canvas::graphics::render(&mut buffer, 3, 3, &vec![&back, &nothing, &image, &dot, &band, &part]);
    assert_eq!(pixel(&buffer, 3, 1, 1), [0, 0, 0, 0]);
    assert_eq!(pixel(&buffer, 3, 2, 0), [1, 100, 200, 255]);
    assert_eq!(pixel(&buffer, 3, 0, 2), [6, 6, 6, 6]);
    assert_eq!(pixel(&buffer, 3, 2, 2), [7, 7, 7, 7]);
    assert_eq!(pixel(&buffer, 3, 1, 2), [2, 101, 200, 255]);
}

#[test]
fn graphic_cropped_image_is_a_cut_of_its_own() {
    let mut source = picture(0, 0, 2, 2, 255);
    let cut = Graphic::cropped_image(&mut source, Rectangle::new(ONE, ONE, ONE, ONE));
    source.update(0, 0, 1, 1, vec![0, 0, 0, 0]).unwrap();
    let mut buffer = vec![0u8; 4];
    canvas::graphics::render(&mut buffer, 1, 1, &vec![&cut]);
    assert_eq!(buffer, vec![4, 103, 200, 255]);
}
