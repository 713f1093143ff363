use platform_prototype::graphics::point::Point;
use platform_prototype::graphics::rectangle::Rectangle;
use platform_prototype::graphics::tile::{MapError, Tile};

const ONE: i64 = 1_000_000;

fn tile(id: u32, x: i64, y: i64, w: i64, h: i64) -> Tile {
    Tile::new(
        id,
        Point::new(x * ONE, y * ONE),
        Rectangle::new(x * ONE, y * ONE, w * ONE, h * ONE),
    )
}

#[test]
fn tile_new_keeps_its_fields() {
    let t = Tile::new(7, Point::new(1, 2), Rectangle::new(1, 2, 3, 4));
    assert_eq!(t.id, 7);
    assert_eq!(t.position, Point::new(1, 2));
    assert_eq!(t.boundary, Rectangle::new(1, 2, 3, 4));
}

#[test]
fn map_line_with_a_gap_yields_three_tiles() {
    let tiles = Tile::map_to_tiles("0102  03", 16, 16).unwrap();
    assert_eq!(
        tiles,
        vec![tile(0x01, 0, 0, 16, 16), tile(0x02, 16, 0, 16, 16), tile(0x03, 48, 0, 16, 16)]
    );
}

#[test]
fn map_rows_follow_the_lines() {
    let tiles = Tile::map_to_tiles("  0a\n\nFf  \n  1", 8, 4).unwrap();
    assert_eq!(
        tiles,
        vec![tile(0x0a, 8, 0, 8, 4), tile(0xff, 0, 8, 8, 4), tile(0x1, 8, 12, 8, 4)]
    );
}

#[test]
fn empty_map_has_no_tiles() {
    assert_eq!(Tile::map_to_tiles("", 16, 16).unwrap(), vec![]);
    assert_eq!(Tile::map_to_tiles("\n\n", 16, 16).unwrap(), vec![]);
    assert_eq!(Tile::map_to_tiles("    \n  ", 16, 16).unwrap(), vec![]);
}

#[test]
fn map_token_with_a_plus_sign_is_one_digit() {
    assert_eq!(Tile::map_to_tiles("+c", 2, 2).unwrap(), vec![tile(12, 0, 0, 2, 2)]);
}

#[test]
fn map_with_a_bad_token_fails() {
    assert_eq!(Tile::map_to_tiles("0g", 16, 16).unwrap_err(), MapError::InvalidHex);
    assert_eq!(Tile::map_to_tiles("01 2", 16, 16).unwrap_err(), MapError::InvalidHex);
    assert_eq!(Tile::map_to_tiles("01\n ", 16, 16).unwrap_err(), MapError::InvalidHex);
    assert_eq!(Tile::map_to_tiles("-1", 16, 16).unwrap_err(), MapError::InvalidHex);
    assert_eq!(Tile::map_to_tiles("+", 16, 16).unwrap_err(), MapError::InvalidHex);
    assert_eq!(Tile::map_to_tiles("++", 16, 16).unwrap_err(), MapError::InvalidHex);
    assert_eq!(Tile::map_to_tiles("01\r\n02", 16, 16).unwrap_err(), MapError::InvalidHex);
}

#[test]
fn map_with_a_byte_outside_ascii_fails() {
    assert_eq!(Tile::map_to_tiles("01\u{e9}", 16, 16).unwrap_err(), MapError::NonAscii);
    assert_eq!(Tile::map_to_tiles("0\u{20ac}", 16, 16).unwrap_err(), MapError::NonAscii);
}

#[test]
fn map_fails_with_the_error_of_its_first_bad_token() {
    assert_eq!(Tile::map_to_tiles("zz\u{e9}", 16, 16).unwrap_err(), MapError::InvalidHex);
    assert_eq!(Tile::map_to_tiles("\u{e9}zz", 16, 16).unwrap_err(), MapError::NonAscii);
}

#[test]
fn map_cells_of_no_size_all_lie_at_the_corner() {
    assert_eq!(
        Tile::map_to_tiles("0101", 0, 0).unwrap(),
        vec![tile(1, 0, 0, 0, 0), tile(1, 0, 0, 0, 0)]
    );
}
