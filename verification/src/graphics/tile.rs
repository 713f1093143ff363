//! Level tiles and the textual map that lists them.
//!
//! A map is a grid of text. Lines end at a line feed. Each line is read two
//! bytes at a time, the last token of a line with an odd number of bytes being
//! a single byte. The token of two spaces is an empty cell; every other token
//! is the tile's id in hexadecimal.

use crate::fixed::saturate;
use crate::graphics::point::Point;
use crate::graphics::rectangle::Rectangle;
use vstd::prelude::*;
use vstd::string::StringSliceAdditionalSpecFns;

verus! {

/// One cell of a level that holds a tile.
#[derive(Debug, Copy, Clone, PartialEq, Eq, Structural)]
pub struct Tile {
    /// Which texture the tile shows.
    pub id: u32,
    /// The top-left corner in the world.
    pub position: Point,
    /// The box that the tile fills in the world.
    pub boundary: Rectangle,
}

/// Why a map could not be read.
#[derive(Debug, Copy, Clone, PartialEq, Eq, Structural)]
pub enum MapError {
    /// A token holds a byte outside ASCII.
    NonAscii,
    /// A token is neither two spaces nor a hexadecimal number.
    InvalidHex,
}

/// The value of a hexadecimal digit, in either case.
pub open spec fn hex_value(b: u8) -> Option<u32> {
    if 0x30 <= b <= 0x39 {
        Some((b - 0x30) as u32)
    } else if 0x61 <= b <= 0x66 {
        Some((b - 0x61 + 10) as u32)
    } else if 0x41 <= b <= 0x46 {
        Some((b - 0x41 + 10) as u32)
    } else {
        None
    }
}

/// What a token of one or two bytes stands for: an empty cell (`Ok(None)`), a
/// tile id, or an error. An id is one or two hexadecimal digits; a plus sign
/// may stand in place of the first of two.
pub open spec fn token_meaning(token: Seq<u8>) -> Result<Option<u32>, MapError> {
    if token.len() == 2 && token[0] == 0x20 && token[1] == 0x20 {
        Ok(None)
    } else if token[0] >= 0x80 || (token.len() == 2 && token[1] >= 0x80) {
        Err(MapError::NonAscii)
    } else if token.len() == 1 {
        match hex_value(token[0]) {
            Some(v) => Ok(Some(v)),
            None => Err(MapError::InvalidHex),
        }
    } else if token[0] == 0x2b {
        match hex_value(token[1]) {
            Some(v) => Ok(Some(v)),
            None => Err(MapError::InvalidHex),
        }
    } else {
        match (hex_value(token[0]), hex_value(token[1])) {
            (Some(high), Some(low)) => Ok(Some((16 * high + low) as u32)),
            _ => Err(MapError::InvalidHex),
        }
    }
}

/// The tile with the given id in column `col` of row `row` of a grid whose
/// cells are `width` by `height` whole units.
pub open spec fn tile_at(id: u32, col: int, row: int, width: u32, height: u32) -> Tile {
    let x = saturate(col * width * 1_000_000);
    let y = saturate(row * height * 1_000_000);
    Tile {
        id,
        position: Point { x, y },
        boundary: Rectangle {
            x,
            y,
            width: saturate(width * 1_000_000),
            height: saturate(height * 1_000_000),
        },
    }
}

/// How many bytes the token that starts at byte `i` holds: two, or one where
/// the line or the map ends after the first.
pub open spec fn token_len(map: Seq<u8>, i: int) -> int {
    if i + 1 < map.len() && map[i + 1] != 0x0a {
        2
    } else {
        1
    }
}

/// The tiles that the map lists from byte `i` on, where byte `i` starts the
/// token in column `col` of row `row`; or the error of the first token that
/// has none of the accepted forms.
pub open spec fn tiles_from(
    map: Seq<u8>,
    i: int,
    col: int,
    row: int,
    width: u32,
    height: u32,
) -> Result<Seq<Tile>, MapError>
    decreases map.len() - i,
{
    if i < 0 || i >= map.len() {
        Ok(Seq::empty())
    } else if map[i] == 0x0a {
        tiles_from(map, i + 1, 0, row + 1, width, height)
    } else {
        let n = token_len(map, i);
        match token_meaning(map.subrange(i, i + n)) {
            Err(e) => Err(e),
            Ok(None) => tiles_from(map, i + n, col + 1, row, width, height),
            Ok(Some(id)) => match tiles_from(map, i + n, col + 1, row, width, height) {
                Err(e) => Err(e),
                Ok(rest) => Ok(seq![tile_at(id, col, row, width, height)] + rest),
            },
        }
    }
}

/// The tiles that a whole map lists, row by row.
pub open spec fn tiles_of(map: Seq<u8>, width: u32, height: u32) -> Result<Seq<Tile>, MapError> {
    tiles_from(map, 0, 0, 0, width, height)
}

/// `found` put in front of what `rest` lists.
pub open spec fn after(found: Seq<Tile>, rest: Result<Seq<Tile>, MapError>) -> Result<
    Seq<Tile>,
    MapError,
> {
    match rest {
        Ok(more) => Ok(found + more),
        Err(e) => Err(e),
    }
}

/// Computes [`hex_value`].
fn digit(b: u8) -> (v: Option<u32>)
    ensures
        v == hex_value(b),
{
    if 0x30 <= b && b <= 0x39 {
        Some((b - 0x30) as u32)
    } else if 0x61 <= b && b <= 0x66 {
        Some((b - 0x61 + 10) as u32)
    } else if 0x41 <= b && b <= 0x46 {
        Some((b - 0x41 + 10) as u32)
    } else {
        None
    }
}

/// Reads a token of one byte.
fn short_token(first: u8) -> (meaning: Result<Option<u32>, MapError>)
    ensures
        meaning == token_meaning(seq![first]),
{
    if first >= 0x80 {
        Err(MapError::NonAscii)
    } else {
        match digit(first) {
            Some(v) => Ok(Some(v)),
            None => Err(MapError::InvalidHex),
        }
    }
}

/// Reads a token of two bytes.
fn long_token(first: u8, second: u8) -> (meaning: Result<Option<u32>, MapError>)
    ensures
        meaning == token_meaning(seq![first, second]),
{
    if first == 0x20 && second == 0x20 {
        Ok(None)
    } else if first >= 0x80 || second >= 0x80 {
        Err(MapError::NonAscii)
    } else if first == 0x2b {
        match digit(second) {
            Some(v) => Ok(Some(v)),
            None => Err(MapError::InvalidHex),
        }
    } else {
        match digit(first) {
            Some(high) => match digit(second) {
                Some(low) => Ok(Some(16 * high + low)),
                None => Err(MapError::InvalidHex),
            },
            None => Err(MapError::InvalidHex),
        }
    }
}

/// The fixed-point offset of cell number `cell` along an axis on which a cell
/// is `size` whole units long.
fn offset(cell: usize, size: u32) -> (r: i64)
    ensures
        r == saturate(cell * size * 1_000_000),
{
    assert(0 <= cell * size <= 0xffff_ffff_ffff_ffff * 0xffff_ffff) by (nonlinear_arith)
        requires
            0 <= cell <= 0xffff_ffff_ffff_ffff,
            0 <= size <= 0xffff_ffff,
    ;
    let wide: u128 = cell as u128 * size as u128 * 1_000_000;
    if wide > i64::MAX as u128 {
        i64::MAX
    } else {
        wide as i64
    }
}

impl Tile {
    pub fn new(id: u32, position: Point, boundary: Rectangle) -> (t: Self)
        ensures
            t == (Tile { id, position, boundary }),
    {
        Self { id, position, boundary }
    }

    /// Reads the tiles of a map whose cells are `width` by `height` whole
    /// units. The tile of the token in column `x` of row `y` lies at
    /// `(x * width, y * height)`. The first token that is neither empty nor
    /// a hexadecimal id fails the whole map.
    pub fn map_to_tiles(map: &str, width: u32, height: u32) -> (tiles: Result<Vec<Tile>, MapError>)
        ensures
            match tiles {
                Ok(list) => tiles_of(map.spec_bytes(), width, height) == Ok::<Seq<Tile>, MapError>(
                    list@,
                ),
                Err(e) => tiles_of(map.spec_bytes(), width, height) == Err::<Seq<Tile>, MapError>(
                    e,
                ),
            },
    {
        let bytes: &[u8] = map.as_bytes();
        let len: usize = bytes.len();
        let side: i64 = offset(1, width);
        let rise: i64 = offset(1, height);
        let mut tiles: Vec<Tile> = Vec::new();
        let mut i: usize = 0;
        let mut col: usize = 0;
        let mut row: usize = 0;
        while i < len
            invariant
                bytes@ == map.spec_bytes(),
                len == bytes@.len(),
                i <= len,
                col <= i,
                row <= i,
                side == saturate(width * 1_000_000),
                rise == saturate(height * 1_000_000),
                tiles_of(bytes@, width, height) == after(
                    tiles@,
                    tiles_from(bytes@, i as int, col as int, row as int, width, height),
                ),
            decreases len - i,
        {
            let first: u8 = bytes[i];
            if first == 0x0a {
                i += 1;
                col = 0;
                row += 1;
            } else {
                let long: bool = i + 1 < len && bytes[i + 1] != 0x0a;
                let meaning: Result<Option<u32>, MapError> = if long {
                    proof {
                        assert(bytes@.subrange(i as int, i + 2) =~= seq![first, bytes@[i + 1]]);
                    }
                    long_token(first, bytes[i + 1])
                } else {
                    proof {
                        assert(bytes@.subrange(i as int, i + 1) =~= seq![first]);
                    }
                    short_token(first)
                };
                match meaning {
                    Err(e) => {
                        return Err(e);
                    },
                    Ok(None) => {},
                    Ok(Some(id)) => {
                        let x: i64 = offset(col, width);
                        let y: i64 = offset(row, height);
                        let ghost rest = tiles_from(
                            bytes@,
                            i + token_len(bytes@, i as int),
                            col + 1,
                            row as int,
                            width,
                            height,
                        );
                        let ghost tile = tile_at(id, col as int, row as int, width, height);
                        proof {
                            if rest is Ok {
                                assert(tiles@ + (seq![tile] + rest->Ok_0) =~= tiles@.push(tile)
                                    + rest->Ok_0);
                            }
                        }
                        tiles.push(Tile::new(id, Point::new(x, y), Rectangle::new(x, y, side, rise)));
                    },
                }
                i += if long {
                    2
                } else {
                    1
                };
                col += 1;
            }
        }
        proof {
            assert(tiles@ + Seq::<Tile>::empty() =~= tiles@);
        }
        Ok(tiles)
    }
}

} // verus!
