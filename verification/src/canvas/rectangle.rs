//! Filling a box of a frame buffer with one colour.

use crate::canvas::background::channel_of;
use crate::fixed::round;
use crate::graphics::color::Color;
use crate::graphics::image::lemma_index_parts;
use crate::graphics::rectangle::Rectangle;
use vstd::arithmetic::div_mod::lemma_div_pos_is_pos;
use vstd::arithmetic::div_mod::lemma_fundamental_div_mod;
use vstd::arithmetic::div_mod::lemma_mod_pos_bound;
use vstd::prelude::*;

verus! {

/// Byte `k` of a frame buffer while the box of `across` by `down` pixels with
/// its corner at column `x0` of row `y0` is being filled, once the frame's
/// rows above `rows` and the columns left of `cols` in row `rows` are done.
pub open spec fn boxed_byte_until(
    before: Seq<u8>,
    width: u32,
    height: u32,
    x0: int,
    y0: int,
    across: int,
    down: int,
    color: Color,
    rows: int,
    cols: int,
    k: int,
) -> u8 {
    let pixel = k / 4;
    let col = pixel % (width as int);
    let row = pixel / (width as int);
    if width > 0 && row < height && 4 * pixel + 3 < before.len() && x0 <= col < x0 + across && y0
        <= row < y0 + down && (row < rows || (row == rows && col < cols)) {
        channel_of(color, k % 4)
    } else {
        before[k]
    }
}

/// The frame buffer after the box of `across` by `down` pixels with its
/// corner at column `x0` of row `y0` was filled with `color`, clipped to the
/// frame.
pub open spec fn boxed(
    before: Seq<u8>,
    width: u32,
    height: u32,
    x0: int,
    y0: int,
    across: int,
    down: int,
    color: Color,
) -> Seq<u8> {
    Seq::new(
        before.len(),
        |k: int|
            boxed_byte_until(
                before,
                width,
                height,
                x0,
                y0,
                across,
                down,
                color,
                height as int,
                0,
                k,
            ),
    )
}

/// `v` brought into the range from zero to `limit`.
fn within(v: i64, limit: u32) -> (r: u32)
    ensures
        r == if v < 0 {
            0
        } else if v > limit {
            limit as int
        } else {
            v as int
        },
{
    if v < 0 {
        0
    } else if v > limit as i64 {
        limit
    } else {
        v as u32
    }
}

/// Fills a box of the frame with `color`, see [`boxed`].
pub(crate) fn fill(
    buffer: &mut [u8],
    width: u32,
    height: u32,
    x0: i32,
    y0: i32,
    across: i32,
    down: i32,
    color: &Color,
)
    ensures
        final(buffer)@ == boxed(
            old(buffer)@,
            width,
            height,
            x0 as int,
            y0 as int,
            across as int,
            down as int,
            *color,
        ),
{
    let ghost before = buffer@;
    let len: usize = buffer.len();
    let whole: u64 = (len / 4) as u64;
    let first_col: u32 = within(x0 as i64, width);
    let last_col: u32 = within(x0 as i64 + across as i64, width);
    let first_row: u32 = within(y0 as i64, height);
    let last_row: u32 = within(y0 as i64 + down as i64, height);
    let mut row: u32 = first_row;
    while row < last_row
        invariant
            buffer@.len() == before.len(),
            len == before.len(),
            whole == len / 4,
            first_row <= row,
            last_row <= height,
            first_col <= width,
            last_col <= width,
            first_col == if x0 < 0 {
                0
            } else if x0 > width {
                width as int
            } else {
                x0 as int
            },
            last_col == if x0 + across < 0 {
                0
            } else if x0 + across > width {
                width as int
            } else {
                x0 + across
            },
            first_row == if y0 < 0 {
                0
            } else if y0 > height {
                height as int
            } else {
                y0 as int
            },
            last_row == if y0 + down < 0 {
                0
            } else if y0 + down > height {
                height as int
            } else {
                y0 + down
            },
            forall|k: int|
                0 <= k < before.len() ==> buffer@[k] == boxed_byte_until(
                    before,
                    width,
                    height,
                    x0 as int,
                    y0 as int,
                    across as int,
                    down as int,
                    *color,
                    row as int,
                    0,
                    k,
                ),
        decreases last_row - row,
    {
        let mut col: u32 = first_col;
        proof {
            assert forall|k: int| 0 <= k < before.len() implies buffer@[k] == boxed_byte_until(
                before,
                width,
                height,
                x0 as int,
                y0 as int,
                across as int,
                down as int,
                *color,
                row as int,
                first_col as int,
                k,
            ) by {
                if width > 0 {
                    lemma_mod_pos_bound(k / 4, width as int);
                }
            }
        }
        while col < last_col
            invariant
                buffer@.len() == before.len(),
                len == before.len(),
                whole == len / 4,
                first_row <= row < last_row,
                last_row <= height,
                first_col <= col,
                last_col <= width,
                first_col == if x0 < 0 {
                    0
                } else if x0 > width {
                    width as int
                } else {
                    x0 as int
                },
                last_col == if x0 + across < 0 {
                    0
                } else if x0 + across > width {
                    width as int
                } else {
                    x0 + across
                },
                first_row == if y0 < 0 {
                    0
                } else if y0 > height {
                    height as int
                } else {
                    y0 as int
                },
                last_row == if y0 + down < 0 {
                    0
                } else if y0 + down > height {
                    height as int
                } else {
                    y0 + down
                },
                forall|k: int|
                    0 <= k < before.len() ==> buffer@[k] == boxed_byte_until(
                        before,
                        width,
                        height,
                        x0 as int,
                        y0 as int,
                        across as int,
                        down as int,
                        *color,
                        row as int,
                        col as int,
                        k,
                    ),
            decreases last_col - col,
        {
            let ghost earlier = buffer@;
            let ghost mut target: int = -4;
            assert(row * width + col < width * height && 0 <= row * width <= 0xffff_ffff
                * 0xffff_ffff) by (nonlinear_arith)
                requires
                    0 <= col < width,
                    0 <= row < height,
                    height <= 0xffff_ffff,
                    width <= 0xffff_ffff,
            ;
            let pixel: u64 = row as u64 * width as u64 + col as u64;
            if pixel < whole {
                let at: usize = (pixel * 4) as usize;
                buffer[at] = color.red;
                buffer[at + 1] = color.green;
                buffer[at + 2] = color.blue;
                buffer[at + 3] = color.alpha;
                proof {
                    target = at as int;
                }
            }
            proof {
                assert forall|k: int| 0 <= k < before.len() implies buffer@[k] == boxed_byte_until(
                    before,
                    width,
                    height,
                    x0 as int,
                    y0 as int,
                    across as int,
                    down as int,
                    *color,
                    row as int,
                    col + 1,
                    k,
                ) by {
                    let pixel_k = k / 4;
                    lemma_fundamental_div_mod(pixel_k, width as int);
                    lemma_mod_pos_bound(pixel_k, width as int);
                    lemma_div_pos_is_pos(pixel_k, width as int);
                    let c = pixel_k % (width as int);
                    let r = pixel_k / (width as int);
                    assert(width * r == r * width) by (nonlinear_arith);
                    lemma_index_parts(width as int, row as int, col as int, 0);
                    if c == col && r == row {
                        assert(pixel_k == row * width + col);
                    } else {
                        if target >= 0 {
                            assert(pixel_k != row * width + col);
                            assert(!(target <= k < target + 4));
                        }
                        assert(buffer@[k] == earlier[k]);
                    }
                }
            }
            col += 1;
        }
        proof {
            assert forall|k: int| 0 <= k < before.len() implies buffer@[k] == boxed_byte_until(
                before,
                width,
                height,
                x0 as int,
                y0 as int,
                across as int,
                down as int,
                *color,
                row + 1,
                0,
                k,
            ) by {
                if width > 0 {
                    lemma_mod_pos_bound(k / 4, width as int);
                }
            }
        }
        row += 1;
    }
    proof {
        assert(buffer@ =~= boxed(
            before,
            width,
            height,
            x0 as int,
            y0 as int,
            across as int,
            down as int,
            *color,
        ));
    }
}

/// The frame buffer after `rectangle` was filled with `color`: its corner and
/// its extent are each rounded to the nearest pixel.
pub open spec fn rectangle_drawn(
    before: Seq<u8>,
    width: u32,
    height: u32,
    rectangle: Rectangle,
    color: Color,
) -> Seq<u8> {
    boxed(
        before,
        width,
        height,
        round(rectangle.x) as int,
        round(rectangle.y) as int,
        round(rectangle.width) as int,
        round(rectangle.height) as int,
        color,
    )
}

/// Fills `rectangle` with `color`, clipped to the frame.
pub fn render(buffer: &mut [u8], width: u32, height: u32, rectangle: &Rectangle, color: &Color)
    ensures
        final(buffer)@ == rectangle_drawn(old(buffer)@, width, height, *rectangle, *color),
{
    fill(
        buffer,
        width,
        height,
        round(rectangle.x),
        round(rectangle.y),
        round(rectangle.width),
        round(rectangle.height),
        color,
    );
}

} // verus!
