//! Copying an image into a frame buffer.

use crate::fixed::round;
use crate::graphics::image::lemma_index_parts;
use crate::graphics::image::lemma_offset_in_range;
use crate::graphics::image::Image;
use crate::graphics::image::Picture;
use vstd::arithmetic::div_mod::lemma_div_pos_is_pos;
use vstd::arithmetic::div_mod::lemma_fundamental_div_mod;
use vstd::arithmetic::div_mod::lemma_mod_pos_bound;
use vstd::prelude::*;

verus! {

/// Byte `k` of a frame buffer while a window of `source` is being copied into
/// it with the window's corner at column `x0` of row `y0`, once the rows above
/// `rows` and the first `cols` pixels of row `rows` of the window are done.
///
/// The byte belongs to the pixel `k / 4`, which lies in column
/// `(k / 4) % width` of row `(k / 4) / width`. It takes the source's byte if
/// that pixel lies wholly inside the buffer and inside the `height` rows of
/// the frame, the window covers it, and the source pixel there is not fully
/// transparent. Every other byte keeps its value.
pub open spec fn blit_byte_until(
    before: Seq<u8>,
    width: u32,
    height: u32,
    source: Picture,
    x0: int,
    y0: int,
    left: int,
    top: int,
    across: int,
    down: int,
    rows: int,
    cols: int,
    k: int,
) -> u8 {
    let pixel = k / 4;
    let col = pixel % (width as int);
    let row = pixel / (width as int);
    let sc = col - x0;
    let sr = row - y0;
    if width > 0 && row < height && 4 * pixel + 3 < before.len() && 0 <= sc < across && 0 <= sr
        < down && (sr < rows || (sr == rows && sc < cols)) && source.channel(left + sc, top + sr, 3)
        > 0 {
        source.channel(left + sc, top + sr, k % 4)
    } else {
        before[k]
    }
}

/// The frame buffer after the window `across` by `down` pixels of `source`,
/// whose corner is the source's pixel in column `left` of row `top`, was
/// copied to column `x0` of row `y0`: pixels outside the frame are clipped,
/// and fully transparent source pixels leave the frame as it was.
pub open spec fn blitted(
    before: Seq<u8>,
    width: u32,
    height: u32,
    source: Picture,
    x0: int,
    y0: int,
    left: int,
    top: int,
    across: int,
    down: int,
) -> Seq<u8> {
    Seq::new(
        before.len(),
        |k: int|
            blit_byte_until(before, width, height, source, x0, y0, left, top, across, down, down, 0, k),
    )
}

/// The frame buffer after `picture` was drawn whole at its own position,
/// rounded to the nearest pixel.
pub open spec fn drawn(before: Seq<u8>, width: u32, height: u32, picture: Picture) -> Seq<u8> {
    blitted(
        before,
        width,
        height,
        picture,
        round(picture.x) as int,
        round(picture.y) as int,
        0,
        0,
        picture.width as int,
        picture.height as int,
    )
}

/// Copies a window of `image` into the frame buffer, see [`blitted`].
pub(crate) fn blit(
    buffer: &mut [u8],
    width: u32,
    height: u32,
    x0: i32,
    y0: i32,
    image: &Image,
    left: u32,
    top: u32,
    across: u32,
    down: u32,
)
    requires
        left + across <= image@.width,
        top + down <= image@.height,
    ensures
        final(buffer)@ == blitted(
            old(buffer)@,
            width,
            height,
            image@,
            x0 as int,
            y0 as int,
            left as int,
            top as int,
            across as int,
            down as int,
        ),
{
    let bytes: &[u8] = image.bytes();
    let sheet: u32 = image.width();
    let ghost before = buffer@;
    let ghost source = image@;
    let len: usize = buffer.len();
    let whole: u64 = (len / 4) as u64;
    let limit: usize = bytes.len();
    let mut sr: u32 = 0;
    while sr < down
        invariant
            source == image@,
            source.well_formed(),
            bytes@ == source.bytes,
            sheet == source.width,
            left + across <= source.width,
            top + down <= source.height,
            buffer@.len() == before.len(),
            len == before.len(),
            whole == len / 4,
            limit == source.width * source.height * 4,
            sr <= down,
            forall|k: int|
                0 <= k < before.len() ==> buffer@[k] == blit_byte_until(
                    before,
                    width,
                    height,
                    source,
                    x0 as int,
                    y0 as int,
                    left as int,
                    top as int,
                    across as int,
                    down as int,
                    sr as int,
                    0,
                    k,
                ),
        decreases down - sr,
    {
        let mut sc: u32 = 0;
        while sc < across
            invariant
                source == image@,
                source.well_formed(),
                bytes@ == source.bytes,
                sheet == source.width,
                left + across <= source.width,
                top + down <= source.height,
                buffer@.len() == before.len(),
                len == before.len(),
                whole == len / 4,
            limit == source.width * source.height * 4,
                sr < down,
                sc <= across,
                forall|k: int|
                    0 <= k < before.len() ==> buffer@[k] == blit_byte_until(
                        before,
                        width,
                        height,
                        source,
                        x0 as int,
                        y0 as int,
                        left as int,
                        top as int,
                        across as int,
                        down as int,
                        sr as int,
                        sc as int,
                        k,
                    ),
            decreases across - sc,
        {
            let x: i64 = x0 as i64 + sc as i64;
            let y: i64 = y0 as i64 + sr as i64;
            let ghost earlier = buffer@;
            let ghost mut target: int = -4;
            if 0 <= x && x < width as i64 && 0 <= y && y < height as i64 {
                assert(y * width + x < width * height && 0 <= y * width <= 0xffff_ffff
                    * 0xffff_ffff) by (nonlinear_arith)
                    requires
                        0 <= x < width,
                        0 <= y < height,
                        height <= 0xffff_ffff,
                        width <= 0xffff_ffff,
                ;
                let pixel: u64 = y as u64 * width as u64 + x as u64;
                proof {
                    lemma_offset_in_range(
                        source.width as int,
                        source.height as int,
                        left + sc,
                        top + sr,
                    );
                }
                let line: usize = (top + sr) as usize * sheet as usize;
                let from: usize = (line + (left + sc) as usize) * 4;
                if pixel < whole && bytes[from + 3] > 0 {
                    let at: usize = (pixel * 4) as usize;
                    buffer[at] = bytes[from];
                    buffer[at + 1] = bytes[from + 1];
                    buffer[at + 2] = bytes[from + 2];
                    buffer[at + 3] = bytes[from + 3];
                    proof {
                        target = at as int;
                    }
                }
            }
            proof {
                assert forall|k: int| 0 <= k < before.len() implies buffer@[k] == blit_byte_until(
                    before,
                    width,
                    height,
                    source,
                    x0 as int,
                    y0 as int,
                    left as int,
                    top as int,
                    across as int,
                    down as int,
                    sr as int,
                    sc + 1,
                    k,
                ) by {
                    let pixel_k = k / 4;
                    if width > 0 {
                        lemma_fundamental_div_mod(pixel_k, width as int);
                        lemma_mod_pos_bound(pixel_k, width as int);
                        lemma_div_pos_is_pos(pixel_k, width as int);
                        let col = pixel_k % (width as int);
                        let row = pixel_k / (width as int);
                        assert(width * row == row * width) by (nonlinear_arith);
                        if 0 <= x < width && 0 <= y {
                            lemma_index_parts(width as int, y as int, x as int, 0);
                        }
                        if col == x && row == y {
                            assert(pixel_k == y * width + x);
                        } else {
                            if target >= 0 {
                                assert(pixel_k != y * width + x);
                                assert(!(target <= k < target + 4));
                            }
                            assert(buffer@[k] == earlier[k]);
                        }
                    } else {
                        assert(buffer@[k] == earlier[k]);
                    }
                }
            }
            sc += 1;
        }
        sr += 1;
    }
    proof {
        assert(buffer@ =~= blitted(
            before,
            width,
            height,
            source,
            x0 as int,
            y0 as int,
            left as int,
            top as int,
            across as int,
            down as int,
        ));
    }
}

/// Draws `image` whole at its own position, rounded to the nearest pixel.
/// Parts outside the frame are clipped; a source pixel whose alpha is zero
/// leaves the frame's pixel as it was, and every other one replaces it.
pub fn render(buffer: &mut [u8], width: u32, height: u32, image: &Image)
    ensures
        final(buffer)@ == drawn(old(buffer)@, width, height, image@),
{
    let x0: i32 = round(image.x());
    let y0: i32 = round(image.y());
    blit(buffer, width, height, x0, y0, image, 0, 0, image.width(), image.height());
}

} // verus!
