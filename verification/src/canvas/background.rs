//! Filling a frame buffer with one colour.

use crate::graphics::color::Color;
use vstd::prelude::*;

verus! {

/// Channel `c` of a colour in the order red, green, blue, alpha.
pub open spec fn channel_of(color: Color, c: int) -> u8 {
    if c == 0 {
        color.red
    } else if c == 1 {
        color.green
    } else if c == 2 {
        color.blue
    } else {
        color.alpha
    }
}

/// The buffer with every pixel that lies wholly inside it set to `color`.
/// Up to three bytes after the last whole pixel keep their values.
pub open spec fn filled(before: Seq<u8>, color: Color) -> Seq<u8> {
    Seq::new(
        before.len(),
        |k: int|
            if 4 * (k / 4) + 3 < before.len() {
                channel_of(color, k % 4)
            } else {
                before[k]
            },
    )
}

/// Writes the four channels of `color` into every pixel of the buffer.
pub fn render(buffer: &mut [u8], color: &Color)
    ensures
        final(buffer)@ == filled(old(buffer)@, *color),
{
    let ghost before = buffer@;
    let len: usize = buffer.len();
    let pixels: usize = len / 4;
    let mut pixel: usize = 0;
    while pixel < pixels
        invariant
            pixel <= pixels,
            len == before.len(),
            pixels == len / 4,
            buffer@.len() == before.len(),
            forall|k: int|
                0 <= k < before.len() ==> buffer@[k] == if k / 4 < pixel {
                    channel_of(*color, k % 4)
                } else {
                    before[k]
                },
        decreases pixels - pixel,
    {
        let at: usize = pixel * 4;
        buffer[at] = color.red;
        buffer[at + 1] = color.green;
        buffer[at + 2] = color.blue;
        buffer[at + 3] = color.alpha;
        pixel += 1;
    }
    proof {
        assert(buffer@ =~= filled(before, *color));
    }
}

} // verus!
