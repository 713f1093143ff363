//! Colours with four 8-bit channels.

use vstd::prelude::*;

verus! {

/// An RGBA colour.
#[derive(Debug, Copy, Clone, Default, PartialEq, Eq, Structural)]
pub struct Color {
    pub red: u8,
    pub green: u8,
    pub blue: u8,
    pub alpha: u8,
}

/// The number whose four bytes, from the highest down, are `a`, `b`, `c`, `d`.
pub open spec fn packed(a: u8, b: u8, c: u8, d: u8) -> int {
    a * 0x100_0000 + b * 0x1_0000 + c * 0x100 + d
}

impl Color {
    pub fn new(red: u8, green: u8, blue: u8, alpha: u8) -> (c: Self)
        ensures
            c == (Color { red, green, blue, alpha }),
    {
        Self { red, green, blue, alpha }
    }

    /// Reads a colour from a pixel packed as red, green, blue, alpha from the
    /// highest byte down. Each channel keeps the high four bits of its byte;
    /// the low four bits are cleared.
    pub fn from_u32(pixel: u32) -> (c: Color)
        ensures
            c.red == ((pixel / 0x100_0000) % 256) / 16 * 16,
            c.green == ((pixel / 0x1_0000) % 256) / 16 * 16,
            c.blue == ((pixel / 0x100) % 256) / 16 * 16,
            c.alpha == (pixel % 256) / 16 * 16,
    {
        let r: u32 = (pixel >> 24) & 0xf0;
        let g: u32 = (pixel >> 16) & 0xf0;
        let b: u32 = (pixel >> 8) & 0xf0;
        let a: u32 = pixel & 0xf0;
        assert(r == ((pixel / 0x100_0000) % 256) / 16 * 16 && r < 256) by (bit_vector)
            requires
                r == (pixel >> 24) & 0xf0,
        ;
        assert(g == ((pixel / 0x1_0000) % 256) / 16 * 16 && g < 256) by (bit_vector)
            requires
                g == (pixel >> 16) & 0xf0,
        ;
        assert(b == ((pixel / 0x100) % 256) / 16 * 16 && b < 256) by (bit_vector)
            requires
                b == (pixel >> 8) & 0xf0,
        ;
        assert(a == (pixel % 256) / 16 * 16 && a < 256) by (bit_vector)
            requires
                a == pixel & 0xf0,
        ;
        Color::new(r as u8, g as u8, b as u8, a as u8)
    }

    /// Packs the colour into one number: all four channels when `alpha` is
    /// set, else red, green and blue alone.
    pub fn to_u32(self, alpha: bool) -> (pixel: u32)
        ensures
            alpha ==> pixel == packed(self.red, self.green, self.blue, self.alpha),
            !alpha ==> pixel == packed(0, self.red, self.green, self.blue),
    {
        if alpha {
            Color::rgba(self.red, self.green, self.blue, self.alpha)
        } else {
            Color::rgb(self.red, self.green, self.blue)
        }
    }

    /// Packs three channels into the low 24 bits.
    pub fn rgb(red: u8, green: u8, blue: u8) -> (pixel: u32)
        ensures
            pixel == packed(0, red, green, blue),
    {
        let p: u32 = ((red as u32) << 16) | ((green as u32) << 8) | (blue as u32);
        assert(p == red * 0x1_0000 + green * 0x100 + blue) by (bit_vector)
            requires
                p == ((red as u32) << 16) | ((green as u32) << 8) | (blue as u32),
        ;
        p
    }

    /// Packs four channels, red in the highest byte.
    pub fn rgba(red: u8, green: u8, blue: u8, alpha: u8) -> (pixel: u32)
        ensures
            pixel == packed(red, green, blue, alpha),
    {
        let p: u32 = ((red as u32) << 24) | ((green as u32) << 16) | ((blue as u32) << 8) | (
        alpha as u32);
        assert(p == red * 0x100_0000 + green * 0x1_0000 + blue * 0x100 + alpha) by (bit_vector)
            requires
                p == ((red as u32) << 24) | ((green as u32) << 16) | ((blue as u32) << 8) | (
                alpha as u32),
        ;
        p
    }
}

} // verus!
