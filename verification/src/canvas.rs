//! Pixel compositing into a raw RGBA frame buffer.
//!
//! A frame buffer is a byte slice that holds `width * height` pixels row by
//! row, four bytes each in the order red, green, blue, alpha.

pub mod background;
pub mod graphics;
pub mod image;
pub mod point;
pub mod rectangle;
pub mod sprite;
