//! Value types for colours, geometry, images, tiles and animations.

pub mod animation;
pub mod color;
pub mod graphic;
pub mod image;
pub mod names;
pub mod point;
pub mod rectangle;
pub mod tile;
