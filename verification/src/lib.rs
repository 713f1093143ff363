//! Simulation and rendering core of a tile-based 2D platformer.
//!
//! Every quantity of the world (positions, velocities, times, tuning
//! constants) is a fixed-point number counted in millionths, see [`fixed`].
//! The physics runs in constant time slices, collisions are resolved one axis
//! at a time against a static tile grid, and frames are composed by copying
//! pixels into a raw RGBA byte buffer.

pub mod canvas;
pub mod fixed;
pub mod game;
pub mod graphics;
