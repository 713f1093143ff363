//! The world, its tuning constants and the rules that move it.

pub mod data;
pub mod logic;
pub mod state;
