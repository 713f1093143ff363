//! A position or a vector of the world.

use vstd::prelude::*;

verus! {

/// A pair of fixed-point coordinates.
#[derive(Debug, Copy, Clone, Default, PartialEq, Eq, Structural)]
pub struct Point {
    pub x: i64,
    pub y: i64,
}

impl Point {
    pub fn new(x: i64, y: i64) -> (p: Self)
        ensures
            p == (Point { x, y }),
    {
        Self { x, y }
    }
}

} // verus!
