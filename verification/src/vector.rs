//! Points and directions in two and three dimensions.

use vstd::prelude::*;

verus! {

/// A point of the plane, each coordinate a fixed-point number.
#[derive(Clone, Copy, Debug, PartialEq, Eq, Structural)]
pub struct Vec2 {
    pub x: i64,
    pub y: i64,
}

impl Vec2 {
    pub fn new(x: i64, y: i64) -> (r: Self)
        ensures
            r == (Vec2 { x, y }),
    {
        Vec2 { x, y }
    }

    /// The origin.
    pub fn zero() -> (r: Self)
        ensures
            r == (Vec2 { x: 0, y: 0 }),
    {
        Vec2 { x: 0, y: 0 }
    }
}

/// A point of space, each coordinate a fixed-point number.
#[derive(Clone, Copy, Debug, PartialEq, Eq, Structural)]
pub struct Vec3 {
    pub x: i64,
    pub y: i64,
    pub z: i64,
}

impl Vec3 {
    pub fn new(x: i64, y: i64, z: i64) -> (r: Self)
        ensures
            r == (Vec3 { x, y, z }),
    {
        Vec3 { x, y, z }
    }

    /// The point without its third coordinate.
    pub fn truncated(&self) -> (r: Vec2)
        ensures
            r == (Vec2 { x: self.x, y: self.y }),
    {
        Vec2 { x: self.x, y: self.y }
    }
}

} // verus!
