//! Triangles as plain values: three vertices, in the plane or in space.

use vstd::prelude::*;
use crate::vector::{Vec2, Vec3};

verus! {

/// A triangle of the plane.
#[derive(Clone, Copy, Debug, PartialEq, Eq, Structural)]
pub struct Triangle2D {
    pub v0: Vec2,
    pub v1: Vec2,
    pub v2: Vec2,
}

impl Triangle2D {
    pub fn new(v0: Vec2, v1: Vec2, v2: Vec2) -> (r: Self)
        ensures
            r == (Triangle2D { v0, v1, v2 }),
    {
        Triangle2D { v0, v1, v2 }
    }
}

/// A triangle of space.
#[derive(Clone, Copy, Debug, PartialEq, Eq, Structural)]
pub struct Triangle3D {
    pub v0: Vec3,
    pub v1: Vec3,
    pub v2: Vec3,
}

impl Triangle3D {
    pub fn new(v0: Vec3, v1: Vec3, v2: Vec3) -> (r: Self)
        ensures
            r == (Triangle3D { v0, v1, v2 }),
    {
        Triangle3D { v0, v1, v2 }
    }

    /// The triangle without its third coordinates.
    pub open spec fn truncated_spec(self) -> Triangle2D {
        Triangle2D {
            v0: Vec2 { x: self.v0.x, y: self.v0.y },
            v1: Vec2 { x: self.v1.x, y: self.v1.y },
            v2: Vec2 { x: self.v2.x, y: self.v2.y },
        }
    }

    /// The third coordinates of the three vertices, in order.
    pub open spec fn depths_spec(self) -> Seq<i64> {
        seq![self.v0.z, self.v1.z, self.v2.z]
    }

    /// Drops the third coordinate of each vertex.
    pub fn truncated(&self) -> (r: Triangle2D)
        ensures
            r == self.truncated_spec(),
    {
        Triangle2D::new(self.v0.truncated(), self.v1.truncated(), self.v2.truncated())
    }

    /// Splits the triangle into its flat shape and the three depths.
    pub fn truncated_include_z(&self) -> (r: (Triangle2D, [i64; 3]))
        ensures
            r.0 == self.truncated_spec(),
            r.1@ == self.depths_spec(),
    {
        (self.truncated(), [self.v0.z, self.v1.z, self.v2.z])
    }
}

} // verus!
