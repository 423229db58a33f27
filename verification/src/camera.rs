//! The camera's share of the pipeline: the size of the screen and the map
//! from clip space to pixel coordinates.

use vstd::prelude::*;
use crate::aabb::AABB;
use crate::fixed::{clamp_i64, floor_div, saturate, ONE};
use crate::triangle::{Triangle2D, Triangle3D};
use crate::vector::Vec2;

verus! {

/// The screen that triangles are projected onto. The box of the screen is
/// derived from its width and height and always agrees with them.
#[derive(Clone, Copy, Debug)]
pub struct Camera {
    screen_width: u32,
    screen_height: u32,
    screen_aabb: AABB,
}

impl Camera {
    #[verifier::type_invariant]
    spec fn box_is_current(self) -> bool {
        self.screen_aabb == Self::screen_box(self.screen_width, self.screen_height)
    }

    /// The screen's width in pixels.
    pub closed spec fn width(self) -> u32 {
        self.screen_width
    }

    /// The screen's height in pixels.
    pub closed spec fn height(self) -> u32 {
        self.screen_height
    }

    /// The camera of a screen of `width` by `height` pixels.
    pub closed spec fn sized(width: u32, height: u32) -> Camera {
        Camera {
            screen_width: width,
            screen_height: height,
            screen_aabb: Self::screen_box(width, height),
        }
    }

    /// The box from the origin to the corner `(width, height)`.
    pub open spec fn screen_box(width: u32, height: u32) -> AABB {
        AABB { min_x: 0, max_x: (width * ONE) as i64, min_y: 0, max_y: (height * ONE) as i64 }
    }

    /// Where the clip-space coordinate `c` falls on an axis of `extent`
    /// pixels: `extent / 2 * (c + 1)`, rounded towards minus infinity and
    /// limited to the range of `i64`. Clip space runs from minus one to one
    /// across the screen.
    pub open spec fn to_screen(extent: u32, c: i64) -> i64 {
        clamp_i64((extent * (c + ONE)) / 2) as i64
    }

    /// The pixel coordinates of the clip-space point `p`.
    pub open spec fn point_to_screen(self, p: Vec2) -> Vec2 {
        Vec2 { x: Self::to_screen(self.width(), p.x), y: Self::to_screen(self.height(), p.y) }
    }

    /// The pixel coordinates of the clip-space triangle `t`.
    pub open spec fn to_screen_spec(self, t: Triangle2D) -> Triangle2D {
        Triangle2D {
            v0: self.point_to_screen(t.v0),
            v1: self.point_to_screen(t.v1),
            v2: self.point_to_screen(t.v2),
        }
    }

    /// A camera for a screen of `width` by `height` pixels.
    pub fn new(width: u32, height: u32) -> (r: Self)
        ensures
            r == Self::sized(width, height),
            r.width() == width,
            r.height() == height,
    {
        Camera {
            screen_width: width,
            screen_height: height,
            screen_aabb: AABB::new(0, (width as i64) * ONE, 0, (height as i64) * ONE),
        }
    }

    /// The screen's width in pixels.
    pub fn screen_width(&self) -> (r: u32)
        ensures
            r == self.width(),
    {
        self.screen_width
    }

    /// The screen's height in pixels.
    pub fn screen_height(&self) -> (r: u32)
        ensures
            r == self.height(),
    {
        self.screen_height
    }

    /// The box of the screen: from the origin to `(width, height)`.
    pub fn screen_aabb(&self) -> (r: AABB)
        ensures
            r == Self::screen_box(self.width(), self.height()),
    {
        proof {
            use_type_invariant(self);
        }
        self.screen_aabb
    }

    /// Sets the size of the screen and derives its box anew. Calling it
    /// again with the same size changes nothing.
    pub fn update_screen_dimensions(&mut self, width: u32, height: u32)
        ensures
            *final(self) == Self::sized(width, height),
            final(self).width() == width,
            final(self).height() == height,
    {
        *self = Camera::new(width, height);
    }

    fn coordinate_to_screen(extent: u32, c: i64) -> (r: i64)
        ensures
            r == Self::to_screen(extent, c),
    {
        let shifted: i128 = (c as i128) + (ONE as i128);
        proof {
            assert(-0x1_0000_0000_0000_0000_0000_0000 <= extent * shifted
                <= 0x1_0000_0000_0000_0000_0000_0000) by (nonlinear_arith)
                requires
                    0 <= extent <= 0xffff_ffff,
                    -0x1_0000_0000_0000_0000 <= shifted <= 0x1_0000_0000_0000_0000,
            ;
        }
        saturate(floor_div((extent as i128) * shifted, 2))
    }

    /// Transforms a triangle from clip space to pixel coordinates.
    pub fn projected_to_screen(&self, triangle: Triangle2D) -> (r: Triangle2D)
        ensures
            r == self.to_screen_spec(triangle),
    {
        let w = self.screen_width;
        let h = self.screen_height;
        Triangle2D::new(
            Vec2::new(
                Self::coordinate_to_screen(w, triangle.v0.x),
                Self::coordinate_to_screen(h, triangle.v0.y),
            ),
            Vec2::new(
                Self::coordinate_to_screen(w, triangle.v1.x),
                Self::coordinate_to_screen(h, triangle.v1.y),
            ),
            Vec2::new(
                Self::coordinate_to_screen(w, triangle.v2.x),
                Self::coordinate_to_screen(h, triangle.v2.y),
            ),
        )
    }

    /// Takes a triangle in clip space to the screen: returns its shape in
    /// pixel coordinates and the depths of its three vertices.
    pub fn project_triangle(&mut self, triangle: Triangle3D) -> (r: (Triangle2D, [i64; 3]))
        ensures
            *final(self) == *old(self),
            r.0 == old(self).to_screen_spec(triangle.truncated_spec()),
            r.1@ == triangle.depths_spec(),
    {
        let (flat, z_res) = triangle.truncated_include_z();
        (self.projected_to_screen(flat), z_res)
    }
}

/// The camera of a screen of a given size has that size.
pub proof fn lemma_sized_dimensions(width: u32, height: u32)
    ensures
        Camera::sized(width, height).width() == width,
        Camera::sized(width, height).height() == height,
{
}

/// The centre of clip space falls on the centre of the screen.
pub proof fn lemma_centre_maps_to_centre(camera: Camera)
    ensures
        camera.point_to_screen(Vec2 { x: 0, y: 0 }) == (Vec2 {
            x: (camera.width() * ONE / 2) as i64,
            y: (camera.height() * ONE / 2) as i64,
        }),
{
}

} // verus!
