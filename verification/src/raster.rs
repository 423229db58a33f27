//! The depth-tested rasterizer.
//!
//! A triangle in pixel coordinates is tested against the whole-numbered
//! points of its bounding box on the screen. Where it covers a point it
//! offers a fragment, a colour and a depth, and the depth test decides
//! whether the pixel takes it. What a triangle does to a frame is stated
//! pixel by pixel, so that the order of the walk does not show.

use vstd::prelude::*;
use vstd::arithmetic::div_mod::{
    lemma_div_is_ordered, lemma_div_multiples_vanish, lemma_fundamental_div_mod,
    lemma_fundamental_div_mod_converse, lemma_mod_bound,
};
use crate::aabb::{
    lemma_contained_point_on_grid, lemma_floor_monotonic, lemma_grid_point_is_pixel,
    lemma_pixel_in_grid, AABB,
};
use crate::barycentric::{
    covers, doubled_area, lemma_covered_point_in_bounds, weight0, weight1, weight2,
};
use crate::camera::Camera;
use crate::fixed::{GUARD_BAND, ONE};
use crate::triangle::Triangle2D;
use crate::vector::Vec2;

verus! {

/// Colour of a fragment in the inner part of a triangle: black.
pub const FILL_COLOR: u32 = 0;

/// Colour of a fragment next to an edge of its triangle: red, packed as
/// `r << 16 | g << 8 | b`.
pub const EDGE_COLOR: u32 = 0xff_0000;

/// A fragment counts as next to an edge when one of its weights is below
/// one part in this many.
pub const EDGE_PARTS: i128 = 100;

/// What a pixel holds: its colour, and the depth of what was drawn there.
/// A triangle's fragment at a pixel is a value of the same shape.
#[derive(Clone, Copy, Debug, PartialEq, Eq, Structural)]
pub struct Pixel {
    pub color: u32,
    pub depth: i64,
}

/// Why a frame was not drawn.
#[derive(Clone, Copy, Debug, PartialEq, Eq, Structural)]
pub enum RenderError {
    /// A face names a vertex that its mesh does not have.
    IndexOutOfRange,
    /// A buffer does not hold one entry for each pixel of the screen.
    BufferSizeMismatch,
}

/// The colours and the depths of a screen, row by row from the top.
pub struct Frame {
    pub color: Seq<u32>,
    pub depth: Seq<i64>,
}

impl Frame {
    /// What the pixel of index `i` holds.
    pub open spec fn pixel(self, i: int) -> Pixel {
        Pixel { color: self.color[i], depth: self.depth[i] }
    }

    /// Whether the frame holds one colour and one depth for each pixel of a
    /// screen of `width` by `height`.
    pub open spec fn fits(self, width: int, height: int) -> bool {
        self.color.len() == width * height && self.depth.len() == width * height
    }
}

/// Whether the ratio `n / d` is below one part in [`EDGE_PARTS`].
pub open spec fn small_ratio(n: int, d: int) -> bool {
    if d > 0 {
        EDGE_PARTS * n < d
    } else {
        EDGE_PARTS * n > d
    }
}

/// Whether a depth lies strictly between the near and the far plane.
pub open spec fn depth_visible(z: i64) -> bool {
    0 < z < ONE
}

/// Whether every coordinate of `t` is within the guard band.
pub open spec fn in_guard_band(t: Triangle2D) -> bool {
    &&& -GUARD_BAND <= t.v0.x <= GUARD_BAND
    &&& -GUARD_BAND <= t.v0.y <= GUARD_BAND
    &&& -GUARD_BAND <= t.v1.x <= GUARD_BAND
    &&& -GUARD_BAND <= t.v1.y <= GUARD_BAND
    &&& -GUARD_BAND <= t.v2.x <= GUARD_BAND
    &&& -GUARD_BAND <= t.v2.y <= GUARD_BAND
}

/// Whether the triangle `t` with the depths `z` is drawn at all: each of
/// its three depths is visible and it lies within the guard band. A
/// triangle that fails is dropped whole; none is clipped.
pub open spec fn drawable(t: Triangle2D, z: Seq<i64>) -> bool {
    &&& z.len() == 3
    &&& depth_visible(z[0])
    &&& depth_visible(z[1])
    &&& depth_visible(z[2])
    &&& in_guard_band(t)
}

/// The depth of `t` at `p`: the three depths weighted by the three
/// weights, rounded towards minus infinity.
pub open spec fn interpolated_depth(t: Triangle2D, z: Seq<i64>, p: Vec2) -> int {
    let sum = weight0(t, p) * z[0] + weight1(t, p) * z[1] + weight2(t, p) * z[2];
    if doubled_area(t) > 0 {
        sum / doubled_area(t)
    } else {
        (-sum) / (-doubled_area(t))
    }
}

/// The colour of `t` at `p`.
pub open spec fn fragment_color(t: Triangle2D, p: Vec2) -> u32 {
    if small_ratio(weight0(t, p), doubled_area(t)) || small_ratio(
        weight1(t, p),
        doubled_area(t),
    ) || small_ratio(weight2(t, p), doubled_area(t)) {
        EDGE_COLOR
    } else {
        FILL_COLOR
    }
}

/// What `t` offers at `p`: nothing where it does not cover `p`, else its
/// colour and depth there.
pub open spec fn fragment(t: Triangle2D, z: Seq<i64>, p: Vec2) -> Option<Pixel> {
    if covers(t, p) {
        Some(Pixel { color: fragment_color(t, p), depth: interpolated_depth(t, z, p) as i64 })
    } else {
        None
    }
}

/// The depth test: a fragment replaces what a pixel holds exactly when its
/// depth is positive and strictly nearer than the stored one. On equal
/// depths the pixel keeps what was drawn first.
pub open spec fn resolve(stored: Pixel, offered: Option<Pixel>) -> Pixel {
    match offered {
        Some(f) => if 0 < f.depth < stored.depth {
            f
        } else {
            stored
        },
        None => stored,
    }
}

/// The point that the pixel of index `i` is tested at, on a screen of
/// `width` columns: its column and row as whole numbers.
pub open spec fn pixel_point(i: int, width: int) -> Vec2 {
    AABB::grid_point(i % width, i / width)
}

/// Whether the pixel of index `i` lies strictly inside the screen: not in
/// its first column or row, nor past its last.
pub open spec fn inside_screen(i: int, width: int, height: int) -> bool {
    0 < i % width < width && 0 < i / width < height
}

/// What the pixel of index `i` holds after the triangle `t` with depths
/// `z` is drawn over `stored`.
pub open spec fn draw_pixel(
    t: Triangle2D,
    z: Seq<i64>,
    width: int,
    height: int,
    i: int,
    stored: Pixel,
) -> Pixel {
    if drawable(t, z) && inside_screen(i, width, height) {
        resolve(stored, fragment(t, z, pixel_point(i, width)))
    } else {
        stored
    }
}

/// The frame after the triangle `t` with depths `z` is drawn into it.
pub open spec fn draw_triangle_spec(
    frame: Frame,
    width: int,
    height: int,
    t: Triangle2D,
    z: Seq<i64>,
) -> Frame {
    Frame {
        color: Seq::new(
            frame.color.len(),
            |i: int| draw_pixel(t, z, width, height, i, frame.pixel(i)).color,
        ),
        depth: Seq::new(
            frame.depth.len(),
            |i: int| draw_pixel(t, z, width, height, i, frame.pixel(i)).depth,
        ),
    }
}

/// A weighted mean lies between the least and the largest of its terms:
/// with positive weights `a0`, `a1`, `a2` and terms strictly between `lo`
/// and `hi`, the weighted sum divided by the sum of the weights, rounded
/// towards minus infinity, is at least `lo + 1` and at most `hi - 1`.
proof fn lemma_weighted_mean(a0: int, a1: int, a2: int, z0: int, z1: int, z2: int, lo: int, hi: int)
    requires
        a0 > 0,
        a1 > 0,
        a2 > 0,
        lo < z0 < hi,
        lo < z1 < hi,
        lo < z2 < hi,
    ensures
        (lo + 1) * (a0 + a1 + a2) <= a0 * z0 + a1 * z1 + a2 * z2 <= (hi - 1) * (a0 + a1 + a2),
        lo + 1 <= (a0 * z0 + a1 * z1 + a2 * z2) / (a0 + a1 + a2) <= hi - 1,
{
    let d = a0 + a1 + a2;
    let sum = a0 * z0 + a1 * z1 + a2 * z2;
    assert((lo + 1) * a0 <= a0 * z0 <= (hi - 1) * a0) by (nonlinear_arith)
        requires
            a0 > 0,
            lo < z0 < hi,
    ;
    assert((lo + 1) * a1 <= a1 * z1 <= (hi - 1) * a1) by (nonlinear_arith)
        requires
            a1 > 0,
            lo < z1 < hi,
    ;
    assert((lo + 1) * a2 <= a2 * z2 <= (hi - 1) * a2) by (nonlinear_arith)
        requires
            a2 > 0,
            lo < z2 < hi,
    ;
    assert((lo + 1) * d == (lo + 1) * a0 + (lo + 1) * a1 + (lo + 1) * a2) by (nonlinear_arith)
        requires
            d == a0 + a1 + a2,
    ;
    assert((hi - 1) * d == (hi - 1) * a0 + (hi - 1) * a1 + (hi - 1) * a2) by (nonlinear_arith)
        requires
            d == a0 + a1 + a2,
    ;
    lemma_div_is_ordered((lo + 1) * d, sum, d);
    lemma_div_is_ordered(sum, (hi - 1) * d, d);
    lemma_div_multiples_vanish(lo + 1, d);
    lemma_div_multiples_vanish(hi - 1, d);
}

/// The depth that a drawable triangle offers at a point it covers is
/// visible: it lies between the least and the largest of the three depths.
pub proof fn lemma_interpolated_depth_visible(t: Triangle2D, z: Seq<i64>, p: Vec2)
    requires
        drawable(t, z),
        covers(t, p),
    ensures
        0 < interpolated_depth(t, z, p) < ONE,
{
    let n0 = weight0(t, p);
    let n1 = weight1(t, p);
    let n2 = weight2(t, p);
    if doubled_area(t) > 0 {
        lemma_weighted_mean(n0, n1, n2, z[0] as int, z[1] as int, z[2] as int, 0, ONE as int);
    } else {
        lemma_weighted_mean(-n0, -n1, -n2, z[0] as int, z[1] as int, z[2] as int, 0, ONE as int);
        assert((-n0) * z[0] + (-n1) * z[1] + (-n2) * z[2] == -(n0 * z[0] + n1 * z[1] + n2 * z[2]))
            by (nonlinear_arith);
    }
}

/// The depth test does not depend on the order of two fragments of
/// different depths: whichever is offered first, the pixel ends with the
/// same colour and depth.
pub proof fn lemma_depth_test_order_independent(stored: Pixel, first: Pixel, second: Pixel)
    requires
        first.depth != second.depth,
    ensures
        resolve(resolve(stored, Some(first)), Some(second)) == resolve(
            resolve(stored, Some(second)),
            Some(first),
        ),
{
}

/// Offering the same fragment twice is the same as offering it once.
pub proof fn lemma_resolve_idempotent(stored: Pixel, offered: Option<Pixel>)
    ensures
        resolve(resolve(stored, offered), offered) == resolve(stored, offered),
{
}

/// A triangle that is not drawable, because one of its depths is outside
/// the visible range or one of its vertices outside the guard band, leaves
/// the frame as it is: it writes no pixel.
pub proof fn lemma_culled_triangle_draws_nothing(
    frame: Frame,
    width: int,
    height: int,
    t: Triangle2D,
    z: Seq<i64>,
)
    requires
        !drawable(t, z),
    ensures
        draw_triangle_spec(frame, width, height, t, z) == frame,
{
    let after = draw_triangle_spec(frame, width, height, t, z);
    assert(after.color =~= frame.color);
    assert(after.depth =~= frame.depth);
}

/// A triangle without area leaves the frame as it is.
pub proof fn lemma_flat_triangle_draws_nothing(
    frame: Frame,
    width: int,
    height: int,
    t: Triangle2D,
    z: Seq<i64>,
)
    requires
        doubled_area(t) == 0,
    ensures
        draw_triangle_spec(frame, width, height, t, z) == frame,
{
    let after = draw_triangle_spec(frame, width, height, t, z);
    assert(after.color =~= frame.color);
    assert(after.depth =~= frame.depth);
}

/// Drawing two triangles in either order leaves the same colour and depth
/// in a pixel, unless both offer that pixel the very same depth. So of two
/// triangles that cover a pixel at different depths, the nearer one shows,
/// whichever is drawn first.
pub proof fn lemma_draw_order_independent(
    frame: Frame,
    width: int,
    height: int,
    t1: Triangle2D,
    z1: Seq<i64>,
    t2: Triangle2D,
    z2: Seq<i64>,
    i: int,
)
    requires
        0 <= i < frame.color.len(),
        frame.color.len() == frame.depth.len(),
        !(covers(t1, pixel_point(i, width)) && covers(t2, pixel_point(i, width))
            && interpolated_depth(t1, z1, pixel_point(i, width)) as i64 == interpolated_depth(
            t2,
            z2,
            pixel_point(i, width),
        ) as i64),
    ensures
        draw_triangle_spec(
            draw_triangle_spec(frame, width, height, t1, z1),
            width,
            height,
            t2,
            z2,
        ).pixel(i) == draw_triangle_spec(
            draw_triangle_spec(frame, width, height, t2, z2),
            width,
            height,
            t1,
            z1,
        ).pixel(i),
{
}

/// The product of two differences of coordinates within the guard band
/// is bounded by the square of twice the guard band.
proof fn lemma_product_bound(a: int, b: int)
    requires
        -0x2_0000_0000_0000 <= a <= 0x2_0000_0000_0000,
        -0x2_0000_0000_0000 <= b <= 0x2_0000_0000_0000,
    ensures
        -0x4_0000_0000_0000_0000_0000_0000 <= a * b <= 0x4_0000_0000_0000_0000_0000_0000,
{
    assert(-0x4_0000_0000_0000_0000_0000_0000 <= a * b <= 0x4_0000_0000_0000_0000_0000_0000)
        by (nonlinear_arith)
        requires
            -0x2_0000_0000_0000 <= a <= 0x2_0000_0000_0000,
            -0x2_0000_0000_0000 <= b <= 0x2_0000_0000_0000,
    ;
}

/// `a * b + c * d` for four differences of coordinates within the guard
/// band.
fn cross_sum(a: i64, b: i64, c: i64, d: i64) -> (r: i128)
    requires
        -2 * GUARD_BAND <= a <= 2 * GUARD_BAND,
        -2 * GUARD_BAND <= b <= 2 * GUARD_BAND,
        -2 * GUARD_BAND <= c <= 2 * GUARD_BAND,
        -2 * GUARD_BAND <= d <= 2 * GUARD_BAND,
    ensures
        r == a * b + c * d,
        -0x8_0000_0000_0000_0000_0000_0000 <= r <= 0x8_0000_0000_0000_0000_0000_0000,
{
    proof {
        lemma_product_bound(a as int, b as int);
        lemma_product_bound(c as int, d as int);
    }
    (a as i128) * (b as i128) + (c as i128) * (d as i128)
}

/// A weight's numerator of a covered point times a visible depth is
/// positive and stays far within the range of `i128`.
proof fn lemma_weighted_term(a: int, z: int)
    requires
        0 < a <= 0x8_0000_0000_0000_0000_0000_0000,
        0 < z < ONE,
    ensures
        0 < a * z < 0x800_0000_0000_0000_0000_0000_0000_0000,
{
    assert(0 < a * z < 0x800_0000_0000_0000_0000_0000_0000_0000) by (nonlinear_arith)
        requires
            0 < a <= 0x8_0000_0000_0000_0000_0000_0000,
            0 < z < 0x100_0000,
    ;
}

/// What the triangle `t` offers at the point `p`.
fn fragment_at(t: &Triangle2D, z: &[i64; 3], wd: i128, p: Vec2) -> (r: Option<Pixel>)
    requires
        drawable(*t, z@),
        wd == doubled_area(*t),
        -0x8_0000_0000_0000_0000_0000_0000 <= wd <= 0x8_0000_0000_0000_0000_0000_0000,
        -GUARD_BAND <= p.x <= GUARD_BAND,
        -GUARD_BAND <= p.y <= GUARD_BAND,
    ensures
        r == fragment(*t, z@, p),
{
    let n0: i128 = cross_sum(t.v1.y - t.v2.y, p.x - t.v2.x, t.v2.x - t.v1.x, p.y - t.v2.y);
    let n1: i128 = cross_sum(t.v2.y - t.v0.y, p.x - t.v2.x, t.v0.x - t.v2.x, p.y - t.v2.y);
    let n2: i128 = wd - n0 - n1;
    let inside = if wd > 0 {
        n0 > 0 && n1 > 0 && n2 > 0
    } else if wd < 0 {
        n0 < 0 && n1 < 0 && n2 < 0
    } else {
        false
    };
    if !inside {
        return None;
    }
    // The magnitudes of the numerators and of their sum: the weights are
    // their ratios, whichever sign the doubled area has.
    let a0: i128 = if wd > 0 { n0 } else { -n0 };
    let a1: i128 = if wd > 0 { n1 } else { -n1 };
    let a2: i128 = if wd > 0 { n2 } else { -n2 };
    let d: i128 = if wd > 0 { wd } else { -wd };
    let z0: i64 = z[0];
    let z1: i64 = z[1];
    let z2: i64 = z[2];
    proof {
        lemma_weighted_term(a0 as int, z0 as int);
        lemma_weighted_term(a1 as int, z1 as int);
        lemma_weighted_term(a2 as int, z2 as int);
        lemma_weighted_mean(
            a0 as int,
            a1 as int,
            a2 as int,
            z0 as int,
            z1 as int,
            z2 as int,
            0,
            ONE as int,
        );
        if wd < 0 {
            assert(a0 * z0 + a1 * z1 + a2 * z2 == -(weight0(*t, p) * z0 + weight1(*t, p) * z1
                + weight2(*t, p) * z2)) by (nonlinear_arith)
                requires
                    a0 == -weight0(*t, p),
                    a1 == -weight1(*t, p),
                    a2 == -weight2(*t, p),
            ;
        }
    }
    let sum: i128 = a0 * (z0 as i128) + a1 * (z1 as i128) + a2 * (z2 as i128);
    let pz: i64 = (sum / d) as i64;
    let near_edge = EDGE_PARTS * a0 < d || EDGE_PARTS * a1 < d || EDGE_PARTS * a2 < d;
    let color: u32 = if near_edge { EDGE_COLOR } else { FILL_COLOR };
    Some(Pixel { color, depth: pz })
}

/// A pixel lies strictly inside the screen exactly when the point it is
/// tested at lies strictly inside the box of the screen.
pub proof fn lemma_inside_screen_is_strictly_in_box(i: int, width: u32, height: u32)
    requires
        0 <= i < width * height,
    ensures
        inside_screen(i, width as int, height as int) <==> Camera::screen_box(
            width,
            height,
        ).contains_strictly(pixel_point(i, width as int)),
{
    lemma_index_to_cell(i, width as int, height as int);
}

/// Whether every coordinate of `t` is within the guard band.
fn within_guard_band(t: &Triangle2D) -> (r: bool)
    ensures
        r == in_guard_band(*t),
{
    -GUARD_BAND <= t.v0.x && t.v0.x <= GUARD_BAND && -GUARD_BAND <= t.v0.y && t.v0.y
        <= GUARD_BAND && -GUARD_BAND <= t.v1.x && t.v1.x <= GUARD_BAND && -GUARD_BAND <= t.v1.y
        && t.v1.y <= GUARD_BAND && -GUARD_BAND <= t.v2.x && t.v2.x <= GUARD_BAND && -GUARD_BAND
        <= t.v2.y && t.v2.y <= GUARD_BAND
}

/// Whether `p` is one of the first `k` points that `grid` hands out.
spec fn visited(grid: AABB, k: int, p: Vec2) -> bool {
    exists|j: int| 0 <= j < k && j < grid.pixel_count() && #[trigger] grid.pixel(j) == p
}

/// The pixel of index `i` in a pair of buffers.
spec fn pixel_of(color: Seq<u32>, depth: Seq<i64>, i: int) -> Pixel {
    Pixel { color: color[i], depth: depth[i] }
}

/// The column and the row of a pixel of a screen are within the screen.
proof fn lemma_index_to_cell(i: int, width: int, height: int)
    requires
        0 <= i < width * height,
        width >= 0,
        height >= 0,
    ensures
        width > 0,
        0 <= i % width < width,
        0 <= i / width < height,
        i == (i / width) * width + i % width,
{
    assert(width > 0) by (nonlinear_arith)
        requires
            0 < width * height,
            width >= 0,
    ;
    lemma_fundamental_div_mod(i, width);
    lemma_mod_bound(i, width);
    let q = i / width;
    let r = i % width;
    assert(0 <= q < height && i == q * width + r) by (nonlinear_arith)
        requires
            i == width * q + r,
            0 <= r < width,
            0 <= i < width * height,
    ;
}

/// The pixel in column `x` of row `y` has the index `y * width + x`.
proof fn lemma_cell_to_index(x: int, y: int, width: int, height: int)
    requires
        0 <= x < width,
        0 <= y < height,
    ensures
        0 <= y * width + x < width * height,
        (y * width + x) % width == x,
        (y * width + x) / width == y,
{
    assert(0 <= y * width + x < width * height) by (nonlinear_arith)
        requires
            0 <= x < width,
            0 <= y < height,
    ;
    lemma_fundamental_div_mod_converse(y * width + x, width, y, x);
}

/// Draws one triangle, given in pixel coordinates with the depths of its
/// vertices, into a colour buffer and a depth buffer of the camera's
/// screen.
///
/// A triangle with a depth outside the visible range, or with a vertex
/// outside the guard band, leaves both buffers as they are. Otherwise each
/// pixel strictly inside the screen that the triangle covers is put to the
/// depth test, and takes the triangle's colour and depth where it passes.
/// No other pixel changes.
///
/// Fails, with both buffers untouched, when a buffer does not hold one
/// entry for each pixel of the screen.
pub fn draw_triangle(
    camera: &Camera,
    triangle: &Triangle2D,
    depths: &[i64; 3],
    color: &mut Vec<u32>,
    depth: &mut Vec<i64>,
) -> (r: Result<(), RenderError>)
    ensures
        r is Ok <==> (Frame { color: old(color)@, depth: old(depth)@ }).fits(
            camera.width() as int,
            camera.height() as int,
        ),
        r is Err ==> r == Err::<(), RenderError>(RenderError::BufferSizeMismatch),
        r is Err ==> final(color)@ == old(color)@ && final(depth)@ == old(depth)@,
        r is Ok ==> (Frame { color: final(color)@, depth: final(depth)@ }) == draw_triangle_spec(
            Frame { color: old(color)@, depth: old(depth)@ },
            camera.width() as int,
            camera.height() as int,
            *triangle,
            depths@,
        ),
{
    let w: usize = camera.screen_width() as usize;
    let h: usize = camera.screen_height() as usize;
    let color_len: usize = color.len();
    let depth_len: usize = depth.len();
    let n: usize = match w.checked_mul(h) {
        Some(n) => n,
        None => {
            return Err(RenderError::BufferSizeMismatch);
        },
    };
    if color_len != n || depth_len != n {
        return Err(RenderError::BufferSizeMismatch);
    }
    let ghost before = Frame { color: color@, depth: depth@ };
    let ghost wi = w as int;
    let ghost hi = h as int;
    let ghost after = draw_triangle_spec(before, wi, hi, *triangle, depths@);
    let z0: i64 = depths[0];
    let z1: i64 = depths[1];
    let z2: i64 = depths[2];
    let visible = 0 < z0 && z0 < ONE && 0 < z1 && z1 < ONE && 0 < z2 && z2 < ONE;
    if !visible || !within_guard_band(triangle) {
        proof {
            assert(after.color =~= before.color);
            assert(after.depth =~= before.depth);
        }
        return Ok(());
    }
    let wd: i128 = cross_sum(
        triangle.v1.y - triangle.v2.y,
        triangle.v0.x - triangle.v2.x,
        triangle.v2.x - triangle.v1.x,
        triangle.v0.y - triangle.v2.y,
    );
    if wd == 0 {
        proof {
            assert(after.color =~= before.color);
            assert(after.depth =~= before.depth);
        }
        return Ok(());
    }
    let screen = camera.screen_aabb();
    let grid = AABB::from(triangle).intersection(&screen);
    let mut it = grid.into_iter();
    let ghost count = grid.pixel_count() as int;
    let ghost mut k: int = 0;
    let mut next = it.next();
    proof {
        if count > 0 {
            lemma_pixel_in_grid(grid, 0);
        }
    }
    while next.is_some()
        invariant
            0 <= k <= count,
            count == grid.pixel_count(),
            k < count ==> next == Some(grid.pixel(k)) && it@ == grid.pixels().skip(k + 1),
            k >= count ==> next is None,
            color@.len() == n,
            depth@.len() == n,
            n == w * h,
            wi == w,
            hi == h,
            w == camera.width(),
            h == camera.height(),
            drawable(*triangle, depths@),
            wd == doubled_area(*triangle),
            wd != 0,
            -0x8_0000_0000_0000_0000_0000_0000 <= wd <= 0x8_0000_0000_0000_0000_0000_0000,
            screen == Camera::screen_box(camera.width(), camera.height()),
            grid == AABB::bounding(*triangle).intersection_spec(screen),
            forall|i: int|
                0 <= i < n ==> #[trigger] pixel_of(color@, depth@, i) == if visited(
                    grid,
                    k,
                    pixel_point(i, wi),
                ) {
                    draw_pixel(*triangle, depths@, wi, hi, i, before.pixel(i))
                } else {
                    before.pixel(i)
                },
        decreases count - k,
    {
        let p = next.unwrap();
        let ghost color_then = color@;
        let ghost depth_then = depth@;
        let ghost column = grid.first_column() + k % grid.columns();
        let ghost row = grid.first_row() + k / grid.columns();
        proof {
            lemma_pixel_in_grid(grid, k);
            lemma_floor_monotonic(0, grid.min_x as int);
            lemma_floor_monotonic(0, grid.min_y as int);
            lemma_floor_monotonic(grid.max_x as int, wi * ONE);
            lemma_floor_monotonic(grid.max_y as int, hi * ONE);
            lemma_floor_monotonic(grid.max_x as int, GUARD_BAND as int);
            lemma_floor_monotonic(grid.max_y as int, GUARD_BAND as int);
            lemma_div_multiples_vanish(wi, ONE as int);
            lemma_div_multiples_vanish(hi, ONE as int);
            assert(wi * ONE == ONE * wi && hi * ONE == ONE * hi) by (nonlinear_arith);
            assert(0 <= column <= wi && 0 <= row <= hi);
            assert(column <= 0x100_0000 && row <= 0x100_0000);
            assert(p == AABB::grid_point(column, row));
            assert(p.x == column * ONE && p.y == row * ONE);
        }
        if screen.point_in_aabb(&p) {
            match fragment_at(triangle, depths, wd, p) {
                Some(f) => {
                    let x: usize = (p.x / ONE) as usize;
                    let y: usize = (p.y / ONE) as usize;
                    proof {
                        assert(x == column && y == row);
                        lemma_cell_to_index(column, row, wi, hi);
                    }
                    let idx: usize = y * w + x;
                    if f.depth > 0 && f.depth < depth[idx] {
                        depth.set(idx, f.depth);
                        color.set(idx, f.color);
                    }
                },
                None => {},
            }
        }
        next = it.next();
        proof {
            if k + 1 < count {
                assert(grid.pixels().skip(k + 1).skip(1) =~= grid.pixels().skip(k + 2));
                lemma_pixel_in_grid(grid, k + 1);
            }
            assert forall|i: int| 0 <= i < n implies #[trigger] pixel_of(color@, depth@, i)
                == if visited(grid, k + 1, pixel_point(i, wi)) {
                draw_pixel(*triangle, depths@, wi, hi, i, before.pixel(i))
            } else {
                before.pixel(i)
            } by {
                let q = pixel_point(i, wi);
                let stored = before.pixel(i);
                lemma_index_to_cell(i, wi, hi);
                assert(pixel_of(color_then, depth_then, i) == if visited(grid, k, q) {
                    draw_pixel(*triangle, depths@, wi, hi, i, stored)
                } else {
                    stored
                });
                if q == p {
                    assert(i % wi == column && i / wi == row);
                    assert(grid.pixel(k) == q);
                    assert(visited(grid, k + 1, q));
                    if screen.contains_strictly(p) {
                        assert(inside_screen(i, wi, hi));
                        assert(i == row * wi + column);
                        lemma_resolve_idempotent(stored, fragment(*triangle, depths@, p));
                    } else {
                        assert(!inside_screen(i, wi, hi));
                        assert(pixel_of(color@, depth@, i) == pixel_of(color_then, depth_then, i));
                    }
                } else {
                    if screen.contains_strictly(p) {
                        lemma_cell_to_index(column, row, wi, hi);
                        assert(pixel_point(row * wi + column, wi) == p);
                        assert(i != row * wi + column);
                    }
                    assert(pixel_of(color@, depth@, i) == pixel_of(color_then, depth_then, i));
                    assert(visited(grid, k + 1, q) == visited(grid, k, q));
                }
            }
            k = k + 1;
        }
    }
    proof {
        assert forall|i: int| 0 <= i < n implies #[trigger] pixel_of(color@, depth@, i)
            == draw_pixel(*triangle, depths@, wi, hi, i, before.pixel(i)) by {
            let q = pixel_point(i, wi);
            lemma_index_to_cell(i, wi, hi);
            if !visited(grid, k, q) && inside_screen(i, wi, hi) && covers(*triangle, q) {
                lemma_covered_point_in_bounds(*triangle, q);
                let column = i % wi;
                let row = i / wi;
                assert(q.x == column * ONE && q.y == row * ONE);
                lemma_contained_point_on_grid(grid, column, row);
                lemma_grid_point_is_pixel(grid, column, row);
                assert(false);
            }
        }
        assert forall|i: int| 0 <= i < n implies color@[i] == after.color[i] && depth@[i]
            == after.depth[i] by {
            assert(pixel_of(color@, depth@, i) == draw_pixel(
                *triangle,
                depths@,
                wi,
                hi,
                i,
                before.pixel(i),
            ));
        }
        assert(after.color =~= color@);
        assert(after.depth =~= depth@);
    }
    Ok(())
}

} // verus!
