use dedede::camera::Camera;
use dedede::fixed::{from_int, GUARD_BAND, ONE};
use dedede::raster::{draw_triangle, RenderError, EDGE_COLOR, FILL_COLOR};
use dedede::triangle::Triangle2D;
use dedede::vector::Vec2;

const BACKGROUND: u32 = 0x00ff_ffff;

fn point(x: i32, y: i32) -> Vec2 {
    Vec2::new(from_int(x), from_int(y))
}

fn triangle(a: (i32, i32), b: (i32, i32), c: (i32, i32)) -> Triangle2D {
    Triangle2D::new(point(a.0, a.1), point(b.0, b.1), point(c.0, c.1))
}

fn buffers(width: usize, height: usize) -> (Vec<u32>, Vec<i64>) {
    (vec![BACKGROUND; width * height], vec![ONE; width * height])
}

fn count_drawn(color: &[u32]) -> usize {
    let mut n = 0;
    for c in color {
        if *c != BACKGROUND {
            n += 1;
        }
    }
    n
}

#[test]
fn interior_pixel_is_filled_exterior_and_edge_are_not() {
    let camera = Camera::new(64, 64);
    let (mut color, mut depth) = buffers(64, 64);
    let t = triangle((10, 10), (50, 10), (30, 50));
    let half = ONE / 2;
    assert_eq!(draw_triangle(&camera, &t, &[half, half, half], &mut color, &mut depth), Ok(()));
    assert_eq!(color[20 * 64 + 30], FILL_COLOR);
    assert_eq!(depth[20 * 64 + 30], half);
    assert_eq!(color[5 * 64 + 5], BACKGROUND);
    assert_eq!(depth[5 * 64 + 5], ONE);
    // on the top edge: not strictly inside
    assert_eq!(color[10 * 64 + 30], BACKGROUND);
    assert_eq!(depth[10 * 64 + 30], ONE);
    // the vertices themselves
    assert_eq!(color[10 * 64 + 10], BACKGROUND);
    assert_eq!(color[50 * 64 + 30], BACKGROUND);
    // just inside the top edge, and just outside the slanted edges
    assert_eq!(color[11 * 64 + 30], FILL_COLOR);
    assert_eq!(color[30 * 64 + 20], BACKGROUND);
    assert_eq!(color[30 * 64 + 21], FILL_COLOR);
    assert_eq!(color[30 * 64 + 39], FILL_COLOR);
    assert_eq!(color[30 * 64 + 40], BACKGROUND);
}

#[test]
fn both_windings_cover_the_same_pixels() {
    let camera = Camera::new(64, 64);
    let (mut color_a, mut depth_a) = buffers(64, 64);
    let (mut color_b, mut depth_b) = buffers(64, 64);
    let z = [ONE / 2, ONE / 2, ONE / 2];
    let a = triangle((10, 10), (50, 10), (30, 50));
    let b = triangle((10, 10), (30, 50), (50, 10));
    assert_eq!(draw_triangle(&camera, &a, &z, &mut color_a, &mut depth_a), Ok(()));
    assert_eq!(draw_triangle(&camera, &b, &z, &mut color_b, &mut depth_b), Ok(()));
    assert_eq!(color_a, color_b);
    assert_eq!(depth_a, depth_b);
    assert!(count_drawn(&color_a) > 0);
}

#[test]
fn small_right_triangle_covers_exactly_its_inner_points() {
    let camera = Camera::new(8, 8);
    let (mut color, mut depth) = buffers(8, 8);
    let t = triangle((1, 1), (5, 1), (1, 5));
    let z = [ONE / 4, ONE / 4, ONE / 4];
    assert_eq!(draw_triangle(&camera, &t, &z, &mut color, &mut depth), Ok(()));
    // strictly inside: x > 1, y > 1, x + y < 6
    for y in 0..8usize {
        for x in 0..8usize {
            let inside = x > 1 && y > 1 && x + y < 6;
            assert_eq!(color[y * 8 + x] != BACKGROUND, inside);
            assert_eq!(depth[y * 8 + x], if inside { ONE / 4 } else { ONE });
        }
    }
    assert_eq!(count_drawn(&color), 3);
}

#[test]
fn pixels_next_to_an_edge_take_the_edge_colour() {
    let camera = Camera::new(600, 600);
    let (mut color, mut depth) = buffers(600, 600);
    let t = triangle((10, 10), (510, 10), (260, 510));
    let z = [ONE / 2, ONE / 2, ONE / 2];
    assert_eq!(draw_triangle(&camera, &t, &z, &mut color, &mut depth), Ok(()));
    // one row below the top edge: the weight of the third vertex is 1/500
    assert_eq!(color[11 * 600 + 260], EDGE_COLOR);
    // five rows below: the weight is exactly 1/100, which is not below it
    assert_eq!(color[15 * 600 + 260], FILL_COLOR);
    assert_eq!(color[14 * 600 + 260], EDGE_COLOR);
    assert_eq!(color[200 * 600 + 260], FILL_COLOR);
    assert_eq!(EDGE_COLOR, 255 << 16);
    assert_eq!(FILL_COLOR, 0);
}

#[test]
fn depth_is_interpolated_between_the_vertices() {
    let camera = Camera::new(16, 16);
    let (mut color, mut depth) = buffers(16, 16);
    let t = triangle((0, 0), (8, 0), (0, 8));
    let z = [1000, 9000, 5000];
    assert_eq!(draw_triangle(&camera, &t, &z, &mut color, &mut depth), Ok(()));
    // at (2, 2): weights 1/2, 1/4, 1/4
    assert_eq!(depth[2 * 16 + 2], 500 + 2250 + 1250);
    // at (1, 3): weights 1/2, 1/8, 3/8
    assert_eq!(depth[3 * 16 + 1], 500 + 1125 + 1875);
    // at (3, 1): weights 1/2, 3/8, 1/8
    assert_eq!(depth[1 * 16 + 3], 500 + 3375 + 625);
}

#[test]
fn interpolated_depth_rounds_down() {
    let camera = Camera::new(16, 16);
    let (mut color, mut depth) = buffers(16, 16);
    let t = triangle((0, 0), (3, 0), (0, 3));
    // at (1, 1): weights 1/3 each; (1 + 1 + 3) / 3 = 1.67 -> 1
    assert_eq!(draw_triangle(&camera, &t, &[1, 1, 3], &mut color, &mut depth), Ok(()));
    assert_eq!(depth[1 * 16 + 1], 1);
    assert_eq!(color[1 * 16 + 1], FILL_COLOR);
    let turned = triangle((0, 0), (0, 3), (3, 0));
    let (mut color, mut depth) = buffers(16, 16);
    assert_eq!(draw_triangle(&camera, &turned, &[2, 3, 3], &mut color, &mut depth), Ok(()));
    assert_eq!(depth[1 * 16 + 1], 2);
}

#[test]
fn nearer_triangle_wins_in_either_order() {
    let camera = Camera::new(64, 64);
    let near = triangle((10, 10), (50, 10), (30, 50));
    let far = triangle((5, 20), (60, 20), (30, 60));
    let z_near = [ONE / 4, ONE / 4, ONE / 4];
    let z_far = [ONE / 2, ONE / 2, 3 * ONE / 4];

    let (mut color_a, mut depth_a) = buffers(64, 64);
    assert_eq!(draw_triangle(&camera, &near, &z_near, &mut color_a, &mut depth_a), Ok(()));
    assert_eq!(draw_triangle(&camera, &far, &z_far, &mut color_a, &mut depth_a), Ok(()));

    let (mut color_b, mut depth_b) = buffers(64, 64);
    assert_eq!(draw_triangle(&camera, &far, &z_far, &mut color_b, &mut depth_b), Ok(()));
    assert_eq!(draw_triangle(&camera, &near, &z_near, &mut color_b, &mut depth_b), Ok(()));

    assert_eq!(color_a, color_b);
    assert_eq!(depth_a, depth_b);
    // a pixel that both cover holds the nearer depth
    assert_eq!(depth_a[30 * 64 + 30], ONE / 4);
    // a pixel that only the far one covers holds its depth
    assert!(depth_a[55 * 64 + 30] > ONE / 2);
    assert!(depth_a[55 * 64 + 30] < 3 * ONE / 4);
}

#[test]
fn nearer_edge_colour_shows_through_in_either_order() {
    let camera = Camera::new(600, 600);
    let big = triangle((10, 10), (510, 10), (260, 510));
    let small = triangle((200, 5), (320, 5), (260, 100));
    let z_big = [ONE / 4, ONE / 4, ONE / 4];
    let z_small = [ONE / 2, ONE / 2, ONE / 2];
    let (mut color_a, mut depth_a) = buffers(600, 600);
    assert_eq!(draw_triangle(&camera, &big, &z_big, &mut color_a, &mut depth_a), Ok(()));
    assert_eq!(draw_triangle(&camera, &small, &z_small, &mut color_a, &mut depth_a), Ok(()));
    let (mut color_b, mut depth_b) = buffers(600, 600);
    assert_eq!(draw_triangle(&camera, &small, &z_small, &mut color_b, &mut depth_b), Ok(()));
    assert_eq!(draw_triangle(&camera, &big, &z_big, &mut color_b, &mut depth_b), Ok(()));
    assert_eq!(color_a, color_b);
    assert_eq!(depth_a, depth_b);
    // (260, 11): edge of the big one, inner part of the small one; the big one is nearer
    assert_eq!(color_a[11 * 600 + 260], EDGE_COLOR);
    assert_eq!(depth_a[11 * 600 + 260], ONE / 4);
}

#[test]
fn equal_depth_keeps_what_was_drawn_first() {
    let camera = Camera::new(600, 600);
    let big = triangle((10, 10), (510, 10), (260, 510));
    let small = triangle((200, 5), (320, 5), (260, 100));
    let z = [ONE / 2, ONE / 2, ONE / 2];
    let (mut color, mut depth) = buffers(600, 600);
    assert_eq!(draw_triangle(&camera, &small, &z, &mut color, &mut depth), Ok(()));
    assert_eq!(draw_triangle(&camera, &big, &z, &mut color, &mut depth), Ok(()));
    assert_eq!(color[11 * 600 + 260], FILL_COLOR);
    let (mut color, mut depth) = buffers(600, 600);
    assert_eq!(draw_triangle(&camera, &big, &z, &mut color, &mut depth), Ok(()));
    assert_eq!(draw_triangle(&camera, &small, &z, &mut color, &mut depth), Ok(()));
    assert_eq!(color[11 * 600 + 260], EDGE_COLOR);
}

#[test]
fn fragment_behind_stored_depth_is_dropped() {
    let camera = Camera::new(16, 16);
    let mut color = vec![BACKGROUND; 256];
    let mut depth = vec![100i64; 256];
    let t = triangle((0, 0), (8, 0), (0, 8));
    assert_eq!(draw_triangle(&camera, &t, &[100, 100, 100], &mut color, &mut depth), Ok(()));
    assert_eq!(count_drawn(&color), 0);
    assert_eq!(draw_triangle(&camera, &t, &[99, 99, 99], &mut color, &mut depth), Ok(()));
    assert_eq!(color[2 * 16 + 2], FILL_COLOR);
    assert_eq!(depth[2 * 16 + 2], 99);
}

#[test]
fn triangle_behind_the_camera_writes_nothing() {
    let camera = Camera::new(64, 64);
    let t = triangle((10, 10), (50, 10), (30, 50));
    let culled: [[i64; 3]; 7] = [
        [-ONE / 2, -ONE / 2, -ONE / 2],
        [-1, -2, -3],
        [0, ONE / 2, ONE / 2],
        [ONE / 2, ONE, ONE / 2],
        [ONE / 2, ONE / 2, ONE + 1],
        [ONE / 2, ONE / 2, -1],
        [2 * ONE, 2 * ONE, 2 * ONE],
    ];
    for z in culled.iter() {
        let (mut color, mut depth) = buffers(64, 64);
        assert_eq!(draw_triangle(&camera, &t, z, &mut color, &mut depth), Ok(()));
        assert_eq!(count_drawn(&color), 0);
        assert_eq!(depth, vec![ONE; 64 * 64]);
    }
    // the limits of the visible range
    let (mut color, mut depth) = buffers(64, 64);
    assert_eq!(draw_triangle(&camera, &t, &[1, 1, ONE - 1], &mut color, &mut depth), Ok(()));
    assert!(count_drawn(&color) > 0);
}

#[test]
fn triangle_without_area_writes_nothing() {
    let camera = Camera::new(64, 64);
    let z = [ONE / 2, ONE / 2, ONE / 2];
    let (mut color, mut depth) = buffers(64, 64);
    let line = triangle((10, 10), (20, 20), (30, 30));
    assert_eq!(draw_triangle(&camera, &line, &z, &mut color, &mut depth), Ok(()));
    let dot = triangle((10, 10), (10, 10), (10, 10));
    assert_eq!(draw_triangle(&camera, &dot, &z, &mut color, &mut depth), Ok(()));
    assert_eq!(count_drawn(&color), 0);
    assert_eq!(depth, vec![ONE; 64 * 64]);
}

#[test]
fn triangle_off_screen_writes_nothing() {
    let camera = Camera::new(64, 64);
    let z = [ONE / 2, ONE / 2, ONE / 2];
    let (mut color, mut depth) = buffers(64, 64);
    let right = triangle((100, 10), (150, 10), (130, 50));
    assert_eq!(draw_triangle(&camera, &right, &z, &mut color, &mut depth), Ok(()));
    let above = triangle((10, -90), (50, -90), (30, -50));
    assert_eq!(draw_triangle(&camera, &above, &z, &mut color, &mut depth), Ok(()));
    assert_eq!(count_drawn(&color), 0);
}

#[test]
fn triangle_larger_than_the_screen_fills_its_inner_pixels() {
    let camera = Camera::new(8, 4);
    let z = [ONE / 2, ONE / 2, ONE / 2];
    let (mut color, mut depth) = buffers(8, 4);
    let t = triangle((-100, -100), (300, -100), (-100, 300));
    assert_eq!(draw_triangle(&camera, &t, &z, &mut color, &mut depth), Ok(()));
    for y in 0..4usize {
        for x in 0..8usize {
            // the first column and the first row are the border of the screen
            let inside = x > 0 && y > 0;
            assert_eq!(color[y * 8 + x] != BACKGROUND, inside);
        }
    }
}

#[test]
fn vertices_between_pixels_are_exact() {
    let camera = Camera::new(8, 8);
    let z = [ONE / 2, ONE / 2, ONE / 2];
    let (mut color, mut depth) = buffers(8, 8);
    // a sliver around the point (2, 2) that misses every other point
    let t = Triangle2D::new(
        Vec2::new(2 * ONE - 1, 2 * ONE - 1),
        Vec2::new(2 * ONE + 2, 2 * ONE),
        Vec2::new(2 * ONE, 2 * ONE + 2),
    );
    assert_eq!(draw_triangle(&camera, &t, &z, &mut color, &mut depth), Ok(()));
    assert_eq!(count_drawn(&color), 1);
    assert_ne!(color[2 * 8 + 2], BACKGROUND);
    // moved by one raw step the point lies on an edge
    let (mut color, mut depth) = buffers(8, 8);
    let moved = Triangle2D::new(
        Vec2::new(2 * ONE, 2 * ONE),
        Vec2::new(2 * ONE + 3, 2 * ONE + 1),
        Vec2::new(2 * ONE + 1, 2 * ONE + 3),
    );
    assert_eq!(draw_triangle(&camera, &moved, &z, &mut color, &mut depth), Ok(()));
    assert_eq!(count_drawn(&color), 0);
}

#[test]
fn triangle_outside_the_guard_band_is_skipped() {
    let camera = Camera::new(8, 8);
    let z = [ONE / 2, ONE / 2, ONE / 2];
    let inside_band = Triangle2D::new(
        Vec2::new(-GUARD_BAND, -GUARD_BAND),
        Vec2::new(GUARD_BAND, -GUARD_BAND),
        Vec2::new(0, GUARD_BAND),
    );
    let (mut color, mut depth) = buffers(8, 8);
    assert_eq!(draw_triangle(&camera, &inside_band, &z, &mut color, &mut depth), Ok(()));
    assert_eq!(count_drawn(&color), 7 * 7);
    let outside_band = Triangle2D::new(
        Vec2::new(-GUARD_BAND - 1, -GUARD_BAND),
        Vec2::new(GUARD_BAND, -GUARD_BAND),
        Vec2::new(0, GUARD_BAND),
    );
    let (mut color, mut depth) = buffers(8, 8);
    assert_eq!(draw_triangle(&camera, &outside_band, &z, &mut color, &mut depth), Ok(()));
    assert_eq!(count_drawn(&color), 0);
    let saturated = Triangle2D::new(
        Vec2::new(i64::MIN, i64::MIN),
        Vec2::new(i64::MAX, i64::MIN),
        Vec2::new(0, i64::MAX),
    );
    assert_eq!(draw_triangle(&camera, &saturated, &z, &mut color, &mut depth), Ok(()));
    assert_eq!(count_drawn(&color), 0);
}

#[test]
fn guard_band_is_two_to_the_twenty_fourth_pixels() {
    assert_eq!(GUARD_BAND, (1 << 24) * ONE);
}

#[test]
fn buffers_of_the_wrong_size_are_refused() {
    let camera = Camera::new(8, 8);
    let t = triangle((1, 1), (5, 1), (1, 5));
    let z = [ONE / 2, ONE / 2, ONE / 2];
    let mut color = vec![BACKGROUND; 63];
    let mut depth = vec![ONE; 64];
    assert_eq!(
        draw_triangle(&camera, &t, &z, &mut color, &mut depth),
        Err(RenderError::BufferSizeMismatch)
    );
    assert_eq!(color, vec![BACKGROUND; 63]);
    let mut color = vec![BACKGROUND; 64];
    let mut depth = vec![ONE; 65];
    assert_eq!(
        draw_triangle(&camera, &t, &z, &mut color, &mut depth),
        Err(RenderError::BufferSizeMismatch)
    );
    assert_eq!(depth, vec![ONE; 65]);
    let huge = Camera::new(u32::MAX, u32::MAX);
    let mut color = vec![BACKGROUND; 64];
    let mut depth = vec![ONE; 64];
    assert_eq!(
        draw_triangle(&huge, &t, &z, &mut color, &mut depth),
        Err(RenderError::BufferSizeMismatch)
    );
}

#[test]
fn empty_screen_takes_empty_buffers() {
    let camera = Camera::new(0, 5);
    let t = triangle((1, 1), (5, 1), (1, 5));
    let mut color: Vec<u32> = Vec::new();
    let mut depth: Vec<i64> = Vec::new();
    assert_eq!(draw_triangle(&camera, &t, &[5, 5, 5], &mut color, &mut depth), Ok(()));
    assert!(color.is_empty());
}

#[test]
fn weights_of_an_inner_pixel_sum_to_one() {
    // the weights at (30, 20) of (10,10), (50,10), (30,50), as numerators over the doubled area
    let (v0, v1, v2) = ((10i64, 10i64), (50i64, 10i64), (30i64, 50i64));
    let p = (30i64, 20i64);
    let wd = (v1.1 - v2.1) * (v0.0 - v2.0) + (v2.0 - v1.0) * (v0.1 - v2.1);
    let n0 = (v1.1 - v2.1) * (p.0 - v2.0) + (v2.0 - v1.0) * (p.1 - v2.1);
    let n1 = (v2.1 - v0.1) * (p.0 - v2.0) + (v0.0 - v2.0) * (p.1 - v2.1);
    let n2 = wd - n0 - n1;
    assert_eq!(n0 + n1 + n2, wd);
    assert_eq!((wd, n0, n1, n2), (1600, 600, 600, 400));
    // and the depth that the rasterizer stores is the weighted sum
    let camera = Camera::new(64, 64);
    let (mut color, mut depth) = buffers(64, 64);
    let t = triangle((10, 10), (50, 10), (30, 50));
    assert_eq!(draw_triangle(&camera, &t, &[1600, 3200, 4800], &mut color, &mut depth), Ok(()));
    assert_eq!(depth[20 * 64 + 30], 600 + 1200 + 1200);
}
