use dedede::aabb::AABB;
use dedede::fixed::{floor, from_int, max, min, saturate, ONE};
use dedede::triangle::Triangle2D;
use dedede::vector::Vec2;

fn px(n: i32) -> i64 {
    from_int(n)
}

fn collect(aabb: AABB) -> Vec<Vec2> {
    let mut it = aabb.into_iter();
    let mut out = Vec::new();
    loop {
        match it.next() {
            Some(p) => out.push(p),
            None => return out,
        }
    }
}

#[test]
fn one_is_two_to_the_twenty_fourth() {
    assert_eq!(ONE, 1 << 24);
    assert_eq!(from_int(1), ONE);
    assert_eq!(from_int(-3), -3 * ONE);
}

#[test]
fn floor_rounds_towards_minus_infinity() {
    assert_eq!(floor(0), 0);
    assert_eq!(floor(ONE - 1), 0);
    assert_eq!(floor(ONE), 1);
    assert_eq!(floor(5 * ONE / 2), 2);
    assert_eq!(floor(-1), -1);
    assert_eq!(floor(-ONE), -1);
    assert_eq!(floor(-ONE - 1), -2);
    assert_eq!(floor(-5 * ONE / 2), -3);
    assert_eq!(floor(i64::MIN), -(1 << 39));
    assert_eq!(floor(i64::MAX), (1 << 39) - 1);
}

#[test]
fn saturate_limits_to_i64() {
    assert_eq!(saturate(12), 12);
    assert_eq!(saturate(i64::MAX as i128 + 1), i64::MAX);
    assert_eq!(saturate(i64::MIN as i128 - 1), i64::MIN);
    assert_eq!(saturate(i128::MAX), i64::MAX);
}

#[test]
fn max_and_min_pick_the_right_one() {
    assert_eq!(max(3, -4), 3);
    assert_eq!(min(3, -4), -4);
    assert_eq!(max(7, 7), 7);
}

#[test]
fn new_and_from_points_agree() {
    let a = AABB::new(px(1), px(4), px(2), px(8));
    let b = AABB::from_points(Vec2::new(px(1), px(2)), Vec2::new(px(4), px(8)));
    assert_eq!(a, b);
    assert_eq!(a.min_x, px(1));
    assert_eq!(a.max_x, px(4));
    assert_eq!(a.min_y, px(2));
    assert_eq!(a.max_y, px(8));
}

#[test]
fn enumerate_pixels_two_by_one_box() {
    let points = collect(AABB::new(px(0), px(2), px(0), px(1)));
    let expected = vec![
        Vec2::new(px(0), px(0)),
        Vec2::new(px(1), px(0)),
        Vec2::new(px(2), px(0)),
        Vec2::new(px(0), px(1)),
        Vec2::new(px(1), px(1)),
        Vec2::new(px(2), px(1)),
    ];
    assert_eq!(points, expected);
}

#[test]
fn enumerate_pixels_floors_fractional_bounds() {
    // x from 0.5 to 2.25, y from -1.5 to -0.5: columns 0..=2, rows -2..=-1
    let aabb = AABB::new(ONE / 2, 2 * ONE + ONE / 4, -3 * ONE / 2, -ONE / 2);
    let points = collect(aabb);
    let expected = vec![
        Vec2::new(px(0), px(-2)),
        Vec2::new(px(1), px(-2)),
        Vec2::new(px(2), px(-2)),
        Vec2::new(px(0), px(-1)),
        Vec2::new(px(1), px(-1)),
        Vec2::new(px(2), px(-1)),
    ];
    assert_eq!(points, expected);
}

#[test]
fn enumerate_pixels_single_point_box() {
    let points = collect(AABB::new(px(3), px(3), px(4), px(4)));
    assert_eq!(points, vec![Vec2::new(px(3), px(4))]);
}

#[test]
fn enumerate_pixels_empty_box_yields_nothing() {
    assert_eq!(collect(AABB::new(px(2), px(1), px(0), px(5))), vec![]);
    assert_eq!(collect(AABB::new(px(0), px(5), px(2), px(1))), vec![]);
    // empty although both bounds have the same floor
    assert_eq!(collect(AABB::new(ONE / 2, ONE / 4, px(0), px(1))), vec![]);
}

#[test]
fn enumeration_is_restartable_and_stays_exhausted() {
    let aabb = AABB::new(px(0), px(1), px(0), px(0));
    assert_eq!(collect(aabb), collect(aabb));
    let mut it = aabb.into_iter();
    assert_eq!(it.next(), Some(Vec2::new(0, 0)));
    assert_eq!(it.next(), Some(Vec2::new(ONE, 0)));
    assert_eq!(it.next(), None);
    assert_eq!(it.next(), None);
    assert_eq!(it.next(), None);
}

#[test]
fn enumeration_at_the_limits_of_the_range() {
    let top = AABB::new(i64::MAX - 1, i64::MAX, i64::MAX - 1, i64::MAX);
    let column = (1i64 << 39) - 1;
    assert_eq!(collect(top), vec![Vec2::new(column * ONE, column * ONE)]);
    let bottom = AABB::new(i64::MIN, i64::MIN + 1, i64::MIN, i64::MIN + 1);
    assert_eq!(collect(bottom), vec![Vec2::new(i64::MIN, i64::MIN)]);
}

#[test]
fn intersection_with_itself_is_identity() {
    let a = AABB::new(px(1), px(4), px(2), px(8));
    assert_eq!(a.intersection(&a), a);
    let degenerate = AABB::new(px(4), px(1), px(2), px(8));
    assert_eq!(degenerate.intersection(&degenerate), degenerate);
}

#[test]
fn intersection_takes_larger_minimum_and_smaller_maximum() {
    let a = AABB::new(px(0), px(10), px(0), px(10));
    let b = AABB::new(px(5), px(15), px(-5), px(3));
    let both = a.intersection(&b);
    assert_eq!(both, AABB::new(px(5), px(10), px(0), px(3)));
    assert_eq!(b.intersection(&a), both);
    assert!(!both.is_empty());
}

#[test]
fn intersection_of_disjoint_boxes_is_empty() {
    let a = AABB::new(px(0), px(2), px(0), px(2));
    let right = AABB::new(px(3), px(5), px(0), px(2));
    let below = AABB::new(px(0), px(2), px(3), px(5));
    assert!(a.intersection(&right).is_empty());
    assert!(a.intersection(&below).is_empty());
    assert!(right.intersection(&a).is_empty());
    assert_eq!(collect(a.intersection(&right)), vec![]);
}

#[test]
fn boxes_that_touch_share_their_border() {
    let a = AABB::new(px(0), px(2), px(0), px(2));
    let b = AABB::new(px(2), px(4), px(0), px(2));
    let both = a.intersection(&b);
    assert!(!both.is_empty());
    assert_eq!(both, AABB::new(px(2), px(2), px(0), px(2)));
}

#[test]
fn is_empty_needs_a_reversed_axis() {
    assert!(!AABB::new(0, 0, 0, 0).is_empty());
    assert!(AABB::new(1, 0, 0, 0).is_empty());
    assert!(AABB::new(0, 0, 1, 0).is_empty());
}

#[test]
fn point_in_aabb_is_strict() {
    let a = AABB::new(px(0), px(10), px(0), px(10));
    assert!(a.point_in_aabb(&Vec2::new(px(5), px(5))));
    assert!(a.point_in_aabb(&Vec2::new(1, 1)));
    assert!(!a.point_in_aabb(&Vec2::new(px(0), px(5))));
    assert!(!a.point_in_aabb(&Vec2::new(px(10), px(5))));
    assert!(!a.point_in_aabb(&Vec2::new(px(5), px(0))));
    assert!(!a.point_in_aabb(&Vec2::new(px(5), px(10))));
    assert!(!a.point_in_aabb(&Vec2::new(px(11), px(5))));
    assert!(!a.point_in_aabb(&Vec2::new(px(5), px(-1))));
}

#[test]
fn bounding_box_of_a_triangle() {
    let t = Triangle2D::new(
        Vec2::new(px(10), px(10)),
        Vec2::new(px(50), px(12)),
        Vec2::new(px(30), px(-7)),
    );
    assert_eq!(AABB::from(&t), AABB::new(px(10), px(50), px(-7), px(12)));
    let turned = Triangle2D::new(t.v2, t.v0, t.v1);
    assert_eq!(AABB::from(&turned), AABB::from(&t));
}

#[test]
fn size_is_the_product_of_the_extents() {
    assert_eq!(AABB::new(px(1), px(4), px(2), px(8)).size(), px(18));
    // half by half is a quarter
    assert_eq!(AABB::new(0, ONE / 2, 0, ONE / 2).size(), ONE / 4);
    // a reversed axis gives a negative area
    assert_eq!(AABB::new(px(4), px(1), px(2), px(8)).size(), px(-18));
    assert_eq!(AABB::new(px(3), px(3), px(2), px(8)).size(), 0);
    // the smallest extents round down to nothing
    assert_eq!(AABB::new(0, 1, 0, 1).size(), 0);
    assert_eq!(AABB::new(0, -1, 0, 1).size(), -1);
}

#[test]
fn size_saturates() {
    let huge = AABB::new(i64::MIN, i64::MAX, i64::MIN, i64::MAX);
    assert_eq!(huge.size(), i64::MAX);
    let reversed = AABB::new(i64::MAX, i64::MIN, i64::MIN, i64::MAX);
    assert_eq!(reversed.size(), i64::MIN);
    let wide = AABB::new(0, i64::MAX, 0, 1 << 30);
    assert_eq!(wide.size(), i64::MAX);
}
