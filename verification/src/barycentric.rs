//! Barycentric weights: where a point lies in a triangle.
//!
//! The weight of a vertex at a point is a ratio of two integers. The
//! denominator, the doubled signed area of the triangle, is the same for
//! all three weights, so the contracts speak of the three numerators and of
//! the one denominator, and no division rounds anything. A point is inside
//! a triangle when its three weights are positive. The weights are ratios,
//! so the winding does not matter: a point inside has three positive
//! weights whichever way the vertices turn.

use vstd::prelude::*;
use crate::aabb::AABB;
use crate::fixed::{max_spec, min_spec};
use crate::triangle::Triangle2D;
use crate::vector::Vec2;

verus! {

/// Twice the signed area of `t`: the common denominator of the weights.
pub open spec fn doubled_area(t: Triangle2D) -> int {
    (t.v1.y - t.v2.y) * (t.v0.x - t.v2.x) + (t.v2.x - t.v1.x) * (t.v0.y - t.v2.y)
}

/// Numerator of the weight of `t.v0` at `p`.
pub open spec fn weight0(t: Triangle2D, p: Vec2) -> int {
    (t.v1.y - t.v2.y) * (p.x - t.v2.x) + (t.v2.x - t.v1.x) * (p.y - t.v2.y)
}

/// Numerator of the weight of `t.v1` at `p`.
pub open spec fn weight1(t: Triangle2D, p: Vec2) -> int {
    (t.v2.y - t.v0.y) * (p.x - t.v2.x) + (t.v0.x - t.v2.x) * (p.y - t.v2.y)
}

/// Numerator of the weight of `t.v2` at `p`: what the other two leave of
/// the whole.
pub open spec fn weight2(t: Triangle2D, p: Vec2) -> int {
    doubled_area(t) - weight0(t, p) - weight1(t, p)
}

/// Whether the ratio `n / d` is a positive number.
pub open spec fn positive_ratio(n: int, d: int) -> bool {
    (d > 0 && n > 0) || (d < 0 && n < 0)
}

/// Whether `p` is inside `t`: all three weights are strictly positive.
/// A point on an edge is outside, and a triangle without area covers
/// nothing.
pub open spec fn covers(t: Triangle2D, p: Vec2) -> bool {
    &&& positive_ratio(weight0(t, p), doubled_area(t))
    &&& positive_ratio(weight1(t, p), doubled_area(t))
    &&& positive_ratio(weight2(t, p), doubled_area(t))
}

/// The weights of a covered point are a partition of unity: their
/// numerators add up to the common denominator, and each weight lies
/// strictly between zero and one.
pub proof fn lemma_weights_partition_unity(t: Triangle2D, p: Vec2)
    requires
        covers(t, p),
    ensures
        weight0(t, p) + weight1(t, p) + weight2(t, p) == doubled_area(t),
        positive_ratio(weight0(t, p), doubled_area(t)),
        positive_ratio(weight1(t, p), doubled_area(t)),
        positive_ratio(weight2(t, p), doubled_area(t)),
        positive_ratio(doubled_area(t) - weight0(t, p), doubled_area(t)),
        positive_ratio(doubled_area(t) - weight1(t, p), doubled_area(t)),
        positive_ratio(doubled_area(t) - weight2(t, p), doubled_area(t)),
{
}

/// The weights of a point give the point back as a weighted sum of the
/// three vertices, coordinate by coordinate: the doubled area times the
/// point is the sum of the weights' numerators times the vertices.
pub proof fn lemma_weights_reproduce_point(t: Triangle2D, p: Vec2)
    ensures
        doubled_area(t) * p.x == weight0(t, p) * t.v0.x + weight1(t, p) * t.v1.x + weight2(t, p)
            * t.v2.x,
        doubled_area(t) * p.y == weight0(t, p) * t.v0.y + weight1(t, p) * t.v1.y + weight2(t, p)
            * t.v2.y,
{
    let ax = t.v0.x - t.v2.x;
    let ay = t.v0.y - t.v2.y;
    let bx = t.v1.x - t.v2.x;
    let by = t.v1.y - t.v2.y;
    let qx = p.x - t.v2.x;
    let qy = p.y - t.v2.y;
    let wd = doubled_area(t);
    let n0 = weight0(t, p);
    let n1 = weight1(t, p);
    let n2 = weight2(t, p);
    assert(wd == by * ax - bx * ay) by (nonlinear_arith)
        requires
            wd == by * ax + (-bx) * ay,
    ;
    assert(n0 == by * qx - bx * qy) by (nonlinear_arith)
        requires
            n0 == by * qx + (-bx) * qy,
    ;
    assert(n1 == ax * qy - ay * qx) by (nonlinear_arith)
        requires
            n1 == (-ay) * qx + ax * qy,
    ;
    assert(wd * qx == n0 * ax + n1 * bx) by (nonlinear_arith)
        requires
            wd == by * ax - bx * ay,
            n0 == by * qx - bx * qy,
            n1 == ax * qy - ay * qx,
    ;
    assert(wd * qy == n0 * ay + n1 * by) by (nonlinear_arith)
        requires
            wd == by * ax - bx * ay,
            n0 == by * qx - bx * qy,
            n1 == ax * qy - ay * qx,
    ;
    let v0x = t.v0.x as int;
    let v1x = t.v1.x as int;
    let v2x = t.v2.x as int;
    let px = p.x as int;
    assert(wd * px == n0 * v0x + n1 * v1x + n2 * v2x) by (nonlinear_arith)
        requires
            wd * qx == n0 * ax + n1 * bx,
            qx == px - v2x,
            ax == v0x - v2x,
            bx == v1x - v2x,
            n2 == wd - n0 - n1,
    ;
    let v0y = t.v0.y as int;
    let v1y = t.v1.y as int;
    let v2y = t.v2.y as int;
    let py = p.y as int;
    assert(wd * py == n0 * v0y + n1 * v1y + n2 * v2y) by (nonlinear_arith)
        requires
            wd * qy == n0 * ay + n1 * by,
            qy == py - v2y,
            ay == v0y - v2y,
            by == v1y - v2y,
            n2 == wd - n0 - n1,
    ;
}

/// A weighted mean of three numbers with positive weights lies between
/// the least and the largest of them.
proof fn lemma_mean_between(n0: int, n1: int, n2: int, d: int, c0: int, c1: int, c2: int, m: int)
    requires
        d == n0 + n1 + n2,
        positive_ratio(n0, d),
        positive_ratio(n1, d),
        positive_ratio(n2, d),
        d * m == n0 * c0 + n1 * c1 + n2 * c2,
    ensures
        min_spec(min_spec(c0, c1), c2) <= m <= max_spec(max_spec(c0, c1), c2),
{
    let lo = min_spec(min_spec(c0, c1), c2);
    let hi = max_spec(max_spec(c0, c1), c2);
    if d > 0 {
        assert(n0 * lo <= n0 * c0 <= n0 * hi) by (nonlinear_arith)
            requires
                n0 > 0,
                lo <= c0 <= hi,
        ;
        assert(n1 * lo <= n1 * c1 <= n1 * hi) by (nonlinear_arith)
            requires
                n1 > 0,
                lo <= c1 <= hi,
        ;
        assert(n2 * lo <= n2 * c2 <= n2 * hi) by (nonlinear_arith)
            requires
                n2 > 0,
                lo <= c2 <= hi,
        ;
        assert(d * lo == n0 * lo + n1 * lo + n2 * lo && d * hi == n0 * hi + n1 * hi + n2 * hi)
            by (nonlinear_arith)
            requires
                d == n0 + n1 + n2,
        ;
        assert(lo <= m <= hi) by (nonlinear_arith)
            requires
                d > 0,
                d * lo <= d * m <= d * hi,
        ;
    } else {
        assert(n0 * lo >= n0 * c0 >= n0 * hi) by (nonlinear_arith)
            requires
                n0 < 0,
                lo <= c0 <= hi,
        ;
        assert(n1 * lo >= n1 * c1 >= n1 * hi) by (nonlinear_arith)
            requires
                n1 < 0,
                lo <= c1 <= hi,
        ;
        assert(n2 * lo >= n2 * c2 >= n2 * hi) by (nonlinear_arith)
            requires
                n2 < 0,
                lo <= c2 <= hi,
        ;
        assert(d * lo == n0 * lo + n1 * lo + n2 * lo && d * hi == n0 * hi + n1 * hi + n2 * hi)
            by (nonlinear_arith)
            requires
                d == n0 + n1 + n2,
        ;
        assert(lo <= m <= hi) by (nonlinear_arith)
            requires
                d < 0,
                d * lo >= d * m >= d * hi,
        ;
    }
}

/// A point that a triangle covers lies in the triangle's bounding box.
pub proof fn lemma_covered_point_in_bounds(t: Triangle2D, p: Vec2)
    requires
        covers(t, p),
    ensures
        AABB::bounding(t).contains(p),
{
    lemma_weights_reproduce_point(t, p);
    lemma_mean_between(
        weight0(t, p),
        weight1(t, p),
        weight2(t, p),
        doubled_area(t),
        t.v0.x as int,
        t.v1.x as int,
        t.v2.x as int,
        p.x as int,
    );
    lemma_mean_between(
        weight0(t, p),
        weight1(t, p),
        weight2(t, p),
        doubled_area(t),
        t.v0.y as int,
        t.v1.y as int,
        t.v2.y as int,
        p.y as int,
    );
}

} // verus!
