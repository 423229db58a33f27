//! Axis-aligned boxes of the plane and the whole-numbered points in them.

use vstd::prelude::*;
use vstd::arithmetic::div_mod::lemma_fundamental_div_mod_converse;
use crate::fixed::{
    clamp_i64, floor, floor_div, floor_spec, max, max_spec, min, min_spec, saturate, ONE,
};
use crate::triangle::Triangle2D;
use crate::vector::Vec2;

verus! {

/// An axis-aligned box, given by its bounds on each axis. A box whose
/// lower bound lies above its upper bound on either axis is empty.
#[derive(Clone, Copy, Debug, PartialEq, Eq, Structural)]
pub struct AABB {
    pub min_x: i64,
    pub max_x: i64,
    pub min_y: i64,
    pub max_y: i64,
}

impl AABB {
    /// Whether the box holds no point at all.
    pub open spec fn is_empty_spec(self) -> bool {
        self.min_x > self.max_x || self.min_y > self.max_y
    }

    /// Whether `p` lies in the box, its border included.
    pub open spec fn contains(self, p: Vec2) -> bool {
        self.min_x <= p.x <= self.max_x && self.min_y <= p.y <= self.max_y
    }

    /// Whether `p` lies in the box and not on its border.
    pub open spec fn contains_strictly(self, p: Vec2) -> bool {
        self.min_x < p.x < self.max_x && self.min_y < p.y < self.max_y
    }

    /// The box of the points that lie in both `self` and `other`.
    pub open spec fn intersection_spec(self, other: AABB) -> AABB {
        AABB {
            min_x: max_spec(self.min_x as int, other.min_x as int) as i64,
            max_x: min_spec(self.max_x as int, other.max_x as int) as i64,
            min_y: max_spec(self.min_y as int, other.min_y as int) as i64,
            max_y: min_spec(self.max_y as int, other.max_y as int) as i64,
        }
    }

    /// The smallest box around the three vertices of `t`.
    pub open spec fn bounding(t: Triangle2D) -> AABB {
        AABB {
            min_x: min_spec(min_spec(t.v0.x as int, t.v1.x as int), t.v2.x as int) as i64,
            max_x: max_spec(max_spec(t.v0.x as int, t.v1.x as int), t.v2.x as int) as i64,
            min_y: min_spec(min_spec(t.v0.y as int, t.v1.y as int), t.v2.y as int) as i64,
            max_y: max_spec(max_spec(t.v0.y as int, t.v1.y as int), t.v2.y as int) as i64,
        }
    }

    /// Column of the leftmost whole-numbered points of the box.
    pub open spec fn first_column(self) -> int {
        floor_spec(self.min_x as int)
    }

    /// Column of the rightmost whole-numbered points of the box.
    pub open spec fn last_column(self) -> int {
        floor_spec(self.max_x as int)
    }

    /// Row of the topmost whole-numbered points of the box.
    pub open spec fn first_row(self) -> int {
        floor_spec(self.min_y as int)
    }

    /// Row of the bottommost whole-numbered points of the box.
    pub open spec fn last_row(self) -> int {
        floor_spec(self.max_y as int)
    }

    /// Number of columns of whole-numbered points.
    pub open spec fn columns(self) -> int {
        self.last_column() - self.first_column() + 1
    }

    /// Number of rows of whole-numbered points.
    pub open spec fn rows(self) -> int {
        self.last_row() - self.first_row() + 1
    }

    /// How many whole-numbered points the box hands out: none when it is
    /// empty, else one for each column of each row.
    pub open spec fn pixel_count(self) -> nat {
        if self.is_empty_spec() {
            0
        } else {
            (self.columns() * self.rows()) as nat
        }
    }

    /// The whole-numbered point in column `column` and row `row`.
    pub open spec fn grid_point(column: int, row: int) -> Vec2 {
        Vec2 { x: (column * ONE) as i64, y: (row * ONE) as i64 }
    }

    /// The `i`-th whole-numbered point of the box, rows first.
    pub open spec fn pixel(self, i: int) -> Vec2 {
        Self::grid_point(
            self.first_column() + i % self.columns(),
            self.first_row() + i / self.columns(),
        )
    }

    /// The whole-numbered points of the box: those whose column lies between
    /// the floors of the bounds on x and whose row lies between the floors
    /// of the bounds on y, row by row from the first, each row from left to
    /// right. An empty box has none.
    pub open spec fn pixels(self) -> Seq<Vec2> {
        Seq::new(self.pixel_count(), |i: int| self.pixel(i))
    }

    /// The area of the box, limited to the range of `i64`.
    pub open spec fn size_spec(self) -> int {
        clamp_i64(((self.max_x - self.min_x) * (self.max_y - self.min_y)) / (ONE as int))
    }

    pub fn new(min_x: i64, max_x: i64, min_y: i64, max_y: i64) -> (r: Self)
        ensures
            r == (AABB { min_x, max_x, min_y, max_y }),
    {
        AABB { min_x, max_x, min_y, max_y }
    }

    /// The box between the corner `min` and the corner `max`.
    pub fn from_points(min: Vec2, max: Vec2) -> (r: Self)
        ensures
            r == (AABB { min_x: min.x, max_x: max.x, min_y: min.y, max_y: max.y }),
    {
        AABB { min_x: min.x, max_x: max.x, min_y: min.y, max_y: max.y }
    }

    /// Whether the box holds no point.
    pub fn is_empty(&self) -> (r: bool)
        ensures
            r == self.is_empty_spec(),
    {
        self.min_x > self.max_x || self.min_y > self.max_y
    }

    /// Whether `point` lies strictly inside the box: a point on the border
    /// is outside.
    pub fn point_in_aabb(&self, point: &Vec2) -> (r: bool)
        ensures
            r == self.contains_strictly(*point),
    {
        point.x > self.min_x && point.x < self.max_x && point.y > self.min_y && point.y
            < self.max_y
    }

    /// The intersection of `self` and `other`: the larger of the lower
    /// bounds and the smaller of the upper bounds on each axis. It is empty
    /// when the two boxes share no point.
    pub fn intersection(&self, other: &Self) -> (r: Self)
        ensures
            r == self.intersection_spec(*other),
            forall|p: Vec2| r.contains(p) <==> self.contains(p) && other.contains(p),
    {
        AABB {
            min_x: max(self.min_x, other.min_x),
            max_x: min(self.max_x, other.max_x),
            min_y: max(self.min_y, other.min_y),
            max_y: min(self.max_y, other.max_y),
        }
    }

    /// The area of the box: the product of its extents on the two axes,
    /// rounded towards minus infinity and limited to the range of `i64`.
    pub fn size(&self) -> (r: i64)
        ensures
            r == self.size_spec(),
    {
        let dx: i128 = self.max_x as i128 - self.min_x as i128;
        let dy: i128 = self.max_y as i128 - self.min_y as i128;
        match dx.checked_mul(dy) {
            Some(area) => saturate(floor_div(area, ONE as i128)),
            None => {
                proof {
                    assert(dx * dy > 0 <==> (dx > 0) == (dy > 0)) by (nonlinear_arith)
                        requires
                            dx * dy != 0,
                    ;
                }
                if (dx > 0) == (dy > 0) {
                    i64::MAX
                } else {
                    i64::MIN
                }
            },
        }
    }

    /// Hands out the whole-numbered points of the box one by one.
    pub fn into_iter(self) -> (it: AABBIter)
        ensures
            it.aabb() == self,
            it@ == self.pixels(),
    {
        AABBIter::new(self)
    }
}

impl<'a> From<&'a Triangle2D> for AABB {
    /// The smallest box around the three vertices of `value`.
    fn from(value: &'a Triangle2D) -> (r: Self)
    {
        AABB {
            min_x: min(min(value.v0.x, value.v1.x), value.v2.x),
            max_x: max(max(value.v0.x, value.v1.x), value.v2.x),
            min_y: min(min(value.v0.y, value.v1.y), value.v2.y),
            max_y: max(max(value.v0.y, value.v1.y), value.v2.y),
        }
    }
}

impl<'a> vstd::std_specs::convert::FromSpecImpl<&'a Triangle2D> for AABB {
    open spec fn obeys_from_spec() -> bool {
        true
    }

    open spec fn from_spec(value: &'a Triangle2D) -> Self {
        AABB::bounding(*value)
    }
}

/// A walk over the whole-numbered points of a box.
pub struct AABBIter {
    inner: AABB,
    x: i64,
    y: i64,
}

impl View for AABBIter {
    type V = Seq<Vec2>;

    /// The points that are still to come, in order.
    closed spec fn view(&self) -> Seq<Vec2> {
        self.inner.pixels().skip(self.position())
    }
}

impl AABBIter {
    #[verifier::type_invariant]
    spec fn cursor_in_grid(self) -> bool {
        self.inner.is_empty_spec() || {
            &&& self.inner.first_column() <= self.x <= self.inner.last_column()
            &&& self.inner.first_row() <= self.y <= self.inner.last_row() + 1
            &&& self.y == self.inner.last_row() + 1 ==> self.x == self.inner.first_column()
        }
    }

    /// The box whose points are handed out.
    pub closed spec fn aabb(self) -> AABB {
        self.inner
    }

    /// How many points have been handed out.
    pub closed spec fn position(self) -> int {
        if self.inner.is_empty_spec() {
            0
        } else {
            (self.y - self.inner.first_row()) * self.inner.columns() + (self.x
                - self.inner.first_column())
        }
    }

    fn new(inner: AABB) -> (it: Self)
        ensures
            it.aabb() == inner,
            it.position() == 0,
            it@ == inner.pixels(),
    {
        let x: i64 = floor(inner.min_x);
        let y: i64 = floor(inner.min_y);
        proof {
            if !inner.is_empty_spec() {
                lemma_floor_monotonic(inner.min_x as int, inner.max_x as int);
                lemma_floor_monotonic(inner.min_y as int, inner.max_y as int);
            }
        }
        let it = AABBIter { inner, x, y };
        proof {
            assert(it.position() == 0) by (nonlinear_arith)
                requires
                    it.position() == if inner.is_empty_spec() {
                        0
                    } else {
                        (it.y - inner.first_row()) * inner.columns() + (it.x
                            - inner.first_column())
                    },
                    it.y == inner.first_row(),
                    it.x == inner.first_column(),
            ;
            assert(inner.pixels().skip(0) =~= inner.pixels());
        }
        it
    }

    /// The next point of the walk, or `None` once every point has been
    /// handed out.
    pub fn next(&mut self) -> (r: Option<Vec2>)
        ensures
            final(self).aabb() == old(self).aabb(),
            old(self)@.len() == 0 ==> r is None && final(self)@ == old(self)@,
            old(self)@.len() > 0 ==> r == Some(old(self)@[0]),
            old(self)@.len() > 0 ==> final(self)@ == old(self)@.skip(1),
    {
        proof {
            use_type_invariant(&*self);
        }
        if self.inner.is_empty() {
            return None;
        }
        let first_col: i64 = floor(self.inner.min_x);
        let last_col: i64 = floor(self.inner.max_x);
        let last_row: i64 = floor(self.inner.max_y);
        let ghost cols = self.inner.columns();
        let ghost rows = self.inner.rows();
        let ghost col = self.x - self.inner.first_column();
        let ghost row = self.y - self.inner.first_row();
        let ghost pos = self.position();
        proof {
            lemma_floor_monotonic(self.inner.min_x as int, self.inner.max_x as int);
            lemma_floor_monotonic(self.inner.min_y as int, self.inner.max_y as int);
            lemma_cursor_position(cols, rows, col, row);
        }
        if self.y > last_row {
            return None;
        }
        proof {
            lemma_fundamental_div_mod_converse(pos, cols, row, col);
            assert(self.x * ONE <= self.inner.max_x) by (nonlinear_arith)
                requires
                    self.x <= last_col,
                    last_col * ONE <= self.inner.max_x,
            ;
            assert(self.x * ONE >= self.inner.min_x - ONE) by (nonlinear_arith)
                requires
                    self.x >= first_col,
                    (first_col + 1) * ONE > self.inner.min_x,
            ;
            assert(self.y * ONE <= self.inner.max_y) by (nonlinear_arith)
                requires
                    self.y <= last_row,
                    last_row * ONE <= self.inner.max_y,
            ;
            assert(self.y * ONE >= self.inner.min_y - ONE) by (nonlinear_arith)
                requires
                    self.y >= self.inner.first_row(),
                    (self.inner.first_row() + 1) * ONE > self.inner.min_y,
            ;
        }
        let res = Vec2::new(self.x * ONE, self.y * ONE);
        if self.x >= last_col {
            self.x = first_col;
            self.y = self.y + 1;
        } else {
            self.x = self.x + 1;
        }
        proof {
            let ghost next_col = self.x - self.inner.first_column();
            let ghost next_row = self.y - self.inner.first_row();
            assert(self.position() == pos + 1) by (nonlinear_arith)
                requires
                    self.position() == next_row * cols + next_col,
                    pos == row * cols + col,
                    (next_row == row && next_col == col + 1) || (next_row == row + 1 && next_col
                        == 0 && col == cols - 1),
            ;
            assert(old(self)@[0] == res);
            assert(self@ =~= old(self)@.skip(1));
        }
        Some(res)
    }
}

/// Intersecting a box with itself gives the box back.
pub proof fn lemma_intersection_idempotent(a: AABB)
    ensures
        a.intersection_spec(a) == a,
{
}

/// A point lies in the intersection of two boxes exactly when it lies in
/// both.
pub proof fn lemma_intersection_contains(a: AABB, b: AABB, p: Vec2)
    ensures
        a.intersection_spec(b).contains(p) <==> a.contains(p) && b.contains(p),
{
}

/// The intersection of two boxes that share no point is empty.
pub proof fn lemma_disjoint_intersection_empty(a: AABB, b: AABB)
    requires
        forall|p: Vec2| !(a.contains(p) && b.contains(p)),
    ensures
        a.intersection_spec(b).is_empty_spec(),
{
    let both = a.intersection_spec(b);
    if !both.is_empty_spec() {
        let corner = Vec2 { x: both.min_x, y: both.min_y };
        assert(a.contains(corner) && b.contains(corner));
    }
}

/// An empty box hands out no point.
pub proof fn lemma_empty_box_has_no_pixels(a: AABB)
    requires
        a.is_empty_spec(),
    ensures
        a.pixels().len() == 0,
{
}

/// The floor keeps the order of two numbers.
pub proof fn lemma_floor_monotonic(a: int, b: int)
    requires
        a <= b,
    ensures
        floor_spec(a) <= floor_spec(b),
{
    vstd::arithmetic::div_mod::lemma_div_is_ordered(a, b, ONE as int);
}

/// A cursor in column `col` of row `row` of a grid has passed
/// `row * cols + col` points; that number is below the size of the grid
/// exactly when the row is one of the grid.
proof fn lemma_cursor_position(cols: int, rows: int, col: int, row: int)
    requires
        cols >= 1,
        rows >= 1,
        0 <= col < cols,
        0 <= row <= rows,
        row == rows ==> col == 0,
    ensures
        0 <= row * cols + col <= cols * rows,
        row < rows <==> row * cols + col < cols * rows,
{
    assert(0 <= row * cols + col <= cols * rows && (row < rows <==> row * cols + col < cols
        * rows)) by (nonlinear_arith)
        requires
            cols >= 1,
            rows >= 1,
            0 <= col < cols,
            0 <= row <= rows,
            row == rows ==> col == 0,
    ;
}

/// Each point that a box hands out lies on its grid: the `j`-th point is
/// the whole-numbered point of a column and a row of the box.
pub proof fn lemma_pixel_in_grid(grid: AABB, j: int)
    requires
        0 <= j < grid.pixel_count(),
    ensures
        grid.first_column() <= grid.first_column() + j % grid.columns() <= grid.last_column(),
        grid.first_row() <= grid.first_row() + j / grid.columns() <= grid.last_row(),
        grid.pixels()[j] == grid.pixel(j),
{
    lemma_floor_monotonic(grid.min_x as int, grid.max_x as int);
    lemma_floor_monotonic(grid.min_y as int, grid.max_y as int);
    let cols = grid.columns();
    let rows = grid.rows();
    vstd::arithmetic::div_mod::lemma_fundamental_div_mod(j, cols);
    vstd::arithmetic::div_mod::lemma_mod_bound(j, cols);
    let q = j / cols;
    let r = j % cols;
    assert(0 <= q < rows) by (nonlinear_arith)
        requires
            j == cols * q + r,
            0 <= r < cols,
            0 <= j < cols * rows,
            rows >= 1,
    ;
}

/// Each whole-numbered point on the grid of a box is handed out: the point
/// of column `column` and row `row` is one of the box's points.
pub proof fn lemma_grid_point_is_pixel(grid: AABB, column: int, row: int)
    requires
        !grid.is_empty_spec(),
        grid.first_column() <= column <= grid.last_column(),
        grid.first_row() <= row <= grid.last_row(),
    ensures
        exists|j: int|
            0 <= j < grid.pixel_count() && #[trigger] grid.pixel(j) == AABB::grid_point(
                column,
                row,
            ),
{
    let cols = grid.columns();
    let rows = grid.rows();
    let c = column - grid.first_column();
    let r = row - grid.first_row();
    let j = r * cols + c;
    lemma_cursor_position(cols, rows, c, r);
    lemma_fundamental_div_mod_converse(j, cols, r, c);
    assert(grid.pixel(j) == AABB::grid_point(column, row));
}

/// A whole-numbered point that lies in a box lies on its grid.
pub proof fn lemma_contained_point_on_grid(grid: AABB, column: int, row: int)
    requires
        grid.min_x <= column * ONE <= grid.max_x,
        grid.min_y <= row * ONE <= grid.max_y,
    ensures
        !grid.is_empty_spec(),
        grid.first_column() <= column <= grid.last_column(),
        grid.first_row() <= row <= grid.last_row(),
{
    lemma_floor_monotonic(grid.min_x as int, column * ONE);
    lemma_floor_monotonic(column * ONE, grid.max_x as int);
    lemma_floor_monotonic(grid.min_y as int, row * ONE);
    lemma_floor_monotonic(row * ONE, grid.max_y as int);
    vstd::arithmetic::div_mod::lemma_div_multiples_vanish(column, ONE as int);
    vstd::arithmetic::div_mod::lemma_div_multiples_vanish(row, ONE as int);
    assert(column * ONE == ONE * column && row * ONE == ONE * row) by (nonlinear_arith);
}

} // verus!
