//! Points and rectangles on the tile grid.

use vstd::prelude::*;

verus! {

/// A position on the tile grid.
#[derive(Clone, Copy, Debug, PartialEq, Eq, Hash, Structural)]
pub struct Point {
    pub x: i32,
    pub y: i32,
}

impl Point {
    pub fn new(x: i32, y: i32) -> (p: Point)
        ensures
            p.x == x,
            p.y == y,
    {
        Point { x, y }
    }

    /// The origin.
    pub open spec fn zero_spec() -> Point {
        Point { x: 0, y: 0 }
    }

    pub fn zero() -> (p: Point)
        ensures
            p == Point::zero_spec(),
    {
        Point { x: 0, y: 0 }
    }

    /// This point moved by `delta`.
    pub open spec fn spec_offset(self, delta: Point) -> Point {
        Point { x: (self.x + delta.x) as i32, y: (self.y + delta.y) as i32 }
    }

    /// The point moved by `delta`, component by component.
    pub fn offset_by(self, delta: Point) -> (p: Point)
        requires
            i32::MIN <= self.x + delta.x <= i32::MAX,
            i32::MIN <= self.y + delta.y <= i32::MAX,
        ensures
            p == self.spec_offset(delta),
            p.x == self.x + delta.x,
            p.y == self.y + delta.y,
    {
        Point { x: self.x + delta.x, y: self.y + delta.y }
    }
}

/// Squared euclidean distance between two points.
pub open spec fn distance_squared(a: Point, b: Point) -> int {
    (a.x - b.x) * (a.x - b.x) + (a.y - b.y) * (a.y - b.y)
}

/// Squared euclidean distance between two points whose coordinates differ by at most
/// 2^15 on each axis, so that the result fits comfortably in an `i64`.
pub fn distance_squared_exec(a: Point, b: Point) -> (d: i64)
    requires
        -32768 <= a.x - b.x <= 32768,
        -32768 <= a.y - b.y <= 32768,
    ensures
        d == distance_squared(a, b),
        d >= 0,
{
    let dx: i64 = a.x as i64 - b.x as i64;
    let dy: i64 = a.y as i64 - b.y as i64;
    assert(0 <= dx * dx <= 32768 * 32768) by (nonlinear_arith)
        requires -32768 <= dx <= 32768;
    assert(0 <= dy * dy <= 32768 * 32768) by (nonlinear_arith)
        requires -32768 <= dy <= 32768;
    dx * dx + dy * dy
}

/// An axis-aligned rectangle; `x2` and `y2` are exclusive when iterating tiles.
#[derive(Clone, Copy, Debug, PartialEq, Eq, Structural)]
pub struct Rect {
    pub x1: i32,
    pub y1: i32,
    pub x2: i32,
    pub y2: i32,
}

impl Rect {
    /// A rectangle with top-left corner `(x, y)`, width `w` and height `h`.
    pub fn with_size(x: i32, y: i32, w: i32, h: i32) -> (r: Rect)
        requires
            i32::MIN <= x + w <= i32::MAX,
            i32::MIN <= y + h <= i32::MAX,
        ensures
            r.x1 == x,
            r.y1 == y,
            r.x2 == x + w,
            r.y2 == y + h,
    {
        Rect { x1: x, y1: y, x2: x + w, y2: y + h }
    }

    /// Whether the two rectangles overlap, their edges included.
    pub open spec fn spec_intersect(self, other: Rect) -> bool {
        self.x1 <= other.x2 && self.x2 >= other.x1 && self.y1 <= other.y2 && self.y2 >= other.y1
    }

    pub fn intersect(&self, other: &Rect) -> (b: bool)
        ensures
            b == self.spec_intersect(*other),
    {
        self.x1 <= other.x2 && self.x2 >= other.x1 && self.y1 <= other.y2 && self.y2 >= other.y1
    }

    /// Center of a rectangle with non-negative corner sums.
    pub open spec fn spec_center(self) -> Point {
        Point { x: ((self.x1 + self.x2) / 2) as i32, y: ((self.y1 + self.y2) / 2) as i32 }
    }

    pub fn center(&self) -> (p: Point)
        requires
            0 <= self.x1 + self.x2 <= i32::MAX,
            0 <= self.y1 + self.y2 <= i32::MAX,
        ensures
            p == self.spec_center(),
    {
        Point::new((self.x1 + self.x2) / 2, (self.y1 + self.y2) / 2)
    }

    /// Whether `p` is one of the tiles the rectangle covers (`x1 <= x < x2`, `y1 <= y < y2`).
    pub open spec fn covers(self, p: Point) -> bool {
        self.x1 <= p.x < self.x2 && self.y1 <= p.y < self.y2
    }
}

/// Intersection is symmetric: `a` meets `b` exactly when `b` meets `a`.
pub proof fn lemma_intersect_symmetric(a: Rect, b: Rect)
    ensures
        a.spec_intersect(b) == b.spec_intersect(a),
{
}

} // verus!
