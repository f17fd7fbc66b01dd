//! Points and vectors of the plane.

use vstd::prelude::*;
use crate::scalar::{
    clamp64, lemma_product_bound, minus, over, plus, ratio, rescaled_sum, saturate, scaled, times,
    ONE,
};

verus! {

/// A point of the plane, or the vector that leads to it from the origin.
#[derive(Clone, Copy, Debug, PartialEq, Eq, Structural)]
pub struct Point {
    pub x: i64,
    pub y: i64,
}

/// `a.x * b.y - b.x * a.y`: twice the signed area of the triangle that `a`
/// and `b` span with the origin. It is zero where the two are parallel.
pub open spec fn cross_of(a: Point, b: Point) -> int {
    a.x * b.y - b.x * a.y
}

/// `a.x * b.x + a.y * b.y`.
pub open spec fn dot_of(a: Point, b: Point) -> int {
    a.x * b.x + a.y * b.y
}

impl Point {
    /// The point `(x, y)`.
    pub fn new(x: i64, y: i64) -> (p: Point)
        ensures
            p.x == x,
            p.y == y,
    {
        Point { x, y }
    }

    /// The cross product as a fixed-point number.
    pub fn cross(self, other: Point) -> (r: i64)
        ensures
            r == clamp64(cross_of(self, other) / (ONE as int)),
    {
        proof {
            let limit = 0x8000_0000_0000_0000int;
            lemma_product_bound(self.x as int, other.y as int, limit, limit);
            lemma_product_bound(other.x as int, self.y as int, limit, limit);
        }
        let p: i128 = (self.x as i128) * (other.y as i128);
        let q: i128 = (other.x as i128) * (self.y as i128);
        saturate(rescaled_sum(p, -q))
    }

    /// The dot product as a fixed-point number.
    pub fn dot(self, other: Point) -> (r: i64)
        ensures
            r == clamp64(dot_of(self, other) / (ONE as int)),
    {
        proof {
            let limit = 0x8000_0000_0000_0000int;
            lemma_product_bound(self.x as int, other.x as int, limit, limit);
            lemma_product_bound(self.y as int, other.y as int, limit, limit);
        }
        let p: i128 = (self.x as i128) * (other.x as i128);
        let q: i128 = (self.y as i128) * (other.y as i128);
        saturate(rescaled_sum(p, q))
    }
}

impl core::ops::Add for Point {
    type Output = Point;

    fn add(self, other: Point) -> (r: Point) {
        Point { x: plus(self.x, other.x), y: plus(self.y, other.y) }
    }
}

impl vstd::std_specs::ops::AddSpecImpl for Point {
    open spec fn obeys_add_spec() -> bool {
        true
    }

    open spec fn add_req(self, other: Point) -> bool {
        true
    }

    open spec fn add_spec(self, other: Point) -> Point {
        Point { x: clamp64(self.x + other.x) as i64, y: clamp64(self.y + other.y) as i64 }
    }
}

impl core::ops::Sub for Point {
    type Output = Point;

    fn sub(self, other: Point) -> (r: Point) {
        Point { x: minus(self.x, other.x), y: minus(self.y, other.y) }
    }
}

impl vstd::std_specs::ops::SubSpecImpl for Point {
    open spec fn obeys_sub_spec() -> bool {
        true
    }

    open spec fn sub_req(self, other: Point) -> bool {
        true
    }

    open spec fn sub_spec(self, other: Point) -> Point {
        Point { x: clamp64(self.x - other.x) as i64, y: clamp64(self.y - other.y) as i64 }
    }
}

impl core::ops::Mul<i64> for Point {
    type Output = Point;

    fn mul(self, factor: i64) -> (r: Point) {
        Point { x: times(self.x, factor), y: times(self.y, factor) }
    }
}

impl vstd::std_specs::ops::MulSpecImpl<i64> for Point {
    open spec fn obeys_mul_spec() -> bool {
        true
    }

    open spec fn mul_req(self, factor: i64) -> bool {
        true
    }

    open spec fn mul_spec(self, factor: i64) -> Point {
        Point {
            x: clamp64(scaled(self.x as int, factor as int)) as i64,
            y: clamp64(scaled(self.y as int, factor as int)) as i64,
        }
    }
}

impl core::ops::Div<i64> for Point {
    type Output = Point;

    fn div(self, divisor: i64) -> (r: Point) {
        Point { x: over(self.x, divisor), y: over(self.y, divisor) }
    }
}

impl vstd::std_specs::ops::DivSpecImpl<i64> for Point {
    open spec fn obeys_div_spec() -> bool {
        true
    }

    open spec fn div_req(self, divisor: i64) -> bool {
        divisor != 0
    }

    open spec fn div_spec(self, divisor: i64) -> Point {
        Point {
            x: clamp64(ratio(self.x as int, divisor as int)) as i64,
            y: clamp64(ratio(self.y as int, divisor as int)) as i64,
        }
    }
}

} // verus!
