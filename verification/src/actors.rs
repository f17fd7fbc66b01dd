//! What every moving thing has in common: a place, a speed and a heading,
//! on a field whose edges join.

use vstd::prelude::*;
use crate::scalar::{
    clamp64, is_root, isqrt, lemma_product_bound, lemma_root_unique, negated, root, saturate,
    scaled, times, ONE,
};
use crate::trig::{cosine, heading, heading_of, sin_cos, sine};

verus! {

/// The vector of length `r` along a direction that is given by its sine and
/// cosine: `(sin * r, -cos * r)`.
pub open spec fn projected(sin: int, cos: int, r: int) -> (int, int) {
    (clamp64(scaled(sin, r)), clamp64(scaled(clamp64(-cos), r)))
}

/// The vector of length `r` with the heading `theta`.
pub open spec fn cartesian(theta: int, r: int) -> (int, int) {
    projected(sine(theta), cosine(theta), r)
}

/// The length of the vector `(x, y)`.
pub open spec fn length(x: int, y: int) -> int {
    clamp64(root(x * x + y * y))
}

/// `a + b` on a circle of circumference `bound`: the one value in
/// `[0, bound)` that differs from the sum by a multiple of `bound`.
pub open spec fn wrapped(a: int, b: int, bound: int) -> int {
    (a + b) % bound
}

/// The time that has passed once each of the times `dts` has.
pub open spec fn elapsed(dts: Seq<int>) -> int
    decreases dts.len(),
{
    if dts.len() == 0 {
        0
    } else {
        elapsed(dts.drop_last()) + dts.last()
    }
}

/// The vector of length `r` along the direction with the sine `sin` and the
/// cosine `cos`.
pub fn project(sin: i64, cos: i64, r: i64) -> (d: (i64, i64))
    ensures
        (d.0 as int, d.1 as int) == projected(sin as int, cos as int, r as int),
{
    (times(sin, r), times(negated(cos), r))
}

/// From a heading and a length to a vector: `(sin(theta) * r, -cos(theta) * r)`.
pub fn to_cartesian(theta: i64, r: i64) -> (d: (i64, i64))
    ensures
        (d.0 as int, d.1 as int) == cartesian(theta as int, r as int),
{
    let (sin, cos) = sin_cos(theta);
    project(sin, cos, r)
}

/// From a vector to its heading and its length.
pub fn to_polar(x: i64, y: i64) -> (p: (i64, i64))
    ensures
        p.0 == heading(x as int, y as int),
        p.1 == length(x as int, y as int),
        p.1 >= 0,
{
    proof {
        lemma_product_bound(x as int, x as int, 0x8000_0000_0000_0000, 0x8000_0000_0000_0000);
        lemma_product_bound(y as int, y as int, 0x8000_0000_0000_0000, 0x8000_0000_0000_0000);
        lemma_square_is_positive(x as int);
        lemma_square_is_positive(y as int);
    }
    let xx: i128 = (x as i128) * (x as i128);
    let yy: i128 = (y as i128) * (y as i128);
    let r: u64 = isqrt(xx as u128 + yy as u128);
    (heading_of(x, y), saturate(r as i128))
}

/// A vector that points straight up has the heading zero, and comes back
/// from its heading and length as it was.
pub proof fn lemma_straight_up_round_trip(r: int)
    requires
        0 <= r <= i64::MAX,
    ensures
        cartesian(0, r) == (0int, -r),
        heading(0, -r) == 0,
        length(0, -r) == r,
        cartesian(heading(0, -r), length(0, -r)) == (0int, -r),
{
    assert(scaled(0, r) == 0) by (nonlinear_arith);
    assert(scaled(-ONE as int, r) == -r) by (nonlinear_arith);
    assert(is_root((0 * 0 + (-r) * (-r)) as int, r)) by (nonlinear_arith)
        requires
            0 <= r,
    ;
    lemma_root_unique(0 * 0 + (-r) * (-r), r, root(0 * 0 + (-r) * (-r)));
}

proof fn lemma_square_is_positive(x: int)
    by (nonlinear_arith)
    ensures
        x * x >= 0,
{
}

/// Adds `b` to `a` on a circle of circumference `bound`.
pub fn wrapped_add(a: i64, b: i64, bound: i64) -> (r: i64)
    requires
        bound > 0,
    ensures
        r == wrapped(a as int, b as int, bound as int),
        0 <= r < bound,
        b == 0 ==> r == a as int % bound as int,
{
    let sum: i128 = a as i128 + b as i128;
    match sum.checked_rem_euclid(bound as i128) {
        Some(r) => r as i64,
        None => 0,
    }
}

/// Where a thing is, how fast it moves and where it is heading.
///
/// The heading is never brought back into one turn: it is only ever read
/// through its sine and cosine.
#[derive(Clone, Copy, Debug, PartialEq, Eq, Structural)]
pub struct GameObject {
    pub x: i64,
    pub y: i64,
    pub v: i64,
    pub theta: i64,
}

impl GameObject {
    /// The object after the step `(dx, dy)` on a field of `x_max` by `y_max`.
    pub open spec fn stepped(self, dx: int, dy: int, x_max: int, y_max: int) -> GameObject {
        GameObject {
            x: wrapped(self.x as int, dx, x_max) as i64,
            y: wrapped(self.y as int, dy, y_max) as i64,
            v: self.v,
            theta: self.theta,
        }
    }

    /// The way that the object makes in the time `dt`.
    pub open spec fn reach(self, dt: int) -> int {
        clamp64(scaled(self.v as int, dt))
    }

    /// The object after the time `dt` on a field of `x_max` by `y_max`.
    pub open spec fn moved(self, dt: int, x_max: int, y_max: int) -> GameObject {
        let step = cartesian(self.theta as int, self.reach(dt));
        self.stepped(step.0, step.1, x_max, y_max)
    }

    /// An object at `(x, y)` with the speed `v` and the heading `theta`.
    pub fn new(x: i64, y: i64, v: i64, theta: i64) -> (obj: GameObject)
        ensures
            obj == (GameObject { x, y, v, theta }),
    {
        GameObject { x, y, v, theta }
    }

    /// The object after the step `(dx, dy)`. It leaves the field on one
    /// side and comes back on the other.
    pub fn with_step(&self, dx: i64, dy: i64, x_max: i64, y_max: i64) -> (obj: GameObject)
        requires
            x_max > 0,
            y_max > 0,
        ensures
            obj == self.stepped(dx as int, dy as int, x_max as int, y_max as int),
            0 <= obj.x < x_max,
            0 <= obj.y < y_max,
    {
        GameObject::new(
            wrapped_add(self.x, dx, x_max),
            wrapped_add(self.y, dy, y_max),
            self.v,
            self.theta,
        )
    }

    /// The object after the time `dt`: it has moved by `v * dt` along its
    /// heading and kept its speed and heading.
    pub fn with_go(&self, dt: i64, x_max: i64, y_max: i64) -> (obj: GameObject)
        requires
            x_max > 0,
            y_max > 0,
        ensures
            obj == self.moved(dt as int, x_max as int, y_max as int),
            0 <= obj.x < x_max,
            0 <= obj.y < y_max,
    {
        let (dx, dy) = to_cartesian(self.theta, times(self.v, dt));
        self.with_step(dx, dy, x_max, y_max)
    }
}

} // verus!
