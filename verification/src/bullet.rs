//! What the ship fires.

use vstd::prelude::*;
use crate::actors::{elapsed, GameObject};
use crate::astroid::Astroid;
use crate::intersect::{crossings, point_in, ray_of};
use crate::point::Point;
use crate::scalar::{clamp64, plus, scaled, times, ONE};

verus! {

/// How fast a bullet flies.
pub const BULLET_SPEED: i64 = 100 * 0x1_0000_0000;

/// How far a bullet flies.
pub const BULLET_RANGE: i64 = 100 * 0x1_0000_0000;

/// A bullet, and the way it has made.
#[derive(Clone, Copy, Debug, PartialEq, Eq, Structural)]
pub struct Bullet {
    pub obj: GameObject,
    pub distance: i64,
}

impl Bullet {
    /// The bullet that leaves the place `(x, y)` with the heading `theta`.
    pub open spec fn fired(x: i64, y: i64, theta: i64) -> Bullet {
        Bullet { obj: GameObject { x, y, v: BULLET_SPEED, theta }, distance: 0 }
    }

    /// The bullet after the time `dt` on a field of `x_max` by `y_max`.
    pub open spec fn moved(self, dt: int, x_max: int, y_max: int) -> Bullet {
        Bullet {
            obj: self.obj.moved(dt, x_max, y_max),
            distance: clamp64(self.distance + self.obj.reach(dt)) as i64,
        }
    }

    /// The bullet after each of the times `dts` in turn.
    pub open spec fn moved_through(self, dts: Seq<int>, x_max: int, y_max: int) -> Bullet
        decreases dts.len(),
    {
        if dts.len() == 0 {
            self
        } else {
            self.moved_through(dts.drop_last(), x_max, y_max).moved(dts.last(), x_max, y_max)
        }
    }

    /// Whether the bullet has not yet made its full way.
    pub open spec fn alive(self) -> bool {
        self.distance < BULLET_RANGE
    }

    /// The bullet that leaves the place `(x, y)` with the heading `theta`.
    pub fn new(x: i64, y: i64, theta: i64) -> (bullet: Bullet)
        ensures
            bullet == Bullet::fired(x, y, theta),
    {
        Bullet { obj: GameObject::new(x, y, BULLET_SPEED, theta), distance: 0 }
    }

    /// Moves the bullet for the time `dt`, and counts the way it makes.
    pub fn go(&mut self, dt: i64, x_max: i64, y_max: i64)
        requires
            x_max > 0,
            y_max > 0,
        ensures
            *final(self) == old(self).moved(dt as int, x_max as int, y_max as int),
    {
        self.obj = self.obj.with_go(dt, x_max, y_max);
        self.distance = plus(self.distance, times(self.obj.v, dt));
    }

    /// Whether the bullet has not yet made its full way.
    pub fn is_alive(&self) -> (alive: bool)
        ensures
            alive == self.alive(),
    {
        self.distance < BULLET_RANGE
    }

    /// Whether the bullet is inside the asteroid.
    pub fn collides(&self, astroid: &Astroid) -> (hit: bool)
        ensures
            hit == (crossings(
                ray_of(Point { x: self.obj.x, y: self.obj.y }),
                astroid@.edges(),
            ) % 2 == 1),
    {
        point_in(self.coords(), &astroid.edges())
    }

    /// Where the bullet is.
    pub fn coords(&self) -> (p: Point)
        ensures
            p == (Point { x: self.obj.x, y: self.obj.y }),
    {
        Point::new(self.obj.x, self.obj.y)
    }
}

/// While time runs forwards, a bullet at full speed has made a hundred
/// times the way of the time it has flown, however the time was cut into
/// frames.
pub proof fn lemma_way_of_a_bullet(bullet: Bullet, dts: Seq<int>, x_max: int, y_max: int)
    requires
        bullet.obj.v == BULLET_SPEED,
        bullet.distance == 0,
        forall|i: int| 0 <= i < dts.len() ==> dts[i] >= 0,
    ensures
        elapsed(dts) >= 0,
        bullet.moved_through(dts, x_max, y_max).obj.v == BULLET_SPEED,
        bullet.moved_through(dts, x_max, y_max).distance == clamp64(100 * elapsed(dts)),
    decreases dts.len(),
{
    if dts.len() > 0 {
        lemma_way_of_a_bullet(bullet, dts.drop_last(), x_max, y_max);
        let dt = dts.last();
        assert(scaled(BULLET_SPEED as int, dt) == 100 * dt) by (nonlinear_arith);
    }
}

/// A bullet lives for one second of flight: no longer, and no shorter.
pub proof fn lemma_a_bullet_lives_a_second(bullet: Bullet, dts: Seq<int>, x_max: int, y_max: int)
    requires
        bullet.obj.v == BULLET_SPEED,
        bullet.distance == 0,
        forall|i: int| 0 <= i < dts.len() ==> dts[i] >= 0,
    ensures
        bullet.moved_through(dts, x_max, y_max).alive() <==> elapsed(dts) < ONE,
{
    lemma_way_of_a_bullet(bullet, dts, x_max, y_max);
}

} // verus!
