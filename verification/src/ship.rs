//! The ship: it turns, thrusts and fires.

use vstd::prelude::*;
use crate::actors::{cartesian, elapsed, length, to_cartesian, to_polar, GameObject};
use crate::bullet::Bullet;
use crate::config::{Config, FIELD_SIZE};
use crate::intersect::{lines_intersect, segment, segments_meet, Segment};
use crate::scalar::{clamp64, floor_div, lemma_product_bound, plus, rescaled_sum, saturate, ONE};
use crate::trig::{cosine, heading, sin_cos, sine};

verus! {

/// What a pressed thrust key sets its axis to.
pub const THRUST: i64 = 0x1_0000_0000;

/// What a pressed turn key sets its axis to: a twentieth.
pub const TURN: i64 = 214748365;

/// The factor between an axis and the change per second that it stands for.
pub const RATE: i64 = 100;

/// How long the ship waits between two shots.
pub const COOLDOWN: i64 = 0x8000_0000;

/// The speed that the ship does not exceed.
pub const MAX_SPEED: i64 = 200 * 0x1_0000_0000;

/// The keys that the game knows.
#[derive(Clone, Copy, Debug, PartialEq, Eq, Structural)]
pub enum Key {
    Up,
    Down,
    Left,
    Right,
    Space,
    R,
    Q,
    Other,
}

/// The ship.
///
/// `sprite_theta` is where the ship points, the heading of its object where
/// it moves: the two are independent, the ship drifts.
#[derive(Clone, Copy, Debug)]
pub struct Spaceship {
    obj: GameObject,
    sprite_theta: i64,
    accel: i64,
    reverse: i64,
    left: i64,
    right: i64,
    firing: bool,
    cooldown: i64,
}

/// What a ship is, to a contract.
pub struct ShipView {
    pub obj: GameObject,
    pub sprite_theta: int,
    pub accel: int,
    pub reverse: int,
    pub left: int,
    pub right: int,
    pub firing: bool,
    pub cooldown: int,
}

impl View for Spaceship {
    type V = ShipView;

    closed spec fn view(&self) -> ShipView {
        ShipView {
            obj: self.obj,
            sprite_theta: self.sprite_theta as int,
            accel: self.accel as int,
            reverse: self.reverse as int,
            left: self.left as int,
            right: self.right as int,
            firing: self.firing,
            cooldown: self.cooldown as int,
        }
    }
}

/// The point `(px, py)` turned about the origin by the angle with the sine
/// `sin` and the cosine `cos`: `(cos * px - sin * py, sin * px + cos * py)`.
pub open spec fn rotated(sin: int, cos: int, px: int, py: int) -> (int, int) {
    (
        clamp64((cos * px - sin * py) / (ONE as int)),
        clamp64((sin * px + cos * py) / (ONE as int)),
    )
}

/// A corner of the ship's hull: the point `(px, py)` of the hull at rest,
/// turned by `sprite_theta` and moved to where the ship is.
pub open spec fn corner(ship: ShipView, px: int, py: int) -> (int, int) {
    let turned = rotated(sine(ship.sprite_theta), cosine(ship.sprite_theta), px, py);
    (clamp64(turned.0 + ship.obj.x), clamp64(turned.1 + ship.obj.y))
}

/// The corners of the hull of a ship at rest that points up, about the
/// middle of the ship: a triangle.
pub open spec fn hull() -> Seq<(int, int)> {
    seq![(5 * ONE, 7 * ONE), (-5 * ONE, 7 * ONE), (0int, -13 * ONE)]
}

/// The nearest speed to `v` that the ship may have.
pub open spec fn limited(v: int) -> int {
    if v > MAX_SPEED {
        MAX_SPEED as int
    } else if v < -MAX_SPEED {
        -MAX_SPEED as int
    } else {
        v
    }
}

/// The change that an axis value of `axis` makes in the time `dt`:
/// `axis * dt * 100`.
pub open spec fn axis_change(axis: int, dt: int) -> int {
    (axis * dt * RATE) / (ONE as int)
}

impl ShipView {
    /// Each axis is at rest or at its key's value, the ship never waits a
    /// negative time, and both numbers fit in 64 bits.
    pub open spec fn valid(self) -> bool {
        &&& (self.accel == 0 || self.accel == THRUST)
        &&& (self.reverse == 0 || self.reverse == THRUST)
        &&& (self.left == 0 || self.left == TURN)
        &&& (self.right == 0 || self.right == TURN)
        &&& 0 <= self.cooldown <= i64::MAX
        &&& i64::MIN <= self.sprite_theta <= i64::MAX
    }

    /// The ship after the key went down.
    pub open spec fn pressed(self, key: Key) -> ShipView {
        match key {
            Key::Up => ShipView { accel: THRUST as int, ..self },
            Key::Down => ShipView { reverse: THRUST as int, ..self },
            Key::Left => ShipView { left: TURN as int, ..self },
            Key::Right => ShipView { right: TURN as int, ..self },
            Key::Space => ShipView { firing: true, ..self },
            _ => self,
        }
    }

    /// The ship after the key came up.
    pub open spec fn released(self, key: Key) -> ShipView {
        match key {
            Key::Up => ShipView { accel: 0, ..self },
            Key::Down => ShipView { reverse: 0, ..self },
            Key::Left => ShipView { left: 0, ..self },
            Key::Right => ShipView { right: 0, ..self },
            Key::Space => ShipView { firing: false, ..self },
            _ => self,
        }
    }

    /// The thrust of the time `dt`: forwards less backwards.
    pub open spec fn thrust(self, dt: int) -> int {
        clamp64(axis_change(self.accel - self.reverse, dt))
    }

    /// The velocity after the thrust of the time `dt`, as a vector: the old
    /// velocity and the thrust along `sprite_theta`, added.
    pub open spec fn pushed(self, dt: int) -> (int, int) {
        let old = cartesian(self.obj.theta as int, self.obj.v as int);
        let push = cartesian(self.sprite_theta, self.thrust(dt));
        (clamp64(old.0 + push.0), clamp64(old.1 + push.1))
    }

    /// The ship after it has thrust for the time `dt`: it moves along the
    /// new velocity, at no more than `MAX_SPEED`.
    pub open spec fn accelerated(self, dt: int) -> ShipView {
        let velocity = self.pushed(dt);
        let speed = length(velocity.0, velocity.1);
        ShipView {
            obj: GameObject {
                v: limited(speed) as i64,
                theta: heading(velocity.0, velocity.1) as i64,
                ..self.obj
            },
            ..self
        }
    }

    /// The ship after it has turned for the time `dt`.
    pub open spec fn turned(self, dt: int) -> ShipView {
        ShipView {
            sprite_theta: clamp64(self.sprite_theta + axis_change(self.right - self.left, dt)),
            ..self
        }
    }

    /// The ship after it has waited for the time `dt`.
    pub open spec fn cooled(self, dt: int) -> ShipView {
        ShipView {
            cooldown: if self.cooldown - dt < 0 { 0 } else { clamp64(self.cooldown - dt) },
            ..self
        }
    }

    /// Whether the ship may fire.
    pub open spec fn ready(self) -> bool {
        self.cooldown == 0
    }

    /// The ship after it was told to fire: a ship that is ready begins to
    /// wait, another one stays as it is.
    pub open spec fn fired(self) -> ShipView {
        if self.ready() {
            ShipView { cooldown: COOLDOWN as int, ..self }
        } else {
            self
        }
    }

    /// The ship after it has waited for each of the times `dts` in turn.
    pub open spec fn cooled_through(self, dts: Seq<int>) -> ShipView
        decreases dts.len(),
    {
        if dts.len() == 0 {
            self
        } else {
            self.cooled_through(dts.drop_last()).cooled(dts.last())
        }
    }

    /// The three sides of the hull, a triangle, in a circle: the last side
    /// ends where the first begins.
    pub open spec fn edges(self) -> Seq<Segment> {
        let a = corner(self, hull()[0].0, hull()[0].1);
        let b = corner(self, hull()[1].0, hull()[1].1);
        let c = corner(self, hull()[2].0, hull()[2].1);
        seq![segment(a, b), segment(b, c), segment(c, a)]
    }

    /// Whether a side of the hull meets one of `others`.
    pub open spec fn touches(self, others: Seq<Segment>) -> bool {
        exists|i: int, j: int|
            0 <= i < 3 && 0 <= j < others.len() && segments_meet(
                #[trigger] self.edges()[i],
                #[trigger] others[j],
            )
    }
}

/// Telling a ship to fire that is not ready changes nothing about it.
pub proof fn lemma_fire_needs_ready(ship: ShipView)
    requires
        !ship.ready(),
    ensures
        ship.fired() == ship,
{
}

/// While time runs forwards, a ship that has waited for `dts` after a shot
/// still has to wait for what is left of the cooldown.
pub proof fn lemma_cooldown_left(ship: ShipView, dts: Seq<int>)
    requires
        ship.valid(),
        ship.ready(),
        forall|i: int| 0 <= i < dts.len() ==> dts[i] >= 0,
    ensures
        elapsed(dts) >= 0,
        ship.fired().cooled_through(dts) == (ShipView {
            cooldown: if elapsed(dts) >= COOLDOWN {
                0
            } else {
                COOLDOWN - elapsed(dts)
            },
            ..ship
        }),
    decreases dts.len(),
{
    if dts.len() > 0 {
        lemma_cooldown_left(ship, dts.drop_last());
    }
}

/// After a shot the ship is ready again once half a second has passed, and
/// not before.
pub proof fn lemma_ready_after_cooldown(ship: ShipView, dts: Seq<int>)
    requires
        ship.valid(),
        ship.ready(),
        forall|i: int| 0 <= i < dts.len() ==> dts[i] >= 0,
    ensures
        ship.fired().cooled_through(dts).ready() <==> elapsed(dts) >= COOLDOWN,
{
    lemma_cooldown_left(ship, dts);
}

/// `axis * dt * 100` for an axis value of at most two in magnitude.
fn axis_step(axis: i64, dt: i64) -> (r: i128)
    requires
        -0x2_0000_0000 <= axis <= 0x2_0000_0000,
    ensures
        r == axis_change(axis as int, dt as int),
        -0x1_0000_0000_0000_0000_0000_0000 <= r <= 0x1_0000_0000_0000_0000_0000_0000,
{
    proof {
        lemma_product_bound(axis as int, dt as int, 0x2_0000_0000, 0x8000_0000_0000_0000);
    }
    let p: i128 = (axis as i128) * (dt as i128);
    floor_div(p * (RATE as i128), ONE as i128)
}

/// Turns the point `(px, py)` about the origin.
pub fn rotate(sin: i64, cos: i64, px: i64, py: i64) -> (r: (i64, i64))
    ensures
        (r.0 as int, r.1 as int) == rotated(sin as int, cos as int, px as int, py as int),
{
    proof {
        lemma_product_bound(cos as int, px as int, 0x8000_0000_0000_0000, 0x8000_0000_0000_0000);
        lemma_product_bound(sin as int, py as int, 0x8000_0000_0000_0000, 0x8000_0000_0000_0000);
        lemma_product_bound(sin as int, px as int, 0x8000_0000_0000_0000, 0x8000_0000_0000_0000);
        lemma_product_bound(cos as int, py as int, 0x8000_0000_0000_0000, 0x8000_0000_0000_0000);
    }
    let cx: i128 = (cos as i128) * (px as i128);
    let sy: i128 = (sin as i128) * (py as i128);
    let sx: i128 = (sin as i128) * (px as i128);
    let cy: i128 = (cos as i128) * (py as i128);
    (saturate(rescaled_sum(cx, -sy)), saturate(rescaled_sum(sx, cy)))
}

impl Spaceship {
    /// Every ship is valid.
    #[verifier::type_invariant]
    pub open spec fn sound(&self) -> bool {
        self@.valid()
    }

    /// A ship at rest in the middle of the field, pointing up.
    pub fn new(config: &Config) -> (ship: Spaceship)
        ensures
            ship@ == (ShipView {
                obj: GameObject {
                    x: (FIELD_SIZE / 2) as i64,
                    y: (FIELD_SIZE / 2) as i64,
                    v: 0,
                    theta: 0,
                },
                sprite_theta: 0,
                accel: 0,
                reverse: 0,
                left: 0,
                right: 0,
                firing: false,
                cooldown: 0,
            }),
    {
        Spaceship {
            obj: GameObject::new(config.width() / 2, config.height() / 2, 0, 0),
            sprite_theta: 0,
            accel: 0,
            reverse: 0,
            left: 0,
            right: 0,
            firing: false,
            cooldown: 0,
        }
    }

    /// A key went down: its axis takes the key's value.
    pub fn handle_press(&mut self, key: Key)
        ensures
            final(self)@ == old(self)@.pressed(key),
    {
        proof {
            use_type_invariant(&*self);
        }
        match key {
            Key::Up => self.accel = THRUST,
            Key::Down => self.reverse = THRUST,
            Key::Left => self.left = TURN,
            Key::Right => self.right = TURN,
            Key::Space => self.firing = true,
            _ => (),
        }
    }

    /// A key came up: its axis comes to rest.
    pub fn handle_release(&mut self, key: Key)
        ensures
            final(self)@ == old(self)@.released(key),
    {
        proof {
            use_type_invariant(&*self);
        }
        match key {
            Key::Up => self.accel = 0,
            Key::Down => self.reverse = 0,
            Key::Left => self.left = 0,
            Key::Right => self.right = 0,
            Key::Space => self.firing = false,
            _ => (),
        }
    }

    /// The corners of the hull of a ship at rest that points up.
    pub fn hull() -> (points: [[i64; 2]; 3])
        ensures
            forall|k: int|
                0 <= k < 3 ==> ((#[trigger] points[k])[0] as int, points[k][1] as int) == hull()[k],
    {
        [[5 * ONE, 7 * ONE], [-5 * ONE, 7 * ONE], [0, -13 * ONE]]
    }

    /// Where the ship is and how it moves.
    pub fn obj(&self) -> (obj: GameObject)
        ensures
            obj == self@.obj,
    {
        self.obj
    }

    /// Where the ship points.
    pub fn sprite_theta(&self) -> (theta: i64)
        ensures
            theta == self@.sprite_theta,
    {
        self.sprite_theta
    }

    /// Moves the ship for the time `dt`.
    pub fn go(&mut self, dt: i64, x_max: i64, y_max: i64)
        requires
            x_max > 0,
            y_max > 0,
        ensures
            final(self)@ == (ShipView {
                obj: old(self)@.obj.moved(dt as int, x_max as int, y_max as int),
                ..old(self)@
            }),
    {
        proof {
            use_type_invariant(&*self);
        }
        self.obj = self.obj.with_go(dt, x_max, y_max);
    }

    /// Thrusts for the time `dt`. The thrust acts along `sprite_theta` on
    /// the velocity that the ship has: it bends the way of the ship, and
    /// does not simply speed it up.
    pub fn accelerate(&mut self, dt: i64)
        ensures
            final(self)@ == old(self)@.accelerated(dt as int),
            0 <= final(self)@.obj.v <= MAX_SPEED,
    {
        proof {
            use_type_invariant(&*self);
        }
        let net_accel: i64 = saturate(axis_step(self.accel - self.reverse, dt));
        let (dx, dy) = to_cartesian(self.obj.theta, self.obj.v);
        let (ddx, ddy) = to_cartesian(self.sprite_theta, net_accel);
        let (new_theta, new_v) = to_polar(plus(dx, ddx), plus(dy, ddy));
        let v: i64 = if new_v > MAX_SPEED {
            MAX_SPEED
        } else if new_v < -MAX_SPEED {
            -MAX_SPEED
        } else {
            new_v
        };
        self.obj = GameObject::new(self.obj.x, self.obj.y, v, new_theta);
    }

    /// Turns for the time `dt`. The angle is never brought back into one
    /// turn.
    pub fn turn(&mut self, dt: i64)
        ensures
            final(self)@ == old(self)@.turned(dt as int),
    {
        proof {
            use_type_invariant(&*self);
        }
        let change: i128 = axis_step(self.right - self.left, dt);
        self.sprite_theta = saturate(self.sprite_theta as i128 + change);
    }

    /// Waits for the time `dt`.
    pub fn cooldown(&mut self, dt: i64)
        ensures
            final(self)@ == old(self)@.cooled(dt as int),
    {
        proof {
            use_type_invariant(&*self);
        }
        let left: i128 = self.cooldown as i128 - dt as i128;
        self.cooldown = if left < 0 { 0 } else { saturate(left) };
    }

    /// Whether the ship may fire: it does not wait.
    pub fn ready_to_fire(&self) -> (ready: bool)
        ensures
            ready == self@.ready(),
    {
        self.cooldown == 0
    }

    /// Whether the fire key is down.
    pub fn is_firing(&self) -> (firing: bool)
        ensures
            firing == self@.firing,
    {
        self.firing
    }

    /// Fires, if the ship is ready: a bullet leaves the ship the way the
    /// ship points, and the ship begins to wait. A ship that still waits
    /// does nothing.
    pub fn fire(&mut self, bullets: &mut Vec<Bullet>)
        ensures
            final(self)@ == old(self)@.fired(),
            old(self)@.ready() ==> final(bullets)@ == old(bullets)@.push(
                Bullet::fired(
                    old(self)@.obj.x,
                    old(self)@.obj.y,
                    old(self)@.sprite_theta as i64,
                ),
            ),
            !old(self)@.ready() ==> final(bullets)@ == old(bullets)@,
    {
        proof {
            use_type_invariant(&*self);
        }
        if self.cooldown == 0 {
            self.cooldown = COOLDOWN;
            bullets.push(Bullet::new(self.obj.x, self.obj.y, self.sprite_theta));
        }
    }

    fn corner_at(&self, sin: i64, cos: i64, px: i64, py: i64) -> (c: (i64, i64))
        requires
            sin == sine(self@.sprite_theta),
            cos == cosine(self@.sprite_theta),
        ensures
            (c.0 as int, c.1 as int) == corner(self@, px as int, py as int),
    {
        let (tx, ty) = rotate(sin, cos, px, py);
        (plus(tx, self.obj.x), plus(ty, self.obj.y))
    }

    /// The three sides of the hull.
    pub fn edges(&self) -> (sides: Vec<Segment>)
        ensures
            sides@ == self@.edges(),
    {
        let (sin, cos) = sin_cos(self.sprite_theta);
        let points = Self::hull();
        let a = self.corner_at(sin, cos, points[0][0], points[0][1]);
        let b = self.corner_at(sin, cos, points[1][0], points[1][1]);
        let c = self.corner_at(sin, cos, points[2][0], points[2][1]);
        let mut sides: Vec<Segment> = Vec::new();
        sides.push([a.0, a.1, b.0, b.1]);
        sides.push([b.0, b.1, c.0, c.1]);
        sides.push([c.0, c.1, a.0, a.1]);
        proof {
            assert(sides@ =~= self@.edges());
        }
        sides
    }

    /// Whether the ship touches one of `edges`.
    pub fn collides(&self, edges: &Vec<Segment>) -> (hit: bool)
        ensures
            hit == self@.touches(edges@),
    {
        let sides = self.edges();
        let mut i: usize = 0;
        while i < 3
            invariant
                i <= 3,
                sides@ == self@.edges(),
                forall|a: int, b: int|
                    0 <= a < i && 0 <= b < edges.len() ==> !segments_meet(
                        #[trigger] sides@[a],
                        #[trigger] edges@[b],
                    ),
            decreases 3 - i,
        {
            let mut j: usize = 0;
            while j < edges.len()
                invariant
                    i < 3,
                    j <= edges.len(),
                    sides@ == self@.edges(),
                    forall|a: int, b: int|
                        0 <= a < i && 0 <= b < edges.len() ==> !segments_meet(
                            #[trigger] sides@[a],
                            #[trigger] edges@[b],
                        ),
                    forall|b: int|
                        0 <= b < j ==> !segments_meet(sides@[i as int], #[trigger] edges@[b]),
                decreases edges.len() - j,
            {
                if lines_intersect(sides[i], edges[j]) {
                    return true;
                }
                j += 1;
            }
            i += 1;
        }
        false
    }
}

} // verus!
