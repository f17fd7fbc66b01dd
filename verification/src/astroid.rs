//! Asteroids: rough circles that drift, and split when they are hit.

use vstd::prelude::*;
use rand::rngs::StdRng;
use crate::actors::{cartesian, to_cartesian, GameObject};
use crate::chance::random;
use crate::config::{Config, ASTROID_GAP, FIELD_SIZE};
use crate::intersect::{segment, Segment};
use crate::scalar::{clamp64, floor_div, plus, ONE};
use crate::trig::{HALF_PI, TAU};

verus! {

/// The size of an asteroid that has not been hit.
pub const ASTROID_LARGE: i64 = 3;

/// The largest size of an asteroid.
pub const MAX_SIZE: i64 = 0x800_0000;

/// The largest radius of a border.
pub const MAX_RADIUS: i64 = 0x4000_0000_0000_0000;

/// The least speed of an asteroid.
pub const MIN_SPEED: i64 = 40 * 0x1_0000_0000;

/// The speed that an asteroid stays under.
pub const TOP_SPEED: i64 = 60 * 0x1_0000_0000;

/// How far from the asteroid that was hit, along each axis, a piece of it
/// may begin.
pub const SCATTER: i64 = 5 * 0x1_0000_0000;

/// How far the heading of a piece is expected to differ from that of the
/// asteroid that was hit: the changes of heading are to be drawn from a
/// normal distribution about zero with this standard deviation.
pub const SPIN_DEVIATION: i64 = HALF_PI;

/// The radius of an asteroid of the given size.
pub open spec fn radius_of(size: int) -> int {
    size * 5 * ONE
}

/// How far a corner of a border may lie from the radius: a fifth of it.
pub open spec fn spread_of(radius: int) -> int {
    radius / 5
}

/// The corner with the index `k`, of `count`, of a border that begins at
/// the angle `theta_0`: the corners are spread evenly over the circle.
pub open spec fn vertex(theta_0: int, count: int, k: int, distance: int) -> (int, int) {
    cartesian(theta_0 + (TAU * (k + 1)) / count, distance)
}

/// The closed line through `points`: one segment from each point to the
/// next, and one from the last back to the first.
pub open spec fn ring(points: Seq<(int, int)>) -> Seq<Segment> {
    Seq::new(
        points.len(),
        |k: int| segment(points[k], points[(k + 1) % (points.len() as int)]),
    )
}

/// The border with the corners at the distances `distances` from the
/// middle, beginning at the angle `theta_0`.
pub open spec fn outline(theta_0: int, distances: Seq<int>) -> Seq<Segment> {
    ring(
        Seq::new(
            distances.len(),
            |k: int| vertex(theta_0, distances.len() as int, k, distances[k]),
        ),
    )
}

/// Whether `border` is a border for the radius `radius`: a closed line of 8
/// to 11 corners, spread evenly over the circle from some first angle, each
/// of them within the spread of the radius.
pub open spec fn is_outline(border: Seq<Segment>, radius: int) -> bool {
    exists|theta_0: int, distances: Seq<int>|
        {
            &&& 0 <= theta_0 < TAU
            &&& 8 <= distances.len() < 12
            &&& forall|k: int|
                0 <= k < distances.len() ==> radius - spread_of(radius) <= #[trigger] distances[k]
                    < radius + spread_of(radius)
            &&& border == #[trigger] outline(theta_0, distances)
        }
}

/// Whether a new asteroid may lie at `at` along an axis of the length `max`:
/// on the field, and below `max / 2 - gap` or at `max / 2 + gap` or above.
pub open spec fn clear_of_middle(at: int, max: int, gap: int) -> bool {
    0 <= at < max / 2 - gap || max / 2 + gap <= at < max
}

/// The pairs as pairs of mathematical integers.
pub open spec fn as_points(points: Seq<(i64, i64)>) -> Seq<(int, int)> {
    Seq::new(points.len(), |k: int| (points[k].0 as int, points[k].1 as int))
}

/// An asteroid. Its border is given about its own middle, and is never
/// changed: the asteroid moves as a whole.
#[derive(Debug)]
pub struct Astroid {
    obj: GameObject,
    size: i64,
    border: Vec<Segment>,
}

/// What an asteroid is, to a contract.
pub struct AstroidView {
    pub obj: GameObject,
    pub size: int,
    pub border: Seq<Segment>,
}

impl View for Astroid {
    type V = AstroidView;

    closed spec fn view(&self) -> AstroidView {
        AstroidView { obj: self.obj, size: self.size as int, border: self.border@ }
    }
}

/// The segment `edge`, moved by `(x, y)`.
pub open spec fn shifted(edge: Segment, x: int, y: int) -> Segment {
    [
        clamp64(edge[0] + x) as i64,
        clamp64(edge[1] + y) as i64,
        clamp64(edge[2] + x) as i64,
        clamp64(edge[3] + y) as i64,
    ]
}

impl AstroidView {
    /// An asteroid has a size from 1 to `MAX_SIZE`.
    pub open spec fn valid(self) -> bool {
        1 <= self.size <= MAX_SIZE
    }

    /// The border where the asteroid is.
    pub open spec fn edges(self) -> Seq<Segment> {
        Seq::new(
            self.border.len(),
            |k: int| shifted(self.border[k], self.obj.x as int, self.obj.y as int),
        )
    }

    /// Whether `piece` may come of this asteroid when it is hit, with the
    /// change `d_theta` of heading: one size smaller, near where the
    /// asteroid was, with a speed and a border of its own.
    pub open spec fn breaks_into(self, piece: AstroidView, d_theta: int) -> bool {
        &&& piece.size == self.size - 1
        &&& clamp64(self.obj.x - SCATTER) <= piece.obj.x <= clamp64(self.obj.x + SCATTER - 1)
        &&& clamp64(self.obj.y - SCATTER) <= piece.obj.y <= clamp64(self.obj.y + SCATTER - 1)
        &&& MIN_SPEED <= piece.obj.v < TOP_SPEED
        &&& piece.obj.theta == clamp64(self.obj.theta + d_theta)
        &&& is_outline(piece.border, radius_of(piece.size))
    }

    /// Whether `piece` may come of this asteroid when it is hit, with a
    /// change of heading that `spin` gives.
    pub open spec fn may_spin_off<N: Fn() -> i64>(self, piece: AstroidView, spin: &N) -> bool {
        exists|d_theta: i64|
            #![trigger spin.ensures((), d_theta)]
            spin.ensures((), d_theta) && self.breaks_into(piece, d_theta as int)
    }
}

/// A place along an axis of the length `max`, drawn at random: with equal
/// chances below the middle or above it, and on its side anywhere that is
/// on the field and `gap` or more from the middle.
fn random_start(max: i64, gap: i64, rng: &mut StdRng) -> (at: i64)
    requires
        0 <= gap < max / 2,
    ensures
        clear_of_middle(at as int, max as int, gap as int),
{
    let coin: i64 = random(0, 2, rng);
    let (low, high) = start_range(max, gap, coin);
    random(low, high, rng)
}

/// The stretch of an axis of the length `max` that a new asteroid is drawn
/// from, once the coin has fallen: from its beginning to `gap` below the
/// middle for a coin of zero, from `gap` above the middle to its end for any
/// other. The result is the first place of the stretch, and the first place
/// behind it.
pub open spec fn side_of(max: int, gap: int, coin: int) -> (int, int) {
    if coin == 0 {
        (0int, max / 2 - gap)
    } else {
        (max / 2 + gap, max)
    }
}

/// The stretch of an axis that the coin picks. It is never empty, and every
/// place in it is clear of the middle.
pub fn start_range(max: i64, gap: i64, coin: i64) -> (range: (i64, i64))
    requires
        0 <= gap < max / 2,
    ensures
        (range.0 as int, range.1 as int) == side_of(max as int, gap as int, coin as int),
        range.0 < range.1,
        forall|at: int|
            range.0 <= at < range.1 ==> #[trigger] clear_of_middle(at, max as int, gap as int),
{
    let middle: i64 = floor_div(max as i128, 2) as i64;
    if coin == 0 {
        (0, middle - gap)
    } else {
        (middle + gap, max)
    }
}

/// Joins `points` into a closed line.
pub fn close_loop(points: &Vec<(i64, i64)>) -> (lines: Vec<Segment>)
    ensures
        lines@ == ring(as_points(points@)),
{
    let n: usize = points.len();
    let mut lines: Vec<Segment> = Vec::new();
    let mut k: usize = 0;
    while k < n
        invariant
            n == points.len(),
            k <= n,
            lines.len() == k,
            forall|j: int| 0 <= j < k ==> lines@[j] == ring(as_points(points@))[j],
        decreases n - k,
    {
        let next: usize = if k + 1 == n { 0 } else { k + 1 };
        let a = points[k];
        let b = points[next];
        proof {
            assert((k + 1) % (n as int) == next) by (nonlinear_arith)
                requires
                    0 <= k < n,
                    next == if k + 1 == n { 0 } else { k + 1 },
            ;
            assert(as_points(points@)[k as int] == (a.0 as int, a.1 as int));
            assert(as_points(points@)[next as int] == (b.0 as int, b.1 as int));
        }
        lines.push([a.0, a.1, b.0, b.1]);
        k += 1;
    }
    proof {
        assert(lines@ =~= ring(as_points(points@)));
    }
    lines
}

impl Clone for Astroid {
    /// A second asteroid like this one.
    fn clone(&self) -> (twin: Astroid)
        ensures
            twin@ == self@,
    {
        proof {
            use_type_invariant(self);
        }
        let mut border: Vec<Segment> = Vec::new();
        let mut k: usize = 0;
        while k < self.border.len()
            invariant
                k <= self.border.len(),
                border@ == self.border@.take(k as int),
            decreases self.border.len() - k,
        {
            border.push(self.border[k]);
            proof {
                assert(self.border@.take(k + 1) == self.border@.take(k as int).push(
                    self.border@[k as int],
                ));
            }
            k += 1;
        }
        proof {
            assert(self.border@.take(k as int) == self.border@);
        }
        Astroid { obj: self.obj, size: self.size, border }
    }
}

impl Astroid {
    /// Every asteroid is valid.
    #[verifier::type_invariant]
    pub open spec fn sound(&self) -> bool {
        self@.valid()
    }

    /// Where the asteroid is and how it moves.
    pub fn obj(&self) -> (obj: GameObject)
        ensures
            obj == self@.obj,
    {
        self.obj
    }

    /// The size of the asteroid.
    pub fn size(&self) -> (size: i64)
        ensures
            size == self@.size,
            1 <= size <= MAX_SIZE,
    {
        proof {
            use_type_invariant(self);
        }
        self.size
    }

    /// The border about the asteroid's middle.
    pub fn border(&self) -> (border: &Vec<Segment>)
        ensures
            border@ == self@.border,
    {
        &self.border
    }

    /// An asteroid that is put together from its parts.
    pub fn assemble(obj: GameObject, size: i64, border: Vec<Segment>) -> (a: Astroid)
        requires
            1 <= size <= MAX_SIZE,
        ensures
            a@ == (AstroidView { obj, size: size as int, border: border@ }),
    {
        Astroid { obj, size, border }
    }

    /// A large asteroid, as `new` makes it.
    pub fn large_new(config: &Config, rng: &mut StdRng) -> (a: Astroid)
        ensures
            a@.size == ASTROID_LARGE,
            clear_of_middle(a@.obj.x as int, FIELD_SIZE as int, ASTROID_GAP as int),
            clear_of_middle(a@.obj.y as int, FIELD_SIZE as int, ASTROID_GAP as int),
            MIN_SPEED <= a@.obj.v < TOP_SPEED,
            0 <= a@.obj.theta < TAU,
            is_outline(a@.border, radius_of(ASTROID_LARGE as int)),
    {
        Self::new(ASTROID_LARGE, config, rng)
    }

    /// An asteroid of the given size, drawn at random: somewhere on the
    /// field but clear of its middle, where the ship begins, with a speed
    /// from `MIN_SPEED` to `TOP_SPEED`, any heading, and a border of five
    /// times its size in radius.
    pub fn new(size: i64, config: &Config, rng: &mut StdRng) -> (a: Astroid)
        requires
            1 <= size <= MAX_SIZE,
        ensures
            a@.size == size,
            clear_of_middle(a@.obj.x as int, FIELD_SIZE as int, ASTROID_GAP as int),
            clear_of_middle(a@.obj.y as int, FIELD_SIZE as int, ASTROID_GAP as int),
            MIN_SPEED <= a@.obj.v < TOP_SPEED,
            0 <= a@.obj.theta < TAU,
            is_outline(a@.border, radius_of(size as int)),
    {
        let radius: i64 = size * 5 * ONE;
        let x: i64 = random_start(config.width(), config.astroid_gap_distance(), rng);
        let y: i64 = random_start(config.height(), config.astroid_gap_distance(), rng);
        let v: i64 = random(MIN_SPEED, TOP_SPEED, rng);
        let theta: i64 = random(0, TAU, rng);
        Astroid {
            obj: GameObject::new(x, y, v, theta),
            size,
            border: Self::create_border(rng, radius),
        }
    }

    /// A piece of this asteroid, whose heading differs by `d_theta` from
    /// that of the asteroid.
    pub fn exploded(&self, rng: &mut StdRng, d_theta: i64) -> (piece: Astroid)
        requires
            self@.size > 1,
        ensures
            self@.breaks_into(piece@, d_theta as int),
    {
        proof {
            use_type_invariant(self);
        }
        let new_size: i64 = self.size - 1;
        let radius: i64 = new_size * 5 * ONE;
        let theta: i64 = plus(self.obj.theta, d_theta);
        let x: i64 = plus(self.obj.x, random(-SCATTER, SCATTER, rng));
        let y: i64 = plus(self.obj.y, random(-SCATTER, SCATTER, rng));
        let v: i64 = random(MIN_SPEED, TOP_SPEED, rng);
        Astroid {
            obj: GameObject::new(x, y, v, theta),
            size: new_size,
            border: Self::create_border(rng, radius),
        }
    }

    /// What is left of the asteroid when it is hit: nothing of the smallest
    /// size, two pieces of any other. Each piece takes a change of heading
    /// of its own from `spin`.
    pub fn explode<N: Fn() -> i64>(&self, rng: &mut StdRng, spin: &N) -> (pieces: Vec<Astroid>)
        requires
            spin.requires(()),
        ensures
            self@.size <= 1 ==> pieces@.len() == 0,
            self@.size > 1 ==> pieces@.len() == 2,
            forall|i: int|
                0 <= i < pieces@.len() ==> self@.may_spin_off(#[trigger] pieces@[i]@, spin),
    {
        let mut pieces: Vec<Astroid> = Vec::new();
        if self.size > 1 {
            let first_turn: i64 = spin();
            let first = self.exploded(rng, first_turn);
            pieces.push(first);
            let second_turn: i64 = spin();
            let second = self.exploded(rng, second_turn);
            pieces.push(second);
            proof {
                assert(spin.ensures((), first_turn) && self@.breaks_into(
                    pieces@[0]@,
                    first_turn as int,
                ));
                assert(spin.ensures((), second_turn) && self@.breaks_into(
                    pieces@[1]@,
                    second_turn as int,
                ));
            }
        }
        pieces
    }

    /// Moves the asteroid for the time `dt`.
    pub fn go(&mut self, dt: i64, x_max: i64, y_max: i64)
        requires
            x_max > 0,
            y_max > 0,
        ensures
            final(self)@ == (AstroidView {
                obj: old(self)@.obj.moved(dt as int, x_max as int, y_max as int),
                ..old(self)@
            }),
    {
        proof {
            use_type_invariant(&*self);
        }
        self.obj = self.obj.with_go(dt, x_max, y_max);
    }

    /// The asteroid as it is after the time `dt`.
    pub fn after_go(&self, dt: i64, x_max: i64, y_max: i64) -> (moved: Astroid)
        requires
            x_max > 0,
            y_max > 0,
        ensures
            moved@ == (AstroidView {
                obj: self@.obj.moved(dt as int, x_max as int, y_max as int),
                ..self@
            }),
    {
        let mut moved = self.clone();
        moved.go(dt, x_max, y_max);
        moved
    }

    /// The border where the asteroid is.
    pub fn edges(&self) -> (edges: Vec<Segment>)
        ensures
            edges@ == self@.edges(),
    {
        let mut edges: Vec<Segment> = Vec::new();
        let mut k: usize = 0;
        while k < self.border.len()
            invariant
                k <= self.border.len(),
                edges.len() == k,
                forall|j: int| 0 <= j < k ==> edges@[j] == self@.edges()[j],
            decreases self.border.len() - k,
        {
            let edge: Segment = self.border[k];
            edges.push(
                [
                    plus(edge[0], self.obj.x),
                    plus(edge[1], self.obj.y),
                    plus(edge[2], self.obj.x),
                    plus(edge[3], self.obj.y),
                ],
            );
            k += 1;
        }
        proof {
            assert(edges@ =~= self@.edges());
        }
        edges
    }

    /// A border for the radius `radius`, drawn at random.
    pub fn create_border(rng: &mut StdRng, radius: i64) -> (border: Vec<Segment>)
        requires
            5 <= radius <= MAX_RADIUS,
        ensures
            is_outline(border@, radius as int),
    {
        let spread: i64 = radius / 5;
        let point_count: i64 = random(8, 12, rng);
        let theta_0: i64 = random(0, TAU, rng);
        let mut points: Vec<(i64, i64)> = Vec::new();
        let ghost mut distances: Seq<int> = Seq::empty();
        let mut i: i64 = 1;
        while i <= point_count
            invariant
                1 <= i <= point_count + 1,
                8 <= point_count < 12,
                0 <= theta_0 < TAU,
                5 <= radius <= MAX_RADIUS,
                spread == spread_of(radius as int),
                points.len() == i - 1,
                distances.len() == i - 1,
                forall|k: int|
                    0 <= k < i - 1 ==> radius - spread <= #[trigger] distances[k] < radius
                        + spread,
                forall|k: int|
                    0 <= k < i - 1 ==> (#[trigger] as_points(points@)[k]) == vertex(
                        theta_0 as int,
                        point_count as int,
                        k,
                        distances[k],
                    ),
            decreases point_count + 1 - i,
        {
            let theta: i64 = theta_0 + (TAU * i) / point_count;
            let distance: i64 = radius + random(-spread, spread, rng);
            let point = to_cartesian(theta, distance);
            let ghost before = points@;
            let ghost drawn = distances;
            points.push(point);
            proof {
                distances = distances.push(distance as int);
                assert forall|k: int| 0 <= k < i implies (#[trigger] as_points(points@)[k])
                    == vertex(theta_0 as int, point_count as int, k, distances[k]) by {
                    if k < i - 1 {
                        assert(as_points(points@)[k] == as_points(before)[k]);
                        assert(distances[k] == drawn[k]);
                    }
                }
            }
            i += 1;
        }
        let border = close_loop(&points);
        proof {
            let corners = Seq::new(
                distances.len(),
                |k: int| vertex(theta_0 as int, distances.len() as int, k, distances[k]),
            );
            assert(as_points(points@) =~= corners);
            assert(border@ == outline(theta_0 as int, distances));
        }
        border
    }
}

} // verus!
