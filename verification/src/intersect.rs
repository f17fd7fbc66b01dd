//! Whether two segments meet, and whether a point lies inside a polygon.
//!
//! A segment is four coordinates, `[x1, y1, x2, y2]`, from one end point to
//! the other. Write the first segment as `p + t r` and the second as
//! `q + u s`, with `t` and `u` in `[0, 1]`. All products are exact.

use vstd::prelude::*;
use crate::point::Point;
use crate::scalar::lemma_product_bound;
use crate::wide::{limb, Wide};

verus! {

/// A segment: `[x1, y1, x2, y2]`.
pub type Segment = [i64; 4];

/// The segment from `a` to `b`.
pub open spec fn segment(a: (int, int), b: (int, int)) -> Segment {
    [a.0 as i64, a.1 as i64, b.0 as i64, b.1 as i64]
}

/// Where the ray that tests a point begins: far to the left of any field.
pub const RAY_ORIGIN_X: i64 = -100000 * 0x1_0000_0000;

/// `a × b` for the vectors `(ax, ay)` and `(bx, by)`.
pub open spec fn cross(ax: int, ay: int, bx: int, by: int) -> int {
    ax * by - bx * ay
}

/// `a · b` for the vectors `(ax, ay)` and `(bx, by)`.
pub open spec fn dot(ax: int, ay: int, bx: int, by: int) -> int {
    ax * bx + ay * by
}

/// Whether the segments `l1` and `l2` meet. Where `l1` has a length, that is
/// whether they have a point in common (`lemma_meet_is_exact`).
///
/// - On one line (`r × s == 0` and `(q − p) × r == 0`): the ends of `l2` lie
///   at `t0 = (q − p) · r / (r · r)` and `t1 = t0 + s · r / (r · r)` along
///   `l1`. The segments overlap unless both lie below 0 or both above 1.
///   A first segment without length has no such positions, and counts as
///   meeting whatever it is held against.
/// - Parallel on different lines: no.
/// - Otherwise the lines cross at `t = (q − p) × s / (r × s)` and
///   `u = (q − p) × r / (r × s)`, and the segments meet where both are in
///   `[0, 1]`, the ends included.
pub open spec fn segments_meet(l1: Segment, l2: Segment) -> bool {
    let rx = l1[2] - l1[0];
    let ry = l1[3] - l1[1];
    let sx = l2[2] - l2[0];
    let sy = l2[3] - l2[1];
    let wx = l2[0] - l1[0];
    let wy = l2[1] - l1[1];
    let r_cross_s = cross(rx, ry, sx, sy);
    let w_cross_r = cross(wx, wy, rx, ry);
    let w_cross_s = cross(wx, wy, sx, sy);
    let r_dot_r = dot(rx, ry, rx, ry);
    let t0 = dot(wx, wy, rx, ry);
    let t1 = t0 + dot(sx, sy, rx, ry);
    if r_cross_s == 0 && w_cross_r == 0 {
        r_dot_r == 0 || !((t0 < 0 && t1 < 0) || (t0 > r_dot_r && t1 > r_dot_r))
    } else if r_cross_s == 0 {
        false
    } else if r_cross_s > 0 {
        0 <= w_cross_s <= r_cross_s && 0 <= w_cross_r <= r_cross_s
    } else {
        r_cross_s <= w_cross_s <= 0 && r_cross_s <= w_cross_r <= 0
    }
}

/// Whether the point at `t / d` along `l1` is the point at `u / d` along
/// `l2`, both between the ends of their segments.
pub open spec fn meet_at(l1: Segment, l2: Segment, t: int, u: int, d: int) -> bool {
    &&& d > 0
    &&& 0 <= t <= d
    &&& 0 <= u <= d
    &&& d * l1[0] + t * (l1[2] - l1[0]) == d * l2[0] + u * (l2[2] - l2[0])
    &&& d * l1[1] + t * (l1[3] - l1[1]) == d * l2[1] + u * (l2[3] - l2[1])
}

/// Whether the segments have a point in common.
pub open spec fn share_a_point(l1: Segment, l2: Segment) -> bool {
    exists|t: int, u: int, d: int| meet_at(l1, l2, t, u, d)
}

/// Whether the ends of the segment differ.
pub open spec fn has_length(l: Segment) -> bool {
    l[0] != l[2] || l[1] != l[3]
}

/// What a common point says of the vectors: with `w = q - p` and
/// `d w == t r - u s`, the cross products of `w` are shares of `r × s`, and
/// the point lies between the places of the ends of the second segment
/// along the first.
proof fn lemma_common_point(
    d: int,
    t: int,
    u: int,
    rx: int,
    ry: int,
    sx: int,
    sy: int,
    wx: int,
    wy: int,
)
    requires
        d * wx == t * rx - u * sx,
        d * wy == t * ry - u * sy,
    ensures
        d * cross(wx, wy, rx, ry) == u * cross(rx, ry, sx, sy),
        d * cross(wx, wy, sx, sy) == t * cross(rx, ry, sx, sy),
        (d - u) * dot(wx, wy, rx, ry) + u * (dot(wx, wy, rx, ry) + dot(sx, sy, rx, ry)) == t * dot(
            rx,
            ry,
            rx,
            ry,
        ),
{
    let a = d * wx;
    let b = d * wy;
    assert(d * (wx * ry - rx * wy) == a * ry - rx * b) by (nonlinear_arith)
        requires
            a == d * wx,
            b == d * wy,
    ;
    assert(d * (wx * sy - sx * wy) == a * sy - sx * b) by (nonlinear_arith)
        requires
            a == d * wx,
            b == d * wy,
    ;
    assert(d * (wx * rx + wy * ry) == a * rx + b * ry) by (nonlinear_arith)
        requires
            a == d * wx,
            b == d * wy,
    ;
    assert(a * ry == t * rx * ry - u * sx * ry) by (nonlinear_arith)
        requires
            a == t * rx - u * sx,
    ;
    assert(a * sy == t * rx * sy - u * sx * sy) by (nonlinear_arith)
        requires
            a == t * rx - u * sx,
    ;
    assert(a * rx == t * rx * rx - u * sx * rx) by (nonlinear_arith)
        requires
            a == t * rx - u * sx,
    ;
    assert(rx * b == rx * t * ry - rx * u * sy) by (nonlinear_arith)
        requires
            b == t * ry - u * sy,
    ;
    assert(sx * b == sx * t * ry - sx * u * sy) by (nonlinear_arith)
        requires
            b == t * ry - u * sy,
    ;
    assert(b * ry == t * ry * ry - u * sy * ry) by (nonlinear_arith)
        requires
            b == t * ry - u * sy,
    ;
    assert(t * rx * ry == rx * t * ry) by (nonlinear_arith);
    assert(u * sx * sy == sx * u * sy) by (nonlinear_arith);
    assert(u * (rx * sy - sx * ry) == rx * u * sy - u * sx * ry) by (nonlinear_arith);
    assert(t * (rx * sy - sx * ry) == t * rx * sy - sx * t * ry) by (nonlinear_arith);
    assert(u * (sx * rx + sy * ry) == u * sx * rx + u * sy * ry) by (nonlinear_arith);
    assert(t * (rx * rx + ry * ry) == t * rx * rx + t * ry * ry) by (nonlinear_arith);
    let t0 = wx * rx + wy * ry;
    let sr = sx * rx + sy * ry;
    assert((d - u) * t0 + u * (t0 + sr) == d * t0 + u * sr) by (nonlinear_arith);
}

proof fn lemma_part_of(d: int, t: int, a: int, b: int)
    by (nonlinear_arith)
    requires
        d > 0,
        0 <= t <= d,
        d * a == t * b,
    ensures
        b > 0 ==> 0 <= a <= b,
        b < 0 ==> b <= a <= 0,
        b == 0 ==> a == 0,
{
}

proof fn lemma_between_ends(d: int, t: int, u: int, t0: int, t1: int, rr: int)
    by (nonlinear_arith)
    requires
        d > 0,
        0 <= t <= d,
        0 <= u <= d,
        rr >= 0,
        (d - u) * t0 + u * t1 == t * rr,
    ensures
        !(t0 < 0 && t1 < 0),
        !(t0 > rr && t1 > rr),
{
}

/// `(r × s) w == (w × s) r - (w × r) s`, for any three vectors.
proof fn lemma_crossing(rx: int, ry: int, sx: int, sy: int, wx: int, wy: int)
    ensures
        cross(rx, ry, sx, sy) * wx == cross(wx, wy, sx, sy) * rx - cross(wx, wy, rx, ry) * sx,
        cross(rx, ry, sx, sy) * wy == cross(wx, wy, sx, sy) * ry - cross(wx, wy, rx, ry) * sy,
{
    assert((rx * sy - sx * ry) * wx == rx * sy * wx - sx * ry * wx) by (nonlinear_arith);
    assert((wx * sy - sx * wy) * rx == wx * sy * rx - sx * wy * rx) by (nonlinear_arith);
    assert((wx * ry - rx * wy) * sx == wx * ry * sx - rx * wy * sx) by (nonlinear_arith);
    assert(wx * sy * rx == rx * sy * wx) by (nonlinear_arith);
    assert(sx * wy * rx == rx * wy * sx) by (nonlinear_arith);
    assert(wx * ry * sx == sx * ry * wx) by (nonlinear_arith);
    assert((rx * sy - sx * ry) * wy == rx * sy * wy - sx * ry * wy) by (nonlinear_arith);
    assert((wx * sy - sx * wy) * ry == wx * sy * ry - sx * wy * ry) by (nonlinear_arith);
    assert((wx * ry - rx * wy) * sy == wx * ry * sy - rx * wy * sy) by (nonlinear_arith);
    assert(wx * sy * ry == wx * ry * sy) by (nonlinear_arith);
    assert(sx * wy * ry == sx * ry * wy) by (nonlinear_arith);
    assert(rx * wy * sy == rx * sy * wy) by (nonlinear_arith);
}

/// A vector along `r` is `r` times its share of the length of `r`.
proof fn lemma_along(rx: int, ry: int, wx: int, wy: int)
    by (nonlinear_arith)
    requires
        cross(wx, wy, rx, ry) == 0,
    ensures
        dot(rx, ry, rx, ry) * wx == dot(wx, wy, rx, ry) * rx,
        dot(rx, ry, rx, ry) * wy == dot(wx, wy, rx, ry) * ry,
{
}

/// Two vectors along a third, which has a length, lie along each other.
proof fn lemma_along_each_other(rx: int, ry: int, sx: int, sy: int, wx: int, wy: int)
    requires
        cross(wx, wy, rx, ry) == 0,
        cross(rx, ry, sx, sy) == 0,
        rx != 0 || ry != 0,
    ensures
        dot(sx, sy, rx, ry) * wx == dot(wx, wy, rx, ry) * sx,
        dot(sx, sy, rx, ry) * wy == dot(wx, wy, rx, ry) * sy,
{
    let rr = dot(rx, ry, rx, ry);
    let sr = dot(sx, sy, rx, ry);
    let wr = dot(wx, wy, rx, ry);
    lemma_along(rx, ry, wx, wy);
    assert(cross(sx, sy, rx, ry) == 0) by (nonlinear_arith)
        requires
            cross(rx, ry, sx, sy) == 0,
    ;
    lemma_along(rx, ry, sx, sy);
    assert(rr > 0) by (nonlinear_arith)
        requires
            rr == rx * rx + ry * ry,
            rx != 0 || ry != 0,
    ;
    assert(rr * (sr * wx) == rr * (wr * sx)) by (nonlinear_arith)
        requires
            rr * wx == wr * rx,
            rr * sx == sr * rx,
    ;
    assert(rr * (sr * wy) == rr * (wr * sy)) by (nonlinear_arith)
        requires
            rr * wy == wr * ry,
            rr * sy == sr * ry,
    ;
    assert(sr * wx == wr * sx) by (nonlinear_arith)
        requires
            rr * (sr * wx) == rr * (wr * sx),
            rr > 0,
    ;
    assert(sr * wy == wr * sy) by (nonlinear_arith)
        requires
            rr * (sr * wy) == rr * (wr * sy),
            rr > 0,
    ;
}

/// Segments that have a point in common meet.
pub proof fn lemma_meet_is_complete(l1: Segment, l2: Segment)
    requires
        share_a_point(l1, l2),
    ensures
        segments_meet(l1, l2),
{
    let (t, u, d) = choose|t: int, u: int, d: int| meet_at(l1, l2, t, u, d);
    let rx = l1[2] - l1[0];
    let ry = l1[3] - l1[1];
    let sx = l2[2] - l2[0];
    let sy = l2[3] - l2[1];
    let wx = l2[0] - l1[0];
    let wy = l2[1] - l1[1];
    assert(d * wx == t * rx - u * sx && d * wy == t * ry - u * sy) by (nonlinear_arith)
        requires
            d * l1[0] + t * rx == d * l2[0] + u * sx,
            d * l1[1] + t * ry == d * l2[1] + u * sy,
            wx == l2[0] - l1[0],
            wy == l2[1] - l1[1],
    ;
    lemma_common_point(d, t, u, rx, ry, sx, sy, wx, wy);
    lemma_part_of(d, u, cross(wx, wy, rx, ry), cross(rx, ry, sx, sy));
    lemma_part_of(d, t, cross(wx, wy, sx, sy), cross(rx, ry, sx, sy));
    let t0 = dot(wx, wy, rx, ry);
    let t1 = t0 + dot(sx, sy, rx, ry);
    assert(dot(rx, ry, rx, ry) >= 0) by (nonlinear_arith);
    lemma_between_ends(d, t, u, t0, t1, dot(rx, ry, rx, ry));
}

/// Segments that meet have a point in common, where the first has a length.
pub proof fn lemma_meet_is_sound(l1: Segment, l2: Segment)
    requires
        has_length(l1),
        segments_meet(l1, l2),
    ensures
        share_a_point(l1, l2),
{
    let rx = l1[2] - l1[0];
    let ry = l1[3] - l1[1];
    let sx = l2[2] - l2[0];
    let sy = l2[3] - l2[1];
    let wx = l2[0] - l1[0];
    let wy = l2[1] - l1[1];
    let r_cross_s = cross(rx, ry, sx, sy);
    let w_cross_r = cross(wx, wy, rx, ry);
    let w_cross_s = cross(wx, wy, sx, sy);
    let rr = dot(rx, ry, rx, ry);
    let t0 = dot(wx, wy, rx, ry);
    let sr = dot(sx, sy, rx, ry);
    let t1 = t0 + sr;
    assert(rr > 0) by (nonlinear_arith)
        requires
            rr == rx * rx + ry * ry,
            rx != 0 || ry != 0,
    ;
    if r_cross_s != 0 {
        lemma_crossing(rx, ry, sx, sy, wx, wy);
        if r_cross_s > 0 {
            lemma_witness(l1, l2, w_cross_s, w_cross_r, r_cross_s);
        } else {
            assert((-r_cross_s) * wx == (-w_cross_s) * rx - (-w_cross_r) * sx
                && (-r_cross_s) * wy == (-w_cross_s) * ry - (-w_cross_r) * sy)
                by (nonlinear_arith)
                requires
                    r_cross_s * wx == w_cross_s * rx - w_cross_r * sx,
                    r_cross_s * wy == w_cross_s * ry - w_cross_r * sy,
            ;
            lemma_witness(l1, l2, -w_cross_s, -w_cross_r, -r_cross_s);
        }
    } else {
        lemma_along(rx, ry, wx, wy);
        if 0 <= t0 <= rr {
            // The first end of `l2` lies on `l1`.
            assert(rr * wx == t0 * rx - 0 * sx && rr * wy == t0 * ry - 0 * sy);
            lemma_witness(l1, l2, t0, 0, rr);
        } else if 0 <= t1 <= rr {
            // The second end of `l2` lies on `l1`.
            assert(cross(wx + sx, wy + sy, rx, ry) == 0) by (nonlinear_arith)
                requires
                    cross(wx, wy, rx, ry) == 0,
                    cross(rx, ry, sx, sy) == 0,
            ;
            lemma_along(rx, ry, wx + sx, wy + sy);
            assert(dot(wx + sx, wy + sy, rx, ry) == t1) by (nonlinear_arith)
                requires
                    t1 == dot(wx, wy, rx, ry) + dot(sx, sy, rx, ry),
            ;
            assert(rr * wx == t1 * rx - rr * sx && rr * wy == t1 * ry - rr * sy)
                by (nonlinear_arith)
                requires
                    rr * (wx + sx) == t1 * rx,
                    rr * (wy + sy) == t1 * ry,
            ;
            lemma_witness(l1, l2, t1, rr, rr);
        } else {
            // The ends of `l2` lie on either side of `l1`: its first end is
            // a point of `l2`.
            lemma_along_each_other(rx, ry, sx, sy, wx, wy);
            if sr > 0 {
                assert(sr * wx == 0 * rx - (-t0) * sx && sr * wy == 0 * ry - (-t0) * sy)
                    by (nonlinear_arith)
                    requires
                        sr * wx == t0 * sx,
                        sr * wy == t0 * sy,
                ;
                lemma_witness(l1, l2, 0, -t0, sr);
            } else {
                assert((-sr) * wx == 0 * rx - t0 * sx && (-sr) * wy == 0 * ry - t0 * sy)
                    by (nonlinear_arith)
                    requires
                        sr * wx == t0 * sx,
                        sr * wy == t0 * sy,
                ;
                lemma_witness(l1, l2, 0, t0, -sr);
            }
        }
    }
}

/// A point that the segments have in common, given by its shares.
proof fn lemma_witness(l1: Segment, l2: Segment, t: int, u: int, d: int)
    requires
        d > 0,
        0 <= t <= d,
        0 <= u <= d,
        d * (l2[0] - l1[0]) == t * (l1[2] - l1[0]) - u * (l2[2] - l2[0]),
        d * (l2[1] - l1[1]) == t * (l1[3] - l1[1]) - u * (l2[3] - l2[1]),
    ensures
        share_a_point(l1, l2),
{
    assert(meet_at(l1, l2, t, u, d)) by (nonlinear_arith)
        requires
            d > 0,
            0 <= t <= d,
            0 <= u <= d,
            d * (l2[0] - l1[0]) == t * (l1[2] - l1[0]) - u * (l2[2] - l2[0]),
            d * (l2[1] - l1[1]) == t * (l1[3] - l1[1]) - u * (l2[3] - l2[1]),
    ;
}

/// Where the first segment has a length, the segments meet if and only if
/// they have a point in common.
pub proof fn lemma_meet_is_exact(l1: Segment, l2: Segment)
    requires
        has_length(l1),
    ensures
        segments_meet(l1, l2) <==> share_a_point(l1, l2),
{
    if segments_meet(l1, l2) {
        lemma_meet_is_sound(l1, l2);
    }
    if share_a_point(l1, l2) {
        lemma_meet_is_complete(l1, l2);
    }
}

/// Two segments that both have a length meet in whichever order they are
/// taken.
pub proof fn lemma_meet_is_symmetric(l1: Segment, l2: Segment)
    requires
        has_length(l1),
        has_length(l2),
    ensures
        segments_meet(l1, l2) == segments_meet(l2, l1),
{
    lemma_meet_is_exact(l1, l2);
    lemma_meet_is_exact(l2, l1);
    if share_a_point(l1, l2) {
        let (t, u, d) = choose|t: int, u: int, d: int| meet_at(l1, l2, t, u, d);
        assert(meet_at(l2, l1, u, t, d));
    }
    if share_a_point(l2, l1) {
        let (t, u, d) = choose|t: int, u: int, d: int| meet_at(l2, l1, t, u, d);
        assert(meet_at(l1, l2, u, t, d));
    }
}

/// The exact cross product of two vectors whose components are differences
/// of coordinates.
fn cross_wide(ax: i128, ay: i128, bx: i128, by: i128) -> (r: Wide)
    requires
        -limb() < ax < limb(),
        -limb() < ay < limb(),
        -limb() < bx < limb(),
        -limb() < by < limb(),
    ensures
        r@ == cross(ax as int, ay as int, bx as int, by as int),
        -2 * limb() * limb() <= r@ <= 2 * limb() * limb(),
{
    proof {
        lemma_product_bound(ax as int, by as int, limb(), limb());
        lemma_product_bound(bx as int, ay as int, limb(), limb());
    }
    Wide::product(ax, by).minus(Wide::product(bx, ay))
}

/// The exact dot product of two such vectors.
fn dot_wide(ax: i128, ay: i128, bx: i128, by: i128) -> (r: Wide)
    requires
        -limb() < ax < limb(),
        -limb() < ay < limb(),
        -limb() < bx < limb(),
        -limb() < by < limb(),
    ensures
        r@ == dot(ax as int, ay as int, bx as int, by as int),
        -2 * limb() * limb() <= r@ <= 2 * limb() * limb(),
{
    proof {
        lemma_product_bound(ax as int, bx as int, limb(), limb());
        lemma_product_bound(ay as int, by as int, limb(), limb());
    }
    Wide::product(ax, bx).plus(Wide::product(ay, by))
}

/// Whether `low <= v <= high`.
fn between(low: Wide, v: Wide, high: Wide) -> (r: bool)
    ensures
        r == (low@ <= v@ <= high@),
{
    low.at_most(v) && v.at_most(high)
}

/// Whether the segments `l1` and `l2` meet. Ends count: segments that only
/// touch do meet.
pub fn lines_intersect(l1: Segment, l2: Segment) -> (r: bool)
    ensures
        r == segments_meet(l1, l2),
{
    let rx: i128 = l1[2] as i128 - l1[0] as i128;
    let ry: i128 = l1[3] as i128 - l1[1] as i128;
    let sx: i128 = l2[2] as i128 - l2[0] as i128;
    let sy: i128 = l2[3] as i128 - l2[1] as i128;
    let wx: i128 = l2[0] as i128 - l1[0] as i128;
    let wy: i128 = l2[1] as i128 - l1[1] as i128;
    let zero = Wide::product(0, 0);
    let r_cross_s = cross_wide(rx, ry, sx, sy);
    let w_cross_r = cross_wide(wx, wy, rx, ry);
    if r_cross_s.is_zero() && w_cross_r.is_zero() {
        let r_dot_r = dot_wide(rx, ry, rx, ry);
        if r_dot_r.is_zero() {
            return true;
        }
        let t0 = dot_wide(wx, wy, rx, ry);
        let t1 = t0.plus(dot_wide(sx, sy, rx, ry));
        let below = t0.is_negative() && t1.is_negative();
        let above = !t0.at_most(r_dot_r) && !t1.at_most(r_dot_r);
        return !(below || above);
    }
    if r_cross_s.is_zero() {
        return false;
    }
    let w_cross_s = cross_wide(wx, wy, sx, sy);
    if r_cross_s.is_positive() {
        between(zero, w_cross_s, r_cross_s) && between(zero, w_cross_r, r_cross_s)
    } else {
        between(r_cross_s, w_cross_s, zero) && between(r_cross_s, w_cross_r, zero)
    }
}

/// The segment from far on the left to `point`, at its height.
pub open spec fn ray_of(point: Point) -> Segment {
    [RAY_ORIGIN_X, point.y, point.x, point.y]
}

/// How many of `edges` the segment `ray` meets.
pub open spec fn crossings(ray: Segment, edges: Seq<Segment>) -> nat
    decreases edges.len(),
{
    if edges.len() == 0 {
        0
    } else {
        crossings(ray, edges.drop_last()) + if segments_meet(ray, edges.last()) {
            1nat
        } else {
            0nat
        }
    }
}

/// The segment from far on the left to `point`, at its height.
pub fn ray(point: Point) -> (r: Segment)
    ensures
        r == ray_of(point),
{
    [RAY_ORIGIN_X, point.y, point.x, point.y]
}

/// Whether `point` lies inside the polygon whose boundary is `edges`, by the
/// even-odd rule: a ray from the point crosses the boundary an odd number of
/// times. A point on the boundary touches it, and may count as inside.
pub fn point_in(point: Point, edges: &Vec<Segment>) -> (inside: bool)
    ensures
        inside == (crossings(ray_of(point), edges@) % 2 == 1),
{
    let r = ray(point);
    let mut inside = false;
    let mut i: usize = 0;
    while i < edges.len()
        invariant
            i <= edges.len(),
            r == ray_of(point),
            inside == (crossings(r, edges@.take(i as int)) % 2 == 1),
        decreases edges.len() - i,
    {
        let hit = lines_intersect(r, edges[i]);
        proof {
            assert(edges@.take(i + 1).drop_last() == edges@.take(i as int));
        }
        inside = inside ^ hit;
        i += 1;
    }
    proof {
        assert(edges@.take(i as int) == edges@);
    }
    inside
}

} // verus!
