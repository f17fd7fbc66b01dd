//! Angles, in radians, and the directions they stand for.
//!
//! A heading of zero points up, towards smaller `y`, and headings grow
//! clockwise. Sines, cosines and arc tangents come from the `cordic` crate,
//! which computes them on fixed-point numbers.

use vstd::prelude::*;
use crate::scalar::{clamp64, negated, saturate, ONE};

verus! {

/// Half a turn.
pub const PI: i64 = 13493037705;

/// A full turn.
pub const TAU: i64 = 26986075409;

/// A quarter of a turn.
pub const HALF_PI: i64 = 6746518852;

/// What `cordic::sin_cos` returns for the angle with the bits `angle`, as
/// the bits of the sine and of the cosine.
pub uninterp spec fn cordic_sin_cos(angle: int) -> (int, int);

/// What `cordic::atan2` returns for the numbers with the bits `y` and `x`,
/// as the bits of the angle.
pub uninterp spec fn cordic_atan2(y: int, x: int) -> int;

/// Calls `cordic::sin_cos` on a number with 32 fractional bits.
///
/// Not proved: that the call returns, without overflow, for an angle of at
/// most half a turn either way, and that its result depends on the angle
/// alone. Nothing is claimed of how close the result is to the sine and the
/// cosine.
#[verifier::external_body]
fn sin_cos_bits(angle: i64) -> (r: (i64, i64))
    requires
        -PI <= angle <= PI,
    ensures
        (r.0 as int, r.1 as int) == cordic_sin_cos(angle as int),
{
    let (s, c) = cordic::sin_cos(fixed::types::I32F32::from_bits(angle));
    (s.to_bits(), c.to_bits())
}

/// Calls `cordic::atan2` on two numbers with 32 fractional bits.
///
/// Not proved: that the call returns, without overflow, where `x` is not
/// zero, `y` is no larger than `x` in magnitude and neither is the least
/// 64-bit number, and that its result depends on the two numbers alone.
#[verifier::external_body]
fn atan2_bits(y: i64, x: i64) -> (r: i64)
    requires
        x != 0,
        -i64::MAX <= x,
        -i64::MAX <= y,
        -x <= y <= x || x <= y <= -x,
    ensures
        r == cordic_atan2(y as int, x as int),
{
    cordic::atan2(fixed::types::I32F32::from_bits(y), fixed::types::I32F32::from_bits(x)).to_bits()
}

/// The angle in `(-PI, PI]` that points where `theta` points.
pub open spec fn reduced(theta: int) -> int {
    let t = theta % (TAU as int);
    if t > PI {
        t - TAU
    } else {
        t
    }
}

/// The nearest value to `v` in `[-ONE, ONE]`.
pub open spec fn unit(v: int) -> int {
    if v < -ONE {
        -ONE as int
    } else if v > ONE {
        ONE as int
    } else {
        v
    }
}

/// Whether `theta` is a whole number of turns: the heading that points
/// straight up.
pub open spec fn whole_turns(theta: int) -> bool {
    theta % (TAU as int) == 0
}

/// The sine of `theta`. It is exact for a heading that points straight up.
pub open spec fn sine(theta: int) -> int {
    if whole_turns(theta) {
        0
    } else {
        unit(cordic_sin_cos(reduced(theta)).0)
    }
}

/// The cosine of `theta`. It is exact for a heading that points straight up.
pub open spec fn cosine(theta: int) -> int {
    if whole_turns(theta) {
        ONE as int
    } else {
        unit(cordic_sin_cos(reduced(theta)).1)
    }
}

fn clamp_unit(v: i64) -> (r: i64)
    ensures
        r == unit(v as int),
{
    if v < -ONE {
        -ONE
    } else if v > ONE {
        ONE
    } else {
        v
    }
}

/// The sine and the cosine of `theta`, each in `[-ONE, ONE]`.
pub fn sin_cos(theta: i64) -> (r: (i64, i64))
    ensures
        r.0 == sine(theta as int),
        r.1 == cosine(theta as int),
        -ONE <= r.0 <= ONE,
        -ONE <= r.1 <= ONE,
{
    let t: i64 = match theta.checked_rem_euclid(TAU) {
        Some(t) => t,
        None => 0,
    };
    if t == 0 {
        return (0, ONE);
    }
    let angle: i64 = if t > PI { t - TAU } else { t };
    let (s, c) = sin_cos_bits(angle);
    (clamp_unit(s), clamp_unit(c))
}

/// The nearest value to `v` that can be negated.
pub open spec fn symmetric(v: int) -> int {
    if v < -i64::MAX {
        -i64::MAX
    } else if v > i64::MAX {
        i64::MAX as int
    } else {
        v
    }
}

/// The heading of the vector `(x, y)`: the angle from straight up to the
/// vector, clockwise. A vector that points straight up has the heading
/// zero, and so has the zero vector.
///
/// The vector is `(sin, -cos)` of its heading, so the heading is the arc
/// tangent of `x / -y`. The arc tangent is taken of a ratio of at most one:
/// a vector that is wider than high is measured from the horizontal.
pub open spec fn heading(x: int, y: int) -> int {
    let across = symmetric(x);
    let up = symmetric(-y);
    if across == 0 && up >= 0 {
        0
    } else if -up <= across <= up || up <= across <= -up {
        cordic_atan2(across, up)
    } else if across > 0 {
        clamp64(HALF_PI - cordic_atan2(up, across))
    } else {
        clamp64(-HALF_PI - cordic_atan2(-up, -across))
    }
}

fn clamp_symmetric(v: i64) -> (r: i64)
    ensures
        r == symmetric(v as int),
{
    if v == i64::MIN {
        -i64::MAX
    } else {
        v
    }
}

/// The heading of the vector `(x, y)`.
pub fn heading_of(x: i64, y: i64) -> (theta: i64)
    ensures
        theta == heading(x as int, y as int),
{
    let across: i64 = clamp_symmetric(x);
    let up: i64 = clamp_symmetric(negated(y));
    if across == 0 && up >= 0 {
        0
    } else if (-up <= across && across <= up) || (up <= across && across <= -up) {
        atan2_bits(across, up)
    } else if across > 0 {
        saturate(HALF_PI as i128 - atan2_bits(up, across) as i128)
    } else {
        saturate(-(HALF_PI as i128) - atan2_bits(-up, -across) as i128)
    }
}

} // verus!
