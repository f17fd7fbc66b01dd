//! Fixed-point numbers: an `i64` that counts units of 2^-32.

use vstd::prelude::*;

verus! {

/// The number one.
pub const ONE: i64 = 0x1_0000_0000;

/// The nearest 64-bit value to `v`.
pub open spec fn clamp64(v: int) -> int {
    if v < i64::MIN {
        i64::MIN as int
    } else if v > i64::MAX {
        i64::MAX as int
    } else {
        v
    }
}

/// The fixed-point product of `a` and `b`, rounded down.
pub open spec fn scaled(a: int, b: int) -> int {
    (a * b) / (ONE as int)
}

/// The fixed-point quotient of `a` by `b`, rounded down for a positive `b`
/// and up for a negative one.
pub open spec fn ratio(a: int, b: int) -> int {
    (a * ONE) / b
}

/// Whether `r` is the square root of `n`, rounded down.
pub open spec fn is_root(n: int, r: int) -> bool {
    0 <= r && r * r <= n < (r + 1) * (r + 1)
}

/// The square root of `n`, rounded down.
pub open spec fn root(n: int) -> int {
    choose|r: int| is_root(n, r)
}

/// A number has one square root at most.
pub proof fn lemma_root_unique(n: int, a: int, b: int)
    by (nonlinear_arith)
    requires
        is_root(n, a),
        is_root(n, b),
    ensures
        a == b,
{
}

/// A product is no larger than the product of the bounds of its factors.
pub proof fn lemma_product_bound(a: int, b: int, m: int, n: int)
    by (nonlinear_arith)
    requires
        -m <= a <= m,
        -n <= b <= n,
    ensures
        -(m * n) <= a * b <= m * n,
{
}

/// Stores an exact value in 64 bits, saturating at the ends of the range.
pub fn saturate(v: i128) -> (r: i64)
    ensures
        r == clamp64(v as int),
{
    if v < i64::MIN as i128 {
        i64::MIN
    } else if v > i64::MAX as i128 {
        i64::MAX
    } else {
        v as i64
    }
}

/// `p / d` rounded down, for a positive `d`.
pub fn floor_div(p: i128, d: i128) -> (q: i128)
    requires
        d > 0,
    ensures
        q == p as int / d as int,
        p >= 0 ==> 0 <= q <= p,
        p < 0 ==> p <= q <= 0,
{
    proof {
        lemma_floor_div_fits(p as int, d as int);
    }
    match p.checked_div_euclid(d) {
        Some(q) => q,
        None => 0,
    }
}

proof fn lemma_floor_div_fits(p: int, d: int)
    by (nonlinear_arith)
    requires
        d > 0,
    ensures
        p >= 0 ==> 0 <= p / d <= p,
        p < 0 ==> p <= p / d <= 0,
{
}

proof fn lemma_rescale_sum(p: int, q: int, d: int)
    by (nonlinear_arith)
    requires
        d > 0,
    ensures
        (p + q) / d == p / d + q / d + (p % d + q % d) / d,
        0 <= p % d < d,
        0 <= q % d < d,
        p == (p / d) * d + p % d,
        q == (q / d) * d + q % d,
{
}

/// `(p + q) / ONE` rounded down, where the sum itself may not fit.
pub fn rescaled_sum(p: i128, q: i128) -> (r: i128)
    requires
        -0x4000_0000_0000_0000_0000_0000_0000_0000 <= p,
        p <= 0x4000_0000_0000_0000_0000_0000_0000_0000,
        -0x4000_0000_0000_0000_0000_0000_0000_0000 <= q,
        q <= 0x4000_0000_0000_0000_0000_0000_0000_0000,
    ensures
        r == (p + q) / (ONE as int),
{
    let d: i128 = ONE as i128;
    let pq: i128 = floor_div(p, d);
    let qq: i128 = floor_div(q, d);
    proof {
        lemma_rescale_sum(p as int, q as int, d as int);
    }
    let pr: i128 = p - pq * d;
    let qr: i128 = q - qq * d;
    pq + qq + floor_div(pr + qr, d)
}

/// Saturating sum.
pub fn plus(a: i64, b: i64) -> (r: i64)
    ensures
        r == clamp64(a + b),
{
    saturate(a as i128 + b as i128)
}

/// Saturating difference.
pub fn minus(a: i64, b: i64) -> (r: i64)
    ensures
        r == clamp64(a - b),
{
    saturate(a as i128 - b as i128)
}

/// Saturating negation.
pub fn negated(a: i64) -> (r: i64)
    ensures
        r == clamp64(-a),
{
    saturate(-(a as i128))
}

/// Saturating fixed-point product.
pub fn times(a: i64, b: i64) -> (r: i64)
    ensures
        r == clamp64(scaled(a as int, b as int)),
{
    proof {
        lemma_product_bound(a as int, b as int, 0x8000_0000_0000_0000, 0x8000_0000_0000_0000);
    }
    let p: i128 = (a as i128) * (b as i128);
    saturate(floor_div(p, ONE as i128))
}

/// Saturating fixed-point quotient.
pub fn over(a: i64, b: i64) -> (r: i64)
    requires
        b != 0,
    ensures
        r == clamp64(ratio(a as int, b as int)),
{
    let p: i128 = (a as i128) * (ONE as i128);
    proof {
        lemma_product_bound(a as int, ONE as int, 0x8000_0000_0000_0000, ONE as int);
        lemma_quotient_fits(p as int, b as int);
    }
    match p.checked_div_euclid(b as i128) {
        Some(q) => saturate(q),
        None => 0,
    }
}

proof fn lemma_quotient_fits(p: int, d: int)
    by (nonlinear_arith)
    requires
        d != 0,
    ensures
        p >= 0 ==> -p <= p / d <= p,
        p < 0 ==> p <= p / d <= -p,
{
}

/// Integer square root.
pub fn isqrt(n: u128) -> (r: u64)
    ensures
        r == root(n as int),
        is_root(n as int, r as int),
{
    let mut lo: u128 = 0;
    let mut hi: u128 = 0x1_0000_0000_0000_0000;
    while hi - lo > 1
        invariant
            lo < hi <= 0x1_0000_0000_0000_0000,
            lo * lo <= n,
            n < hi * hi,
        decreases hi - lo,
    {
        let mid: u128 = lo + (hi - lo) / 2;
        proof {
            let top = 0xffff_ffff_ffff_ffffint;
            lemma_product_bound(mid as int, mid as int, top, top);
        }
        let sq: u128 = mid * mid;
        if sq <= n {
            lo = mid;
        } else {
            hi = mid;
        }
    }
    proof {
        assert(is_root(n as int, lo as int));
        lemma_root_unique(n as int, lo as int, root(n as int));
    }
    lo as u64
}

} // verus!
