//! Exact integers wider than any machine word.
//!
//! The difference of two 64-bit coordinates takes 65 bits, and a product of
//! two such differences 130. The intersection test compares sums of such
//! products, and has to do so without rounding.

use vstd::prelude::*;
use crate::scalar::{floor_div, lemma_product_bound};

verus! {

/// Two to the power 64.
pub open spec fn limb() -> int {
    0x1_0000_0000_0000_0000
}

/// The largest magnitude of a value that a [`Wide`] holds.
pub open spec fn wide_limit() -> int {
    0x1_0000_0000_0000_0000_0000_0000_0000 * limb()
}

/// The integer `hi * 2^64 + lo`.
#[derive(Clone, Copy, Debug)]
pub struct Wide {
    hi: i128,
    lo: u64,
}

impl View for Wide {
    type V = int;

    closed spec fn view(&self) -> int {
        self.hi * limb() + self.lo
    }
}

proof fn lemma_split_product(a: int, a1: int, a0: int, b: int, b1: int, b0: int)
    by (nonlinear_arith)
    requires
        a == a1 * 0x1_0000_0000 + a0,
        b == b1 * 0x1_0000_0000 + b0,
    ensures
        a * b == (a1 * b1) * 0x1_0000_0000_0000_0000 + (a1 * b0 + a0 * b1) * 0x1_0000_0000 + a0
            * b0,
{
}

proof fn lemma_div_mod(t: int, d: int)
    by (nonlinear_arith)
    requires
        d > 0,
    ensures
        t == (t / d) * d + t % d,
        0 <= t % d < d,
{
}

proof fn lemma_div_bounds(t: int, d: int, k: int)
    by (nonlinear_arith)
    requires
        d > 0,
        -(k * d) <= t < k * d,
    ensures
        -k <= t / d < k,
{
}

impl Wide {
    /// The type's invariant: the high part leaves room for sums.
    #[verifier::type_invariant]
    closed spec fn fits(&self) -> bool {
        -0x1_0000_0000_0000_0000_0000_0000_0000 <= self.hi < 0x1_0000_0000_0000_0000_0000_0000_0000
    }

    /// Puts a value that is given as `hi * 2^64 + t` into normal form.
    fn settle(hi: i128, t: i128) -> (r: Wide)
        requires
            -0x4_0000_0000_0000_0000_0000_0000_0000 <= hi <= 0x4_0000_0000_0000_0000_0000_0000_0000,
            -0x1_0000_0000_0000_0000_0000_0000_0000 <= t < 0x1_0000_0000_0000_0000_0000_0000_0000,
            -wide_limit() <= hi * limb() + t < wide_limit(),
        ensures
            r@ == hi * limb() + t,
    {
        let d: i128 = 0x1_0000_0000_0000_0000;
        let q: i128 = floor_div(t, d);
        proof {
            lemma_div_mod(t as int, d as int);
            lemma_div_bounds(t as int, d as int, 0x1_0000_0000_0000);
        }
        let low: i128 = t - q * d;
        Wide { hi: hi + q, lo: low as u64 }
    }

    /// The exact product of two numbers of at most 65 bits.
    pub fn product(a: i128, b: i128) -> (r: Wide)
        requires
            -limb() <= a <= limb(),
            -limb() <= b <= limb(),
        ensures
            r@ == a * b,
    {
        let half: i128 = 0x1_0000_0000;
        let a1: i128 = floor_div(a, half);
        let b1: i128 = floor_div(b, half);
        proof {
            lemma_div_mod(a as int, half as int);
            lemma_div_mod(b as int, half as int);
            lemma_div_bounds(a as int, half as int, 0x1_0000_0001);
            lemma_div_bounds(b as int, half as int, 0x1_0000_0001);
        }
        let a0: i128 = a - a1 * half;
        let b0: i128 = b - b1 * half;
        proof {
            lemma_product_bound(a1 as int, b1 as int, 0x1_0000_0001, 0x1_0000_0001);
            lemma_product_bound(a1 as int, b0 as int, 0x1_0000_0001, 0x1_0000_0000);
            lemma_product_bound(a0 as int, b1 as int, 0x1_0000_0000, 0x1_0000_0001);
            lemma_product_bound(a0 as int, b0 as int, 0x1_0000_0000, 0x1_0000_0000);
            lemma_split_product(a as int, a1 as int, a0 as int, b as int, b1 as int, b0 as int);
            lemma_product_bound(a as int, b as int, limb(), limb());
        }
        let top: i128 = a1 * b1;
        let mid: i128 = a1 * b0 + a0 * b1;
        let low: i128 = a0 * b0;
        Wide::settle(top, mid * half + low)
    }

    /// The exact sum.
    pub fn plus(self, other: Wide) -> (r: Wide)
        requires
            -wide_limit() <= self@ + other@ < wide_limit(),
        ensures
            r@ == self@ + other@,
    {
        proof {
            use_type_invariant(&self);
            use_type_invariant(&other);
        }
        Wide::settle(self.hi + other.hi, self.lo as i128 + other.lo as i128)
    }

    /// The exact difference.
    pub fn minus(self, other: Wide) -> (r: Wide)
        requires
            -wide_limit() <= self@ - other@ < wide_limit(),
        ensures
            r@ == self@ - other@,
    {
        proof {
            use_type_invariant(&self);
            use_type_invariant(&other);
        }
        Wide::settle(self.hi - other.hi, self.lo as i128 - other.lo as i128)
    }

    /// Whether the value is zero.
    pub fn is_zero(self) -> (r: bool)
        ensures
            r == (self@ == 0),
    {
        self.hi == 0 && self.lo == 0
    }

    /// Whether the value is below zero.
    pub fn is_negative(self) -> (r: bool)
        ensures
            r == (self@ < 0),
    {
        self.hi < 0
    }

    /// Whether the value is above zero.
    pub fn is_positive(self) -> (r: bool)
        ensures
            r == (self@ > 0),
    {
        self.hi > 0 || (self.hi == 0 && self.lo > 0)
    }

    /// Whether `self <= other`.
    pub fn at_most(self, other: Wide) -> (r: bool)
        ensures
            r == (self@ <= other@),
    {
        self.hi < other.hi || (self.hi == other.hi && self.lo <= other.lo)
    }
}

} // verus!
