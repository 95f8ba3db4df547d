//! Rounding and products: the arithmetic of grids and buffers.

use vstd::arithmetic::div_mod::{
    lemma_div_is_ordered, lemma_fundamental_div_mod, lemma_fundamental_div_mod_converse,
};
use vstd::arithmetic::mul::{lemma_mul_inequality, lemma_mul_is_commutative};
use vstd::prelude::*;

verus! {

/// The least number of parts of size `b` that cover `a`.
pub open spec fn ceil_div(a: int, b: int) -> int {
    (a + b - 1) / b
}

/// The least multiple of `b` that is at least `a`.
pub open spec fn round_up(a: int, b: int) -> int {
    ceil_div(a, b) * b
}

pub open spec fn min2(a: int, b: int) -> int {
    if a <= b { a } else { b }
}

pub open spec fn max2(a: int, b: int) -> int {
    if a >= b { a } else { b }
}

/// `v`, or the bound it lies beyond.
pub open spec fn clamp3(v: int, lo: int, hi: int) -> int {
    if v < lo { lo } else if v > hi { hi } else { v }
}

/// `ceil_div` parts cover `a`, and one part less does not.
pub proof fn lemma_ceil_div(a: int, b: int)
    requires
        0 <= a,
        0 < b,
    ensures
        ceil_div(a, b) == a / b + (if a % b == 0 { 0int } else { 1int }),
        0 <= ceil_div(a, b) <= a,
        a <= ceil_div(a, b) * b < a + b,
        0 < a ==> (ceil_div(a, b) - 1) * b < a,
        0 < a ==> 1 <= ceil_div(a, b),
        round_up(a, b) % b == 0,
        a % b == 0 ==> round_up(a, b) == a,
{
    let q = a / b;
    let r = a % b;
    lemma_fundamental_div_mod(a, b);
    assert(b * q + r == a);
    assert(0 <= r < b) by (nonlinear_arith)
        requires
            r == a % b,
            b > 0,
    ;
    assert(0 <= q) by (nonlinear_arith)
        requires
            q == a / b,
            a >= 0,
            b > 0,
    ;
    lemma_mul_is_commutative(b, q);
    if r == 0 {
        lemma_fundamental_div_mod_converse(a + b - 1, b, q, b - 1);
        assert(ceil_div(a, b) == q);
        assert(q <= a) by (nonlinear_arith)
            requires
                q * b == a,
                b >= 1,
                q >= 0,
        ;
    } else {
        assert((q + 1) * b == q * b + b) by (nonlinear_arith);
        lemma_fundamental_div_mod_converse(a + b - 1, b, q + 1, r - 1);
        assert(ceil_div(a, b) == q + 1);
        assert(q + 1 <= a) by (nonlinear_arith)
            requires
                q * b + r == a,
                b >= 1,
                q >= 0,
                r >= 1,
        ;
    }
    let c = ceil_div(a, b);
    if 0 < a {
        assert(1 <= c) by (nonlinear_arith)
            requires
                a <= c * b,
                0 < a,
                0 < b,
        ;
    }
    assert((c - 1) * b == c * b - b) by (nonlinear_arith);
    lemma_fundamental_div_mod_converse(c * b, b, c, 0);
}

/// More to cover takes no fewer parts.
pub proof fn lemma_ceil_div_monotone(a: int, c: int, b: int)
    requires
        0 <= a <= c,
        0 < b,
    ensures
        ceil_div(a, b) <= ceil_div(c, b),
        round_up(a, b) <= round_up(c, b),
{
    lemma_div_is_ordered(a + b - 1, c + b - 1, b);
    lemma_mul_inequality(ceil_div(a, b), ceil_div(c, b), b);
}

/// Two bounded factors have a bounded product.
pub proof fn lemma_mul_bound(a: int, am: int, b: int, bm: int)
    requires
        0 <= a <= am,
        0 <= b <= bm,
    ensures
        0 <= a * b <= am * bm,
{
    assert(0 <= a * b <= am * bm) by (nonlinear_arith)
        requires
            0 <= a <= am,
            0 <= b <= bm,
    ;
}

/// A product of two is no more than the product with a third factor that is not zero.
pub proof fn lemma_mul_le_factor(a: int, b: int, c: int)
    requires
        0 <= a,
        0 <= b,
        0 <= c,
    ensures
        0 <= a * b,
        0 <= a * b * c,
        0 < c ==> a * b <= a * b * c,
        c == 0 ==> a * b * c == 0,
{
    assert(0 <= a * b && 0 <= a * b * c && (0 < c ==> a * b <= a * b * c)) by (nonlinear_arith)
        requires
            0 <= a,
            0 <= b,
            0 <= c,
    ;
}

pub fn div_ceil_u32(a: u32, b: u32) -> (r: u32)
    requires
        b > 0,
    ensures
        r == ceil_div(a as int, b as int),
{
    proof {
        lemma_ceil_div(a as int, b as int);
    }
    if a % b == 0 {
        a / b
    } else {
        a / b + 1
    }
}

pub fn div_ceil_u64(a: u64, b: u64) -> (r: u64)
    requires
        b > 0,
    ensures
        r == ceil_div(a as int, b as int),
{
    proof {
        lemma_ceil_div(a as int, b as int);
    }
    if a % b == 0 {
        a / b
    } else {
        a / b + 1
    }
}

pub fn div_ceil_usize(a: usize, b: usize) -> (r: usize)
    requires
        b > 0,
    ensures
        r == ceil_div(a as int, b as int),
{
    proof {
        lemma_ceil_div(a as int, b as int);
    }
    if a % b == 0 {
        a / b
    } else {
        a / b + 1
    }
}

pub fn round_up_u32(a: u32, b: u32) -> (r: u32)
    requires
        b > 0,
        round_up(a as int, b as int) <= u32::MAX,
    ensures
        r == round_up(a as int, b as int),
{
    div_ceil_u32(a, b) * b
}

pub fn round_up_usize(a: usize, b: usize) -> (r: usize)
    requires
        b > 0,
        round_up(a as int, b as int) <= usize::MAX,
    ensures
        r == round_up(a as int, b as int),
{
    div_ceil_usize(a, b) * b
}

pub fn max_u32(a: u32, b: u32) -> (r: u32)
    ensures
        r == max2(a as int, b as int),
{
    if a >= b {
        a
    } else {
        b
    }
}

pub fn min_u32(a: u32, b: u32) -> (r: u32)
    ensures
        r == min2(a as int, b as int),
{
    if a <= b {
        a
    } else {
        b
    }
}

pub fn clamp_u32(v: u32, lo: u32, hi: u32) -> (r: u32)
    requires
        lo <= hi,
    ensures
        r == clamp3(v as int, lo as int, hi as int),
{
    if v < lo {
        lo
    } else if v > hi {
        hi
    } else {
        v
    }
}

/// The products that `a * b * c` is computed through stay within `max`.
pub open spec fn fits3(a: int, b: int, c: int, max: int) -> bool {
    a * b <= max && a * b * c <= max
}

/// The products that `a * b * c * d` is computed through stay within `max`.
pub open spec fn fits4(a: int, b: int, c: int, d: int, max: int) -> bool {
    a * b <= max && a * b * c <= max && a * b * c * d <= max
}

pub fn mul3_u32(a: u32, b: u32, c: u32) -> (r: u32)
    requires
        fits3(a as int, b as int, c as int, u32::MAX as int),
    ensures
        r == a * b * c,
{
    proof {
        lemma_mul_le_factor(a as int, b as int, c as int);
    }
    a * b * c
}

pub fn mul4_u32(a: u32, b: u32, c: u32, d: u32) -> (r: u32)
    requires
        fits4(a as int, b as int, c as int, d as int, u32::MAX as int),
    ensures
        r == a * b * c * d,
{
    proof {
        lemma_mul_le_factor(a as int, b as int, c as int);
        lemma_mul_le_factor(a * b, c as int, d as int);
    }
    a * b * c * d
}

pub fn mul3_usize(a: usize, b: usize, c: usize) -> (r: usize)
    requires
        fits3(a as int, b as int, c as int, usize::MAX as int),
    ensures
        r == a * b * c,
{
    proof {
        lemma_mul_le_factor(a as int, b as int, c as int);
    }
    a * b * c
}

pub fn mul4_usize(a: usize, b: usize, c: usize, d: usize) -> (r: usize)
    requires
        fits4(a as int, b as int, c as int, d as int, usize::MAX as int),
    ensures
        r == a * b * c * d,
{
    proof {
        lemma_mul_le_factor(a as int, b as int, c as int);
        lemma_mul_le_factor(a * b, c as int, d as int);
    }
    a * b * c * d
}

} // verus!
