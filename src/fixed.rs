//! Signed fixed-point numbers with 24 fractional bits, held in plain integers.
use vstd::prelude::*;

verus! {

/// The fixed-point representation of 1.
pub const ONE: i64 = 16777216;

/// Integer division rounding toward zero, as Rust's `/` does, for a positive divisor.
pub open spec fn trunc_div(a: int, b: int) -> int {
    if a >= 0 {
        a / b
    } else {
        -((-a) / b)
    }
}

/// Whether `x` can be held in an `i64`.
pub open spec fn fits_i64(x: int) -> bool {
    i64::MIN <= x <= i64::MAX
}

/// Rounding toward zero is odd in its dividend.
pub proof fn lemma_trunc_div_neg(a: int, b: int)
    requires
        b > 0,
    ensures
        trunc_div(-a, b) == -trunc_div(a, b),
{
    if a == 0 {
        assert(trunc_div(0, b) == 0) by {
            vstd::arithmetic::div_mod::lemma_div_of0(b);
        }
    }
}

/// A quotient rounded toward zero is no larger in magnitude than its dividend.
pub proof fn lemma_trunc_div_bound(a: int, b: int, bound: int)
    requires
        b > 0,
        -bound <= a <= bound,
    ensures
        -(bound / b) <= trunc_div(a, b) <= bound / b,
        bound / b <= bound,
{
    vstd::arithmetic::div_mod::lemma_div_nonincreasing(bound, b);
    if a >= 0 {
        vstd::arithmetic::div_mod::lemma_div_is_ordered(a, bound, b);
        vstd::arithmetic::div_mod::lemma_div_pos_is_pos(a, b);
    } else {
        vstd::arithmetic::div_mod::lemma_div_is_ordered(-a, bound, b);
        vstd::arithmetic::div_mod::lemma_div_pos_is_pos(-a, b);
    }
}

/// A product is bounded by the product of its factors' bounds.
pub proof fn lemma_mul_bound(a: int, b: int, abound: int, bbound: int)
    requires
        -abound <= a <= abound,
        -bbound <= b <= bbound,
    ensures
        -(abound * bbound) <= a * b <= abound * bbound,
{
    let x = if a >= 0 { a } else { -a };
    let y = if b >= 0 { b } else { -b };
    vstd::arithmetic::mul::lemma_mul_upper_bound(x, abound, y, bbound);
    assert(x * y == a * b || x * y == -(a * b)) by (nonlinear_arith)
        requires
            x == a || x == -a,
            y == b || y == -b,
    ;
}

/// Divides `a` by a positive `b`, rounding toward zero.
pub fn div_toward_zero(a: i128, b: i128) -> (r: i128)
    requires
        b > 0,
        a > i128::MIN,
    ensures
        r == trunc_div(a as int, b as int),
{
    if a >= 0 {
        a / b
    } else {
        let q = (-a) / b;
        proof {
            vstd::arithmetic::div_mod::lemma_div_is_ordered(-a, i128::MAX as int, b as int);
            vstd::arithmetic::div_mod::lemma_div_pos_is_pos(-a, b as int);
            vstd::arithmetic::div_mod::lemma_div_nonincreasing(-a, b as int);
        }
        -q
    }
}

} // verus!
