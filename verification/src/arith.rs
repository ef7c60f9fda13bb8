//! Exact integer arithmetic for the layout: products and floor quotients
//! that are proved equal to their mathematical values.

use vstd::prelude::*;
use vstd::arithmetic::div_mod::{lemma_fundamental_div_mod, lemma_mod_bound};

verus! {

/// Bound on the first factor of [`product`]: whatever a `usize` holds.
pub const FACTOR_MAX: i128 = 0x1_0000_0000_0000_0000;

/// Bound on the second factor of [`product`]; the product of two factors
/// within their bounds fits `i128`.
pub const SMALL_FACTOR_MAX: i128 = 0x100_0000_0000;

/// The product of a number that may be as large as a count of layout units
/// and one of the size of a pixel coordinate.
pub fn product(a: i128, b: i128) -> (r: i128)
    requires
        -FACTOR_MAX <= a <= FACTOR_MAX,
        -SMALL_FACTOR_MAX <= b <= SMALL_FACTOR_MAX,
    ensures
        r == a * b,
{
    assert(-(FACTOR_MAX * SMALL_FACTOR_MAX) <= a * b <= FACTOR_MAX * SMALL_FACTOR_MAX)
        by (nonlinear_arith)
        requires
            -FACTOR_MAX <= a <= FACTOR_MAX,
            -SMALL_FACTOR_MAX <= b <= SMALL_FACTOR_MAX,
    ;
    a * b
}

/// The floor of `a / b` for a dividend that is not negative.
pub fn div_floor(a: i128, b: i128) -> (q: i128)
    requires
        0 <= a,
        0 < b,
    ensures
        q == a / b,
        0 <= q <= a,
{
    assert(0 <= a / b <= a) by (nonlinear_arith)
        requires
            0 <= a,
            0 < b,
    ;
    a / b
}

/// A floor quotient is the largest multiple of the divisor at or below the
/// dividend.
pub proof fn lemma_floor_bounds(a: int, d: int)
    requires
        0 < d,
    ensures
        d * (a / d) <= a < d * (a / d) + d,
{
    lemma_fundamental_div_mod(a, d);
    lemma_mod_bound(a, d);
}

/// A multiple of the divisor at or below the dividend is at or below the
/// quotient's.
pub proof fn lemma_floor_at_least(a: int, d: int, k: int)
    requires
        0 < d,
        k * d <= a,
    ensures
        k <= a / d,
{
    lemma_floor_bounds(a, d);
    if a / d < k {
        assert(d * (a / d) + d <= k * d) by (nonlinear_arith)
            requires
                a / d + 1 <= k,
                0 < d,
        ;
    }
}

/// A multiple of the divisor above the dividend is above the quotient's.
pub proof fn lemma_floor_below(a: int, d: int, k: int)
    requires
        0 < d,
        a < k * d,
    ensures
        a / d < k,
{
    lemma_floor_bounds(a, d);
    if a / d >= k {
        assert(k * d <= d * (a / d)) by (nonlinear_arith)
            requires
                k <= a / d,
                0 < d,
        ;
    }
}

} // verus!
