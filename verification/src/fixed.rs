//! Fixed-point scalars: the unit, rounding division, products and square roots.

use vstd::prelude::*;

verus! {

/// One world unit, one radian or one second, counted in fixed-point steps.
pub const ONE: i64 = 60_000;

/// Largest magnitude of a coordinate, a speed or a radius. The square of the
/// difference of two such values, and the sum of two such squares, fit in an `i64`.
pub const COORD_MAX: i64 = 1_000_000_000;

/// Largest magnitude of a coordinate, and of an extent of the field, at the
/// start of a frame: a step and a wrap later it is still within `COORD_MAX`.
pub const POS_MAX: i64 = 400_000_000;

/// Largest magnitude of an angle, a spin, a life or a timer at the start of a
/// frame: the sum of two such values fits in an `i64`.
pub const WIDE_MAX: i64 = 4_000_000_000_000_000_000;

/// The quotient of `a` by a positive `b`, rounded toward zero.
pub open spec fn trunc_div(a: int, b: int) -> int
    recommends
        b > 0,
{
    if a >= 0 {
        a / b
    } else {
        -((-a) / b)
    }
}

/// The product of two fixed-point scalars, rounded toward zero.
pub open spec fn fx_mul_spec(a: int, b: int) -> int {
    trunc_div(a * b, ONE as int)
}

/// `r` is the least natural number whose square reaches `n`.
pub open spec fn is_ceil_sqrt(n: int, r: int) -> bool {
    &&& r >= 0
    &&& r * r >= n
    &&& r > 0 ==> (r - 1) * (r - 1) < n
}

/// The square root of `n`, rounded up; 0 for every `n <= 0`.
pub open spec fn ceil_sqrt_spec(n: int) -> int {
    choose|r: int| is_ceil_sqrt(n, r)
}

/// Rounding toward zero never moves a quotient by a whole step, and keeps the sign.
pub proof fn lemma_trunc_div_bounds(a: int, b: int)
    requires
        b > 0,
    ensures
        a >= 0 ==> 0 <= b * trunc_div(a, b) <= a < b * trunc_div(a, b) + b,
        a <= 0 ==> 0 >= b * trunc_div(a, b) >= a > b * trunc_div(a, b) - b,
        a >= 0 ==> trunc_div(a, b) >= 0,
        a <= 0 ==> trunc_div(a, b) <= 0,
        trunc_div(-a, b) == -trunc_div(a, b),
{
    if a >= 0 {
        let q = a / b;
        assert(0 <= b * q <= a < b * q + b && q >= 0) by (nonlinear_arith)
            requires
                a >= 0,
                b > 0,
                q == a / b,
        ;
        if a == 0 {
            assert(0int / b == 0) by (nonlinear_arith)
                requires
                    b > 0,
            ;
        }
    } else {
        let m = -a;
        let q = m / b;
        assert(0 <= b * q <= m < b * q + b && q >= 0) by (nonlinear_arith)
            requires
                m >= 0,
                b > 0,
                q == m / b,
        ;
        assert(b * (-q) == -(b * q)) by (nonlinear_arith);
    }
}

/// The magnitude of a rounded quotient is the rounded quotient of the magnitudes.
pub proof fn lemma_trunc_div_le(a: int, b: int, bound: int)
    requires
        b > 0,
        bound >= 0,
        -(bound * b) <= a <= bound * b,
    ensures
        -bound <= trunc_div(a, b) <= bound,
{
    lemma_trunc_div_bounds(a, b);
    let q = trunc_div(a, b);
    if a >= 0 {
        assert(q <= bound) by (nonlinear_arith)
            requires
                b > 0,
                b * q <= a,
                a <= bound * b,
        ;
    } else {
        assert(q >= -bound) by (nonlinear_arith)
            requires
                b > 0,
                b * q >= a,
                a >= -(bound * b),
        ;
    }
}

/// At most one number is the rounded-up square root of `n`.
pub proof fn lemma_ceil_sqrt_unique(n: int, r1: int, r2: int)
    requires
        is_ceil_sqrt(n, r1),
        is_ceil_sqrt(n, r2),
    ensures
        r1 == r2,
{
    if r1 < r2 {
        assert(r1 * r1 <= (r2 - 1) * (r2 - 1)) by (nonlinear_arith)
            requires
                0 <= r1 <= r2 - 1,
        ;
    } else if r2 < r1 {
        assert(r2 * r2 <= (r1 - 1) * (r1 - 1)) by (nonlinear_arith)
            requires
                0 <= r2 <= r1 - 1,
        ;
    }
}

/// Every integer has a rounded-up square root.
pub proof fn lemma_ceil_sqrt_exists(n: int)
    ensures
        is_ceil_sqrt(n, ceil_sqrt_spec(n)),
    decreases n,
{
    if n <= 0 {
        assert(is_ceil_sqrt(n, 0));
    } else {
        lemma_ceil_sqrt_exists(n - 1);
        let r = ceil_sqrt_spec(n - 1);
        if r * r >= n {
            assert(is_ceil_sqrt(n, r));
        } else {
            assert((r + 1) * (r + 1) >= n) by (nonlinear_arith)
                requires
                    r >= 0,
                    r * r >= n - 1,
            ;
            assert(is_ceil_sqrt(n, r + 1));
        }
    }
}

/// Whatever meets the definition is the rounded-up square root.
pub proof fn lemma_ceil_sqrt_is(n: int, r: int)
    requires
        is_ceil_sqrt(n, r),
    ensures
        ceil_sqrt_spec(n) == r,
{
    lemma_ceil_sqrt_unique(n, r, ceil_sqrt_spec(n));
}

/// Product of two fixed-point scalars, rounded toward zero.
pub fn fx_mul(a: i64, b: i64) -> (r: i64)
    requires
        i64::MIN <= a * b <= i64::MAX,
    ensures
        r == fx_mul_spec(a as int, b as int),
{
    (a * b) / ONE
}

/// Square root of `n`, rounded up.
pub fn ceil_sqrt(n: u64) -> (r: u64)
    requires
        n <= i64::MAX,
    ensures
        r == ceil_sqrt_spec(n as int),
        r <= 3_037_000_500,
{
    if n == 0 {
        proof {
            lemma_ceil_sqrt_is(0, 0);
        }
        return 0;
    }
    let mut lo: u64 = 0;
    let mut hi: u64 = 3_037_000_500;
    assert(3_037_000_500u64 * 3_037_000_500u64 >= i64::MAX) by (nonlinear_arith);
    while hi - lo > 1
        invariant
            0 <= lo < hi <= 3_037_000_500,
            lo * lo < n <= hi * hi,
        decreases hi - lo,
    {
        let mid: u64 = lo + (hi - lo) / 2;
        assert(mid * mid <= 3_037_000_500u64 * 3_037_000_500u64) by (nonlinear_arith)
            requires
                0 <= mid <= 3_037_000_500,
        ;
        if mid * mid >= n {
            hi = mid;
        } else {
            lo = mid;
        }
    }
    proof {
        assert(lo == hi - 1);
        lemma_ceil_sqrt_is(n as int, hi as int);
    }
    hi
}

} // verus!
