//! Two-dimensional fixed-point vectors.

use vstd::prelude::*;
use crate::fixed::{
    COORD_MAX, ONE, ceil_sqrt, ceil_sqrt_spec, fx_mul, fx_mul_spec, is_ceil_sqrt,
    lemma_ceil_sqrt_exists, lemma_trunc_div_bounds, trunc_div,
};

verus! {

/// A point or a displacement in world coordinates: origin at the centre of
/// the field, `y` pointing up.
#[derive(Clone, Copy, Debug, PartialEq, Eq, Structural)]
pub struct Vector {
    pub x: i64,
    pub y: i64,
}

/// The squared Euclidean length of `(x, y)`.
pub open spec fn norm_sq(x: int, y: int) -> int {
    x * x + y * y
}

/// The components of `(x, y)` stretched or shrunk toward length `len`:
/// each is multiplied by `len`, divided by the rounded-up length and rounded
/// toward zero.
pub open spec fn rescaled(x: int, y: int, len: int) -> (int, int) {
    let n = ceil_sqrt_spec(norm_sq(x, y));
    (trunc_div(x * len, n), trunc_div(y * len, n))
}

impl Vector {
    /// The origin.
    pub fn zero() -> (v: Vector)
        ensures
            v == (Vector { x: 0, y: 0 }),
    {
        Vector { x: 0, y: 0 }
    }

    /// Both components lie within `bound` of zero.
    pub open spec fn within(self, bound: int) -> bool {
        -bound <= self.x <= bound && -bound <= self.y <= bound
    }

    /// The squared Euclidean length.
    pub open spec fn len2_spec(self) -> int {
        norm_sq(self.x as int, self.y as int)
    }

    /// The squared Euclidean distance to `other`.
    pub open spec fn dist2_spec(self, other: Vector) -> int {
        norm_sq(self.x - other.x, self.y - other.y)
    }

    /// Component-wise sum.
    pub open spec fn plus_spec(self, other: Vector) -> Vector {
        Vector { x: (self.x + other.x) as i64, y: (self.y + other.y) as i64 }
    }

    /// Each component multiplied by the fixed-point scalar `k`.
    pub open spec fn scale_spec(self, k: int) -> Vector {
        Vector { x: fx_mul_spec(self.x as int, k) as i64, y: fx_mul_spec(self.y as int, k) as i64 }
    }

    /// The vector stretched or shrunk toward length `len`.
    pub open spec fn with_len_spec(self, len: int) -> Vector {
        let r = rescaled(self.x as int, self.y as int, len);
        Vector { x: r.0 as i64, y: r.1 as i64 }
    }

    pub fn new(x: i64, y: i64) -> (v: Vector)
        ensures
            v == (Vector { x, y }),
    {
        Vector { x, y }
    }

    /// Component-wise sum.
    pub fn plus(self, other: Vector) -> (v: Vector)
        requires
            i64::MIN <= self.x + other.x <= i64::MAX,
            i64::MIN <= self.y + other.y <= i64::MAX,
        ensures
            v == self.plus_spec(other),
            v.x == self.x + other.x,
            v.y == self.y + other.y,
    {
        Vector { x: self.x + other.x, y: self.y + other.y }
    }

    /// Each component multiplied by the fixed-point scalar `k`.
    pub fn scale(self, k: i64) -> (v: Vector)
        requires
            i64::MIN <= self.x * k <= i64::MAX,
            i64::MIN <= self.y * k <= i64::MAX,
        ensures
            v == self.scale_spec(k as int),
            v.x == fx_mul_spec(self.x as int, k as int),
            v.y == fx_mul_spec(self.y as int, k as int),
    {
        Vector { x: fx_mul(self.x, k), y: fx_mul(self.y, k) }
    }

    /// The squared Euclidean length.
    pub fn len2(self) -> (n: i64)
        requires
            self.within(2 * COORD_MAX),
        ensures
            n == self.len2_spec(),
            n >= 0,
    {
        proof {
            lemma_square_bound(self.x as int, 2_000_000_000);
            lemma_square_bound(self.y as int, 2_000_000_000);
        }
        self.x * self.x + self.y * self.y
    }

    /// The squared Euclidean distance to `other`.
    pub fn dist2(self, other: Vector) -> (n: i64)
        requires
            self.within(COORD_MAX as int),
            other.within(COORD_MAX as int),
        ensures
            n == self.dist2_spec(other),
            n >= 0,
    {
        let d = Vector { x: self.x - other.x, y: self.y - other.y };
        d.len2()
    }

    /// The vector stretched or shrunk toward length `len`.
    pub fn with_len(self, len: i64) -> (v: Vector)
        requires
            self.within(2 * COORD_MAX),
            self.x != 0 || self.y != 0,
            0 <= len <= 2 * COORD_MAX,
        ensures
            v == self.with_len_spec(len as int),
            v.len2_spec() <= len * len,
            v.within(len as int),
    {
        let n2: i64 = self.len2();
        let n: i64 = ceil_sqrt(n2 as u64) as i64;
        proof {
            lemma_ceil_sqrt_exists(n2 as int);
            assert(n2 > 0) by (nonlinear_arith)
                requires
                    n2 == self.x * self.x + self.y * self.y,
                    self.x != 0 || self.y != 0,
            ;
            assert(n > 0) by (nonlinear_arith)
                requires
                    n >= 0,
                    n * n >= n2,
                    n2 > 0,
            ;
            lemma_rescaled_upper(self.x as int, self.y as int, len as int);
            lemma_product_bound(self.x as int, 2_000_000_000, len as int, 2_000_000_000);
            lemma_product_bound(self.y as int, 2_000_000_000, len as int, 2_000_000_000);
        }
        Vector { x: (self.x * len) / n, y: (self.y * len) / n }
    }
}

/// A square is at most the square of a bound on the magnitude.
pub proof fn lemma_square_bound(a: int, bound: int)
    requires
        -bound <= a <= bound,
    ensures
        0 <= a * a <= bound * bound,
{
    assert(0 <= a * a <= bound * bound) by (nonlinear_arith)
        requires
            -bound <= a <= bound,
    ;
}

/// A product is bounded by the product of bounds on the magnitudes.
pub proof fn lemma_product_bound(a: int, abound: int, b: int, bbound: int)
    requires
        -abound <= a <= abound,
        -bbound <= b <= bbound,
    ensures
        -(abound * bbound) <= a * b <= abound * bbound,
{
    assert(-(abound * bbound) <= a * b <= abound * bbound) by (nonlinear_arith)
        requires
            -abound <= a <= abound,
            -bbound <= b <= bbound,
    ;
}

/// The magnitude of a component after rescaling: a rounded-down quotient of magnitudes.
proof fn lemma_rescaled_component(a: int, len: int, n: int) -> (q: int)
    requires
        len >= 0,
        n > 0,
    ensures
        q >= 0,
        q * q == trunc_div(a * len, n) * trunc_div(a * len, n),
        a >= 0 ==> n * q <= a * len < n * q + n,
        a <= 0 ==> n * q <= (-a) * len < n * q + n,
{
    lemma_trunc_div_bounds(a * len, n);
    let t = trunc_div(a * len, n);
    if a >= 0 {
        assert(a * len >= 0) by (nonlinear_arith)
            requires
                a >= 0,
                len >= 0,
        ;
        t
    } else {
        assert(a * len <= 0 && (-a) * len == -(a * len)) by (nonlinear_arith)
            requires
                a <= 0,
                len >= 0,
        ;
        assert((-t) * (-t) == t * t && n * (-t) == -(n * t)) by (nonlinear_arith);
        -t
    }
}

/// Multiplying both components by `len / n` and rounding toward zero yields
/// at most length `len`, when `n` is at least the length before.
pub proof fn lemma_ratio_upper(x: int, y: int, len: int, n: int)
    requires
        n > 0,
        len >= 0,
        norm_sq(x, y) <= n * n,
    ensures
        norm_sq(trunc_div(x * len, n), trunc_div(y * len, n)) <= len * len,
        -len <= trunc_div(x * len, n) <= len,
        -len <= trunc_div(y * len, n) <= len,
{
    let a = if x >= 0 { x } else { -x };
    let b = if y >= 0 { y } else { -y };
    assert(a * a == x * x && b * b == y * y) by (nonlinear_arith)
        requires
            a == x || a == -x,
            b == y || b == -y,
    ;
    let p = lemma_rescaled_component(x, len, n);
    let q = lemma_rescaled_component(y, len, n);
    assert(n * p <= a * len);
    assert(n * q <= b * len);
    assert((n * p) * (n * p) <= (a * len) * (a * len)) by (nonlinear_arith)
        requires
            0 <= n * p <= a * len,
    ;
    assert((n * q) * (n * q) <= (b * len) * (b * len)) by (nonlinear_arith)
        requires
            0 <= n * q <= b * len,
    ;
    assert((n * n) * (p * p + q * q) == (n * p) * (n * p) + (n * q) * (n * q)) by (nonlinear_arith);
    assert((len * len) * (a * a + b * b) == (a * len) * (a * len) + (b * len) * (b * len))
        by (nonlinear_arith);
    assert((len * len) * (a * a + b * b) <= (len * len) * (n * n)) by (nonlinear_arith)
        requires
            a * a + b * b <= n * n,
    ;
    assert(p * p + q * q <= len * len) by (nonlinear_arith)
        requires
            (n * n) * (p * p + q * q) <= (len * len) * (n * n),
            n > 0,
    ;
    assert(p <= len && q <= len) by (nonlinear_arith)
        requires
            p * p + q * q <= len * len,
            p >= 0,
            q >= 0,
            len >= 0,
    ;
    let tx = trunc_div(x * len, n);
    let ty = trunc_div(y * len, n);
    assert(tx == p || tx == -p) by (nonlinear_arith)
        requires
            p >= 0,
            p * p == tx * tx,
    ;
    assert(ty == q || ty == -q) by (nonlinear_arith)
        requires
            q >= 0,
            q * q == ty * ty,
    ;
}

/// Multiplying both components by `len / n` and rounding toward zero yields
/// at least length `len - slack`, when the length before is at least `w`
/// and `slack` makes up for what `w / n` and the rounding take away.
pub proof fn lemma_ratio_lower(x: int, y: int, len: int, n: int, w: int, slack: int)
    requires
        n > 0,
        w >= 0,
        0 <= slack <= len,
        norm_sq(x, y) >= w * w,
        len * w >= n * (len - slack + 2),
    ensures
        norm_sq(trunc_div(x * len, n), trunc_div(y * len, n)) >= (len - slack) * (len - slack),
{
    let a = if x >= 0 { x } else { -x };
    let b = if y >= 0 { y } else { -y };
    assert(a * a == x * x && b * b == y * y) by (nonlinear_arith)
        requires
            a == x || a == -x,
            b == y || b == -y,
    ;
    let p = lemma_rescaled_component(x, len, n);
    let q = lemma_rescaled_component(y, len, n);
    let m = len - slack;
    let total = p * p + q * q;
    if total < m * m {
        assert(p < m && q < m) by (nonlinear_arith)
            requires
                p * p + q * q < m * m,
                p >= 0,
                q >= 0,
                m >= 0,
        ;
        assert(a * len >= 0 && b * len >= 0) by (nonlinear_arith)
            requires
                a >= 0,
                b >= 0,
                len >= 0,
        ;
        // One step more on each component overshoots the exact quotient.
        assert(n * (p + 1) == n * p + n && n * (q + 1) == n * q + n) by (nonlinear_arith);
        assert((n * (p + 1)) * (n * (p + 1)) > (a * len) * (a * len)) by (nonlinear_arith)
            requires
                0 <= a * len < n * (p + 1),
        ;
        assert((n * (q + 1)) * (n * (q + 1)) > (b * len) * (b * len)) by (nonlinear_arith)
            requires
                0 <= b * len < n * (q + 1),
        ;
        let big = (p + 1) * (p + 1) + (q + 1) * (q + 1);
        assert((n * n) * big == (n * (p + 1)) * (n * (p + 1)) + (n * (q + 1)) * (n * (q + 1)))
            by (nonlinear_arith)
            requires
                big == (p + 1) * (p + 1) + (q + 1) * (q + 1),
        ;
        assert((len * len) * (a * a + b * b) == (a * len) * (a * len) + (b * len) * (b * len))
            by (nonlinear_arith);
        assert((len * len) * (a * a + b * b) >= (len * len) * (w * w)) by (nonlinear_arith)
            requires
                a * a + b * b >= w * w,
        ;
        assert(big < (m + 2) * (m + 2)) by (nonlinear_arith)
            requires
                big == (p + 1) * (p + 1) + (q + 1) * (q + 1),
                p * p + q * q < m * m,
                0 <= p < m,
                0 <= q < m,
        ;
        assert((n * n) * big <= (n * n) * ((m + 2) * (m + 2))) by (nonlinear_arith)
            requires
                big <= (m + 2) * (m + 2),
        ;
        assert((n * (m + 2)) * (n * (m + 2)) > (len * w) * (len * w)) by (nonlinear_arith)
            requires
                (n * n) * ((m + 2) * (m + 2)) > (len * len) * (w * w),
        ;
        assert(n * (m + 2) > len * w) by (nonlinear_arith)
            requires
                (n * (m + 2)) * (n * (m + 2)) > (len * w) * (len * w),
                n > 0,
                m >= 0,
                len >= 0,
                w >= 0,
        ;
        assert(false);
    }
}

/// Rescaling never yields more than the length asked for.
pub proof fn lemma_rescaled_upper(x: int, y: int, len: int)
    requires
        x != 0 || y != 0,
        len >= 0,
    ensures
        norm_sq(rescaled(x, y, len).0, rescaled(x, y, len).1) <= len * len,
        -len <= rescaled(x, y, len).0 <= len,
        -len <= rescaled(x, y, len).1 <= len,
{
    let n = lemma_length_positive(x, y);
    lemma_ratio_upper(x, y, len, n);
}

/// Rescaling loses at most `slack` steps of the length asked for, provided the
/// length before, multiplied by `slack - 2`, reaches that length.
pub proof fn lemma_rescaled_lower(x: int, y: int, len: int, slack: int)
    requires
        x != 0 || y != 0,
        3 <= slack <= len,
        ceil_sqrt_spec(norm_sq(x, y)) * (slack - 2) >= len,
    ensures
        norm_sq(rescaled(x, y, len).0, rescaled(x, y, len).1) >= (len - slack) * (len - slack),
{
    let n = lemma_length_positive(x, y);
    assert(len * (n - 1) >= n * (len - slack + 2)) by (nonlinear_arith)
        requires
            n * (slack - 2) >= len,
    ;
    lemma_ratio_lower(x, y, len, n, n - 1, slack);
}

/// The rounded-up length of a vector other than zero is positive.
proof fn lemma_length_positive(x: int, y: int) -> (n: int)
    requires
        x != 0 || y != 0,
    ensures
        n == ceil_sqrt_spec(norm_sq(x, y)),
        is_ceil_sqrt(norm_sq(x, y), n),
        n > 0,
{
    let s = norm_sq(x, y);
    let n = ceil_sqrt_spec(s);
    lemma_ceil_sqrt_exists(s);
    assert(s > 0) by (nonlinear_arith)
        requires
            s == x * x + y * y,
            x != 0 || y != 0,
    ;
    assert(n > 0) by (nonlinear_arith)
        requires
            n >= 0,
            n * n >= s,
            s > 0,
    ;
    n
}

/// A vector of at most unit length, scaled by `k`, has at most length `k`.
pub proof fn lemma_scaled_upper(v: Vector, k: int)
    requires
        v.len2_spec() <= ONE * ONE,
        k >= 0,
    ensures
        norm_sq(fx_mul_spec(v.x as int, k), fx_mul_spec(v.y as int, k)) <= k * k,
        -k <= fx_mul_spec(v.x as int, k) <= k,
        -k <= fx_mul_spec(v.y as int, k) <= k,
{
    lemma_ratio_upper(v.x as int, v.y as int, k, ONE as int);
}

/// What scaling a unit vector by `k` may fall short of `k`: three steps, and
/// four more for each whole unit in `k`.
pub open spec fn scale_slack(k: int) -> int {
    3 + 4 * k / (ONE as int)
}

/// A vector of unit length, short by at most four steps, scaled by `k`, has
/// length `k` short by at most `scale_slack(k)`.
pub proof fn lemma_scaled_lower(v: Vector, k: int)
    requires
        v.len2_spec() >= (ONE - 4) * (ONE - 4),
        k >= scale_slack(k),
        k >= 0,
    ensures
        norm_sq(fx_mul_spec(v.x as int, k), fx_mul_spec(v.y as int, k)) >= (k - scale_slack(k)) * (
        k - scale_slack(k)),
{
    let slack = scale_slack(k);
    assert(k * (ONE - 4) >= ONE * (k - slack + 2)) by (nonlinear_arith)
        requires
            slack == 3 + 4 * k / (ONE as int),
            ONE == 60_000,
            k >= 0,
    ;
    lemma_ratio_lower(v.x as int, v.y as int, k, ONE as int, ONE - 4, slack);
}

} // verus!
