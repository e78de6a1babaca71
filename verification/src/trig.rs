//! Headings: from an angle in fixed-point radians to a vector of unit length.
//!
//! Angle 0 points up (`+y`) and angles grow clockwise, so the heading of an
//! angle is its sine on `x` and its cosine on `y`. Both come from truncated
//! power series on the first quadrant; the pair is then brought to unit length.

use vstd::prelude::*;
use crate::fixed::{ONE, ceil_sqrt_spec, is_ceil_sqrt, lemma_ceil_sqrt_exists, lemma_ceil_sqrt_is};
use crate::vector::{Vector, lemma_rescaled_lower, lemma_rescaled_upper, norm_sq, rescaled};

verus! {

/// A quarter turn.
pub const HALF_PI: i64 = 94_248;

/// A half turn.
pub const PI: i64 = 188_496;

/// Three quarters of a turn.
pub const THREE_HALF_PI: i64 = 282_743;

/// A full turn.
pub const TWO_PI: i64 = 376_991;

/// One factor of a power series in nested form: `1 - x2 * t / d`.
pub open spec fn series_step(x2: int, t: int, d: int) -> int {
    ONE - (x2 * t / (ONE as int)) / d
}

/// The sine series up to the ninth power, for `x` in the first quadrant.
pub open spec fn sin_series(x: int) -> int {
    let x2 = x * x / (ONE as int);
    let t4 = series_step(x2, ONE as int, 72);
    let t3 = series_step(x2, t4, 42);
    let t2 = series_step(x2, t3, 20);
    let t1 = series_step(x2, t2, 6);
    x * t1 / (ONE as int)
}

/// The cosine series up to the eighth power, for `x` in the first quadrant.
pub open spec fn cos_series(x: int) -> int {
    let x2 = x * x / (ONE as int);
    let t4 = series_step(x2, ONE as int, 56);
    let t3 = series_step(x2, t4, 30);
    let t2 = series_step(x2, t3, 12);
    series_step(x2, t2, 2)
}

/// Sine and cosine of `angle` before they are brought to unit length: the
/// angle is reduced to one turn, folded into the first quadrant, and the
/// signs of its quadrant are put back.
pub open spec fn raw_heading(angle: int) -> (int, int) {
    let a = angle % (TWO_PI as int);
    if a <= HALF_PI {
        (sin_series(a), cos_series(a))
    } else if a <= PI {
        (sin_series(PI - a), -cos_series(PI - a))
    } else if a <= THREE_HALF_PI {
        (-sin_series(a - PI), -cos_series(a - PI))
    } else {
        (-sin_series(TWO_PI - a), cos_series(TWO_PI - a))
    }
}

/// The heading of `angle`: `(sin, cos)` of it, at unit length up to rounding.
pub open spec fn vec_from_angle_spec(angle: int) -> Vector {
    let raw = raw_heading(angle);
    let unit = rescaled(raw.0, raw.1, ONE as int);
    Vector { x: unit.0 as i64, y: unit.1 as i64 }
}

/// A factor of the series stays between `1 - x2 / d` and 1.
proof fn lemma_series_step(x2: int, t: int, d: int)
    requires
        0 <= x2 <= 148_100,
        0 <= t <= ONE,
        d >= 1,
    ensures
        ONE - x2 / d <= series_step(x2, t, d) <= ONE,
{
    assert(0 <= x2 * t <= x2 * ONE) by (nonlinear_arith)
        requires
            0 <= x2,
            0 <= t <= ONE,
    ;
    let m = x2 * t / (ONE as int);
    assert(0 <= m <= x2);
    assert(0 <= m / d <= x2 / d) by (nonlinear_arith)
        requires
            0 <= m <= x2,
            d >= 1,
    ;
}

/// On the first quadrant the two series are bounded, and one of them is at
/// least a half.
proof fn lemma_series_bounds(x: int)
    requires
        0 <= x <= HALF_PI,
    ensures
        0 <= sin_series(x) <= x,
        -ONE <= cos_series(x) <= ONE,
        sin_series(x) >= 30_000 || cos_series(x) >= 30_000,
{
    assert(0 <= x * x <= 94_248 * 94_248) by (nonlinear_arith)
        requires
            0 <= x <= 94_248,
    ;
    let x2 = x * x / (ONE as int);
    assert(0 <= x2 <= 148_100);
    let s4 = series_step(x2, ONE as int, 72);
    lemma_series_step(x2, ONE as int, 72);
    let s3 = series_step(x2, s4, 42);
    lemma_series_step(x2, s4, 42);
    let s2 = series_step(x2, s3, 20);
    lemma_series_step(x2, s3, 20);
    let s1 = series_step(x2, s2, 6);
    lemma_series_step(x2, s2, 6);
    assert(35_000 <= s1 <= ONE);
    assert(0 <= x * s1 <= x * ONE) by (nonlinear_arith)
        requires
            0 <= x,
            0 <= s1 <= ONE,
    ;
    let c4 = series_step(x2, ONE as int, 56);
    lemma_series_step(x2, ONE as int, 56);
    let c3 = series_step(x2, c4, 30);
    lemma_series_step(x2, c4, 30);
    let c2 = series_step(x2, c3, 12);
    lemma_series_step(x2, c3, 12);
    lemma_series_step(x2, c2, 2);
    if x <= ONE {
        assert(x * x <= ONE * ONE) by (nonlinear_arith)
            requires
                0 <= x <= ONE,
        ;
        assert(x2 <= ONE);
        assert(cos_series(x) >= 30_000);
    } else {
        assert(x * s1 >= ONE * s1) by (nonlinear_arith)
            requires
                x >= ONE,
                s1 >= 0,
        ;
        assert(sin_series(x) >= 30_000);
    }
}

/// The raw heading is bounded and far from the origin.
proof fn lemma_raw_heading(angle: int)
    ensures
        -HALF_PI <= raw_heading(angle).0 <= HALF_PI,
        -ONE <= raw_heading(angle).1 <= ONE,
        norm_sq(raw_heading(angle).0, raw_heading(angle).1) >= 30_000 * 30_000,
        ceil_sqrt_spec(norm_sq(raw_heading(angle).0, raw_heading(angle).1)) >= 30_000,
{
    let a = angle % (TWO_PI as int);
    let x = if a <= HALF_PI {
        a
    } else if a <= PI {
        PI - a
    } else if a <= THREE_HALF_PI {
        a - PI
    } else {
        TWO_PI - a
    };
    lemma_series_bounds(x);
    let s = raw_heading(angle).0;
    let c = raw_heading(angle).1;
    assert(s == sin_series(x) || s == -sin_series(x));
    assert(c == cos_series(x) || c == -cos_series(x));
    assert(s * s + c * c >= 30_000 * 30_000) by (nonlinear_arith)
        requires
            s >= 30_000 || s <= -30_000 || c >= 30_000 || c <= -30_000,
    ;
    let n = ceil_sqrt_spec(norm_sq(s, c));
    lemma_ceil_sqrt_exists(norm_sq(s, c));
    assert(n >= 30_000) by (nonlinear_arith)
        requires
            n >= 0,
            n * n >= 30_000 * 30_000,
    ;
}

/// Angle 0 points straight up, half a turn points straight down, and a full
/// turn more or less changes no heading.
pub proof fn lemma_heading_up_and_down(angle: int, turns: int)
    ensures
        vec_from_angle_spec(0) == (Vector { x: 0, y: ONE }),
        vec_from_angle_spec(PI as int) == (Vector { x: 0, y: (-ONE) as i64 }),
        vec_from_angle_spec(angle + turns * TWO_PI) == vec_from_angle_spec(angle),
{
    assert(sin_series(0) == 0 && cos_series(0) == ONE) by {
        assert(0int * 0int == 0) by (nonlinear_arith);
        assert(series_step(0, ONE as int, 72) == ONE);
        assert(series_step(0, ONE as int, 56) == ONE);
        assert(0int * (ONE as int) == 0) by (nonlinear_arith);
    }
    assert(raw_heading(0) == (0int, ONE as int));
    assert(raw_heading(PI as int) == (0int, -(ONE as int)));
    assert(norm_sq(0, ONE as int) == 3_600_000_000 && norm_sq(0, -(ONE as int)) == 3_600_000_000)
        by (nonlinear_arith)
        requires
            ONE == 60_000,
    ;
    assert(is_ceil_sqrt(3_600_000_000, ONE as int)) by (nonlinear_arith)
        requires
            ONE == 60_000,
    ;
    lemma_ceil_sqrt_is(3_600_000_000, ONE as int);
    assert(0int * (ONE as int) == 0 && ONE * ONE == 3_600_000_000 && (-ONE) * ONE == -3_600_000_000)
        by (nonlinear_arith)
        requires
            ONE == 60_000,
    ;
    assert((angle + turns * TWO_PI) % (TWO_PI as int) == angle % (TWO_PI as int)) by {
        vstd::arithmetic::div_mod::lemma_mod_multiples_vanish(turns, angle, TWO_PI as int);
    }
}

/// Every heading has unit length, short by at most four fixed-point steps.
pub proof fn lemma_heading_is_unit(angle: int)
    ensures
        (ONE - 4) * (ONE - 4) <= vec_from_angle_spec(angle).len2_spec() <= ONE * ONE,
        vec_from_angle_spec(angle).within(ONE as int),
{
    let raw = raw_heading(angle);
    lemma_raw_heading(angle);
    assert(raw.0 != 0 || raw.1 != 0) by (nonlinear_arith)
        requires
            raw.0 * raw.0 + raw.1 * raw.1 >= 30_000 * 30_000,
    ;
    lemma_rescaled_upper(raw.0, raw.1, ONE as int);
    lemma_rescaled_lower(raw.0, raw.1, ONE as int, 4);
}

/// One factor of a power series in nested form.
fn series_factor(x2: i64, t: i64, d: i64) -> (r: i64)
    requires
        0 <= x2 <= 148_100,
        0 <= t <= ONE,
        d >= 1,
    ensures
        r == series_step(x2 as int, t as int, d as int),
        ONE - x2 / d <= r <= ONE,
{
    proof {
        lemma_series_step(x2 as int, t as int, d as int);
        assert(0 <= x2 * t <= 148_100 * 60_000) by (nonlinear_arith)
            requires
                0 <= x2 <= 148_100,
                0 <= t <= 60_000,
        ;
    }
    ONE - (x2 * t / ONE) / d
}

/// Sine and cosine series of an angle of the first quadrant.
fn quadrant_series(x: i64) -> (r: (i64, i64))
    requires
        0 <= x <= HALF_PI,
    ensures
        r.0 == sin_series(x as int),
        r.1 == cos_series(x as int),
        0 <= r.0 <= x,
        -ONE <= r.1 <= ONE,
{
    proof {
        lemma_series_bounds(x as int);
        assert(0 <= x * x <= 94_248 * 94_248) by (nonlinear_arith)
            requires
                0 <= x <= 94_248,
        ;
    }
    let x2: i64 = x * x / ONE;
    let s4: i64 = series_factor(x2, ONE, 72);
    let s3: i64 = series_factor(x2, s4, 42);
    let s2: i64 = series_factor(x2, s3, 20);
    let s1: i64 = series_factor(x2, s2, 6);
    let c4: i64 = series_factor(x2, ONE, 56);
    let c3: i64 = series_factor(x2, c4, 30);
    let c2: i64 = series_factor(x2, c3, 12);
    let c1: i64 = series_factor(x2, c2, 2);
    assert(0 <= x * s1 <= 94_248 * 60_000) by (nonlinear_arith)
        requires
            0 <= x <= 94_248,
            0 <= s1 <= 60_000,
    ;
    (x * s1 / ONE, c1)
}

/// The heading of `angle`: `(sin, cos)` of it, at unit length up to rounding.
pub fn vec_from_angle(angle: i64) -> (v: Vector)
    ensures
        v == vec_from_angle_spec(angle as int),
        (ONE - 4) * (ONE - 4) <= v.len2_spec() <= ONE * ONE,
        v.within(ONE as int),
{
    let t: i64 = angle % TWO_PI;
    let a: i64 = if t < 0 { t + TWO_PI } else { t };
    assert(a == (angle as int) % (TWO_PI as int));
    let raw = if a <= HALF_PI {
        let r = quadrant_series(a);
        Vector { x: r.0, y: r.1 }
    } else if a <= PI {
        let r = quadrant_series(PI - a);
        Vector { x: r.0, y: -r.1 }
    } else if a <= THREE_HALF_PI {
        let r = quadrant_series(a - PI);
        Vector { x: -r.0, y: -r.1 }
    } else {
        let r = quadrant_series(TWO_PI - a);
        Vector { x: -r.0, y: r.1 }
    };
    proof {
        assert(raw.x == raw_heading(angle as int).0);
        assert(raw.y == raw_heading(angle as int).1);
        lemma_raw_heading(angle as int);
        assert(raw.x != 0 || raw.y != 0) by (nonlinear_arith)
            requires
                raw.x * raw.x + raw.y * raw.y >= 30_000 * 30_000,
        ;
        lemma_heading_is_unit(angle as int);
    }
    raw.with_len(ONE)
}

} // verus!
