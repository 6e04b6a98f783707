//! Fixed-point arithmetic in millionths.

use vstd::prelude::*;
use vstd::arithmetic::div_mod::{lemma_fundamental_div_mod, lemma_fundamental_div_mod_converse};

verus! {

/// The integer that stands for 1.0: intensities, weights, interpolation
/// factors and grid coordinates all count millionths.
pub const UNIT: i64 = 1_000_000;

/// The value in the closed range between the two bounds that lies nearest to
/// `n`. The bounds may come in either order.
pub open spec fn clamped(n: int, start: int, end: int) -> int {
    if start <= end {
        if n < start {
            start
        } else if n > end {
            end
        } else {
            n
        }
    } else {
        if n < end {
            end
        } else if n > start {
            start
        } else {
            n
        }
    }
}

/// Restricts `n` to the closed range between `start` and `end`.
pub fn clamp(n: i64, start: i64, end: i64) -> (r: i64)
    ensures
        r == clamped(n as int, start as int, end as int),
{
    if start <= end {
        if n < start {
            start
        } else if n > end {
            end
        } else {
            n
        }
    } else {
        if n < end {
            end
        } else if n > start {
            start
        } else {
            n
        }
    }
}

/// A clamped value lies between the bounds, and a value that already lies
/// between them is left alone.
pub proof fn lemma_clamped_range(n: int, lo: int, hi: int)
    requires
        lo <= hi,
    ensures
        lo <= clamped(n, lo, hi) <= hi,
        lo <= n <= hi ==> clamped(n, lo, hi) == n,
        clamped(clamped(n, lo, hi), lo, hi) == clamped(n, lo, hi),
{
}

/// Division that rounds towards zero, for a positive divisor.
pub open spec fn quotient(a: int, b: int) -> int {
    if a >= 0 {
        a / b
    } else {
        -((-a) / b)
    }
}

/// Rounding down and rounding towards zero differ by one step exactly when a
/// negative number leaves a remainder.
pub proof fn lemma_floor_of_negative(a: int, d: int)
    requires
        d > 0,
    ensures
        a < 0 && (-a) % d == 0 ==> a / d == -((-a) / d) && a % d == 0,
        a < 0 && (-a) % d != 0 ==> a / d == -((-a) / d) - 1 && a % d == d - (-a) % d,
        a >= 0 ==> quotient(a, d) == a / d,
        a < 0 && (-a) % d == 0 ==> quotient(a, d) == a / d,
        a < 0 && (-a) % d != 0 ==> quotient(a, d) == a / d + 1,
{
    if a < 0 {
        let n: int = -a;
        lemma_fundamental_div_mod(n, d);
        if n % d == 0 {
            assert(a == (-(n / d)) * d + 0) by (nonlinear_arith)
                requires
                    n == d * (n / d) + n % d,
                    n % d == 0,
                    a == -n,
            ;
            lemma_fundamental_div_mod_converse(a, d, -(n / d), 0);
        } else {
            assert(a == (-(n / d) - 1) * d + (d - n % d)) by (nonlinear_arith)
                requires
                    n == d * (n / d) + n % d,
                    a == -n,
            ;
            lemma_fundamental_div_mod_converse(a, d, -(n / d) - 1, d - n % d);
        }
    }
}

/// Division that rounds towards negative infinity, for a positive divisor.
pub fn floor_div(a: i64, b: i64) -> (r: i64)
    requires
        b > 0,
    ensures
        r == a as int / b as int,
{
    let q: i64 = a / b;
    let t: i64 = a % b;
    proof {
        lemma_floor_of_negative(a as int, b as int);
        if t < 0 {
            let n: int = -(a as int);
            assert(n / (b as int) <= 0x4000_0000_0000_0000) by (nonlinear_arith)
                requires
                    0 <= n <= 0x8000_0000_0000_0000,
                    b >= 2,
            ;
        }
    }
    if t < 0 {
        q - 1
    } else {
        q
    }
}

/// The remainder in `0..m` of any integer by a positive modulus.
pub fn floor_mod(a: i64, m: i64) -> (r: i64)
    requires
        m > 0,
    ensures
        r == a as int % m as int,
        0 <= r < m,
{
    let t: i64 = a % m;
    proof {
        lemma_floor_of_negative(a as int, m as int);
    }
    if t < 0 {
        t + m
    } else {
        t
    }
}

/// The point a fraction `t` of the way from `a` to `b`, the two ends weighted
/// by `UNIT - t` and `t`.
pub open spec fn lerped(a: int, b: int, t: int) -> int {
    quotient(a * (UNIT - t) + b * t, UNIT as int)
}

/// The largest magnitude that `lerp` accepts for its two ends.
pub const SPAN: i64 = 1_000_000_000_000;

/// Interpolates linearly between `a` (at `t == 0`) and `b` (at `t == UNIT`).
pub fn lerp(a: i64, b: i64, t: i64) -> (r: i64)
    requires
        -SPAN <= a <= SPAN,
        -SPAN <= b <= SPAN,
        0 <= t <= UNIT,
    ensures
        r == lerped(a as int, b as int, t as int),
{
    let keep: i64 = UNIT - t;
    assert(-1_000_000_000_000_000_000 <= a * keep + b * t <= 1_000_000_000_000_000_000)
        by (nonlinear_arith)
        requires
            -1_000_000_000_000 <= a <= 1_000_000_000_000,
            -1_000_000_000_000 <= b <= 1_000_000_000_000,
            0 <= t <= 1_000_000,
            keep == 1_000_000 - t,
    ;
    assert(-1_000_000_000_000_000_000 <= a * keep <= 1_000_000_000_000_000_000)
        by (nonlinear_arith)
        requires
            -1_000_000_000_000 <= a <= 1_000_000_000_000,
            0 <= keep <= 1_000_000,
    ;
    assert(-1_000_000_000_000_000_000 <= b * t <= 1_000_000_000_000_000_000)
        by (nonlinear_arith)
        requires
            -1_000_000_000_000 <= b <= 1_000_000_000_000,
            0 <= t <= 1_000_000,
    ;
    (a * keep + b * t) / UNIT
}

/// An interpolated value lies between the two ends, and between two equal
/// ends it is that end.
pub proof fn lemma_lerped_between(a: int, b: int, t: int, lo: int, hi: int)
    requires
        0 <= t <= UNIT,
        lo <= a <= hi,
        lo <= b <= hi,
    ensures
        lo <= lerped(a, b, t) <= hi,
        a == b ==> lerped(a, b, t) == a,
        lerped(a, b, 0) == a,
        lerped(a, b, UNIT as int) == b,
{
    let u: int = UNIT as int;
    let n: int = a * (u - t) + b * t;
    assert(lo * u <= n <= hi * u) by (nonlinear_arith)
        requires
            0 <= t <= u,
            lo <= a <= hi,
            lo <= b <= hi,
            n == a * (u - t) + b * t,
    ;
    lemma_quotient_between(n, u, lo, hi);
    if a == b {
        assert(n == a * u) by (nonlinear_arith)
            requires
                n == a * (u - t) + b * t,
                a == b,
        ;
        lemma_quotient_between(n, u, a, a);
    }
    lemma_quotient_between(a * (u - 0) + b * 0, u, a, a);
    assert(a * (u - u) + b * u == b * u) by (nonlinear_arith);
    lemma_quotient_between(a * (u - u) + b * u, u, b, b);
}

/// A number between two multiples of `d` has its quotient between the two
/// factors.
pub proof fn lemma_quotient_between(n: int, d: int, lo: int, hi: int)
    requires
        d > 0,
        lo * d <= n <= hi * d,
    ensures
        lo <= quotient(n, d) <= hi,
{
    if n >= 0 {
        assert(lo <= n / d <= hi) by (nonlinear_arith)
            requires
                d > 0,
                lo * d <= n <= hi * d,
        ;
    } else {
        let m: int = -n;
        assert((-hi) <= m / d <= (-lo)) by (nonlinear_arith)
            requires
                d > 0,
                m == -n,
                lo * d <= n <= hi * d,
        ;
    }
}

/// The image of `val` under the straight line that takes `in_min` to
/// `out_min` and `in_max` to `out_max`. Values outside the input range land
/// outside the output range.
pub open spec fn mapped(val: int, in_min: int, in_max: int, out_min: int, out_max: int) -> int {
    out_min + quotient((val - in_min) * (out_max - out_min), in_max - in_min)
}

/// Whether `map_range` can compute the image within 64 bits.
pub open spec fn mappable(val: int, in_min: int, in_max: int, out_min: int, out_max: int) -> bool {
    &&& in_min < in_max
    &&& i64::MIN < val - in_min <= i64::MAX
    &&& i64::MIN < out_max - out_min <= i64::MAX
    &&& in_max - in_min <= i64::MAX
    &&& i64::MIN < (val - in_min) * (out_max - out_min) <= i64::MAX
    &&& i64::MIN <= mapped(val, in_min, in_max, out_min, out_max) <= i64::MAX
}

/// Maps a value from an input range to an output range.
pub fn map_range(val: i64, in_min: i64, in_max: i64, out_min: i64, out_max: i64) -> (r: i64)
    requires
        mappable(val as int, in_min as int, in_max as int, out_min as int, out_max as int),
    ensures
        r == mapped(val as int, in_min as int, in_max as int, out_min as int, out_max as int),
{
    let rise: i64 = out_max - out_min;
    let run: i64 = in_max - in_min;
    let offset: i64 = val - in_min;
    out_min + (offset * rise) / run
}

/// A value inside the input range is mapped inside the output range, and the
/// ends of the one are mapped to the ends of the other.
pub proof fn lemma_mapped_between(val: int, in_min: int, in_max: int, out_min: int, out_max: int)
    requires
        in_min <= val <= in_max,
        in_min < in_max,
        out_min <= out_max,
    ensures
        out_min <= mapped(val, in_min, in_max, out_min, out_max) <= out_max,
        mapped(in_min, in_min, in_max, out_min, out_max) == out_min,
        mapped(in_max, in_min, in_max, out_min, out_max) == out_max,
{
    let run: int = in_max - in_min;
    let rise: int = out_max - out_min;
    assert(0 * run <= (val - in_min) * rise <= rise * run) by (nonlinear_arith)
        requires
            0 <= val - in_min <= run,
            0 <= rise,
    ;
    lemma_quotient_between((val - in_min) * rise, run, 0, rise);
    assert((in_min - in_min) * rise == 0 * run) by (nonlinear_arith);
    lemma_quotient_between((in_min - in_min) * rise, run, 0, 0);
    assert((in_max - in_min) * rise == rise * run) by (nonlinear_arith)
        requires
            run == in_max - in_min,
    ;
    lemma_quotient_between((in_max - in_min) * rise, run, rise, rise);
}

} // verus!
