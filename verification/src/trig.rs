//! Fixed-point trigonometry on the first quadrant.
//!
//! Angles are radians and sines are ratios, both counted in units of
//! `1 / ONE`. The sine is a truncated alternating power series evaluated by
//! Horner's rule; its inverse is found by bisection on a grid of
//! `ARC_STEPS` points between zero and a right angle.
use vstd::prelude::*;

verus! {

/// The fixed-point representation of 1.
pub const ONE: u128 = 1_000_000_000_000_000_000;

/// A right angle, in radians.
pub const HALF_PI: u128 = 1_570_796_326_794_896_619;

/// Half a right angle, in radians.
pub const QUARTER_PI: u128 = 785_398_163_397_448_309;

/// Number of factors kept of each power series.
pub const TERMS: u128 = 10;

/// Number of grid steps between zero and a right angle; one step is
/// `ARC_UNIT / ONE` radians.
pub const ARC_STEPS: u64 = 1_570_796_326_794;

/// Size of one grid step, in angle units.
pub const ARC_UNIT: u128 = 1_000_000;

/// Horner form of the alternating series in `x2`, the square of the angle,
/// from factor `k` onward. With `shift == 0` the divisors are `2k(2k+1)`,
/// which gives `sin(x) / x`; with `shift == 1` they are `(2k-1)2k`, which
/// gives `cos(x)`.
pub open spec fn horner(x2: int, shift: int, k: int) -> int
    decreases TERMS + 1 - k,
{
    if k > TERMS || k < 1 {
        ONE as int
    } else {
        ONE - (x2 * horner(x2, shift, k + 1) / (ONE as int)) / ((2 * k - shift) * (2 * k - shift
            + 1))
    }
}

/// Sine of an angle between zero and a right angle. Above half a right
/// angle it is the cosine of the complement.
pub open spec fn sine_spec(theta: int) -> int {
    if theta <= QUARTER_PI {
        theta * horner(theta * theta / (ONE as int), 0, 1) / (ONE as int)
    } else {
        let c = HALF_PI - theta;
        horner(c * c / (ONE as int), 1, 1)
    }
}

/// Result of bisecting the grid points `lo..=hi` for the first one whose
/// sine reaches `s`.
pub open spec fn bisect(s: int, lo: int, hi: int) -> int
    decreases hi - lo,
{
    if lo >= hi {
        lo
    } else {
        let mid = lo + (hi - lo) / 2;
        if sine_spec(mid * ARC_UNIT) >= s {
            bisect(s, lo, mid)
        } else {
            bisect(s, mid + 1, hi)
        }
    }
}

/// Arc sine of `s` as a number of grid steps.
pub open spec fn arcsine_spec(s: int) -> int {
    bisect(s, 0, ARC_STEPS as int)
}

proof fn lemma_product_bound(a: int, b: int, la: int, lb: int)
    requires
        0 <= a <= la,
        0 <= b <= lb,
    ensures
        0 <= a * b <= la * lb,
{
    assert(0 <= a * b <= la * lb) by (nonlinear_arith)
        requires
            0 <= a <= la,
            0 <= b <= lb,
    ;
}

/// Every partial Horner value lies between zero and one.
pub proof fn lemma_horner_bounds(x2: int, shift: int, k: int)
    requires
        0 <= x2 <= ONE,
        0 <= shift <= 1,
    ensures
        0 <= horner(x2, shift, k) <= ONE,
    decreases TERMS + 1 - k,
{
    if k > TERMS || k < 1 {
    } else {
        lemma_horner_bounds(x2, shift, k + 1);
        let inner = horner(x2, shift, k + 1);
        lemma_product_bound(x2, inner, ONE as int, ONE as int);
        let p = x2 * inner / (ONE as int);
        assert(0 <= p <= ONE) by (nonlinear_arith)
            requires
                0 <= x2 * inner <= ONE * ONE,
                p == x2 * inner / (ONE as int),
        ;
        let d = (2 * k - shift) * (2 * k - shift + 1);
        assert(d >= 2) by (nonlinear_arith)
            requires
                k >= 1,
                0 <= shift <= 1,
                d == (2 * k - shift) * (2 * k - shift + 1),
        ;
        assert(0 <= p / d <= ONE) by (nonlinear_arith)
            requires
                0 <= p <= ONE,
                d >= 2,
        ;
    }
}

/// The sine of an angle in the first quadrant lies between zero and one.
pub proof fn lemma_sine_bounds(theta: int)
    requires
        0 <= theta <= HALF_PI,
    ensures
        0 <= sine_spec(theta) <= ONE,
{
    if theta <= QUARTER_PI {
        lemma_product_bound(theta, theta, QUARTER_PI as int, QUARTER_PI as int);
        let x2 = theta * theta / (ONE as int);
        assert(0 <= x2 <= ONE) by (nonlinear_arith)
            requires
                0 <= theta * theta <= QUARTER_PI * QUARTER_PI,
                x2 == theta * theta / (ONE as int),
        ;
        lemma_horner_bounds(x2, 0, 1);
        lemma_product_bound(theta, horner(x2, 0, 1), ONE as int, ONE as int);
        assert(0 <= theta * horner(x2, 0, 1) / (ONE as int) <= ONE) by (nonlinear_arith)
            requires
                0 <= theta * horner(x2, 0, 1) <= ONE * ONE,
        ;
    } else {
        let c = HALF_PI - theta;
        lemma_product_bound(c, c, QUARTER_PI as int, QUARTER_PI as int);
        let x2 = c * c / (ONE as int);
        assert(0 <= x2 <= ONE) by (nonlinear_arith)
            requires
                0 <= c * c <= QUARTER_PI * QUARTER_PI,
                x2 == c * c / (ONE as int),
        ;
        lemma_horner_bounds(x2, 1, 1);
    }
}

/// The sine of the zero angle is zero.
pub proof fn lemma_sine_of_zero()
    ensures
        sine_spec(0) == 0,
{
    assert(0 * horner(0int * 0int / (ONE as int), 0, 1) == 0) by (nonlinear_arith);
}

/// Bisection stays within the points it was given.
pub proof fn lemma_bisect_in_range(s: int, lo: int, hi: int)
    requires
        lo <= hi,
    ensures
        lo <= bisect(s, lo, hi) <= hi,
    decreases hi - lo,
{
    if lo < hi {
        let mid = lo + (hi - lo) / 2;
        if sine_spec(mid * ARC_UNIT) >= s {
            lemma_bisect_in_range(s, lo, mid);
        } else {
            lemma_bisect_in_range(s, mid + 1, hi);
        }
    }
}

/// Bisection ends where the sine first reaches `s`: at its result the sine
/// is at least `s`, unless the result is the last point, and one point
/// before it the sine is below `s`, unless the result is the first point.
pub proof fn lemma_bisect_brackets(s: int, lo: int, hi: int)
    requires
        0 <= lo <= hi <= ARC_STEPS,
        hi == ARC_STEPS || sine_spec(hi * ARC_UNIT) >= s,
        lo == 0 || sine_spec((lo - 1) * ARC_UNIT) < s,
    ensures
        bisect(s, lo, hi) == ARC_STEPS || sine_spec(bisect(s, lo, hi) * ARC_UNIT) >= s,
        bisect(s, lo, hi) == 0 || sine_spec((bisect(s, lo, hi) - 1) * ARC_UNIT) < s,
    decreases hi - lo,
{
    if lo < hi {
        let mid = lo + (hi - lo) / 2;
        if sine_spec(mid * ARC_UNIT) >= s {
            lemma_bisect_brackets(s, lo, mid);
        } else {
            lemma_bisect_brackets(s, mid + 1, hi);
        }
    }
}

/// The arc sine of `s` is a grid point at which the sine reaches `s` and
/// before which it does not, or the last grid point when the sine stays
/// below `s`.
pub proof fn lemma_arcsine_brackets(s: int)
    ensures
        0 <= arcsine_spec(s) <= ARC_STEPS,
        arcsine_spec(s) == ARC_STEPS || sine_spec(arcsine_spec(s) * ARC_UNIT) >= s,
        arcsine_spec(s) == 0 || sine_spec((arcsine_spec(s) - 1) * ARC_UNIT) < s,
{
    lemma_bisect_in_range(s, 0, ARC_STEPS as int);
    lemma_bisect_brackets(s, 0, ARC_STEPS as int);
}

/// The arc sine of zero is zero.
pub proof fn lemma_arcsine_of_zero()
    ensures
        arcsine_spec(0) == 0,
{
    lemma_bisect_from_zero(ARC_STEPS as int);
}

proof fn lemma_bisect_from_zero(hi: int)
    requires
        0 <= hi <= ARC_STEPS,
    ensures
        bisect(0, 0, hi) == 0,
    decreases hi,
{
    if 0 < hi {
        let mid = hi / 2;
        lemma_sine_bounds(mid * ARC_UNIT);
        lemma_bisect_from_zero(mid);
    }
}

/// Evaluates the alternating series in `x2` by Horner's rule.
fn alternating_series(x2: u128, shift: u128) -> (r: u128)
    requires
        x2 <= ONE,
        shift <= 1,
    ensures
        r == horner(x2 as int, shift as int, 1),
        r <= ONE,
{
    let mut acc: u128 = ONE;
    let mut k: u128 = TERMS;
    while k > 0
        invariant
            k <= TERMS,
            x2 <= ONE,
            shift <= 1,
            acc <= ONE,
            acc == horner(x2 as int, shift as int, k + 1),
        decreases k,
    {
        proof {
            lemma_product_bound(x2 as int, acc as int, ONE as int, ONE as int);
            lemma_horner_bounds(x2 as int, shift as int, k as int);
        }
        let p: u128 = x2 * acc / ONE;
        let low: u128 = 2 * k - shift;
        proof {
            lemma_product_bound(low as int, low + 1, 20, 21);
        }
        let d: u128 = low * (low + 1);
        assert(d >= 2) by (nonlinear_arith)
            requires
                low >= 1,
                d == low * (low + 1),
        ;
        acc = ONE - p / d;
        k = k - 1;
    }
    acc
}

/// Sine of `theta`, an angle between zero and a right angle.
pub fn sine(theta: u128) -> (r: u128)
    requires
        theta <= HALF_PI,
    ensures
        r == sine_spec(theta as int),
        r <= ONE,
{
    proof {
        lemma_sine_bounds(theta as int);
    }
    if theta <= QUARTER_PI {
        proof {
            lemma_product_bound(theta as int, theta as int, QUARTER_PI as int, QUARTER_PI as int);
        }
        let x2: u128 = theta * theta / ONE;
        assert(x2 <= ONE) by (nonlinear_arith)
            requires
                0 <= theta * theta <= QUARTER_PI * QUARTER_PI,
                x2 == theta * theta / (ONE as int),
        ;
        let ratio: u128 = alternating_series(x2, 0);
        proof {
            lemma_product_bound(theta as int, ratio as int, ONE as int, ONE as int);
        }
        theta * ratio / ONE
    } else {
        let c: u128 = HALF_PI - theta;
        proof {
            lemma_product_bound(c as int, c as int, QUARTER_PI as int, QUARTER_PI as int);
        }
        let x2: u128 = c * c / ONE;
        assert(x2 <= ONE) by (nonlinear_arith)
            requires
                0 <= c * c <= QUARTER_PI * QUARTER_PI,
                x2 == c * c / (ONE as int),
        ;
        alternating_series(x2, 1)
    }
}

/// Arc sine of `s` on the grid: the number of steps `r` at which the sine
/// first reaches `s` along the bisection, or `ARC_STEPS` when it never does.
pub fn arcsine(s: u128) -> (r: u64)
    requires
        s <= ONE,
    ensures
        r == arcsine_spec(s as int),
        r <= ARC_STEPS,
        r == ARC_STEPS || sine_spec(r * ARC_UNIT) >= s,
        r == 0 || sine_spec((r - 1) * ARC_UNIT) < s,
{
    proof {
        lemma_arcsine_brackets(s as int);
    }
    let mut lo: u64 = 0;
    let mut hi: u64 = ARC_STEPS;
    while lo < hi
        invariant
            lo <= hi <= ARC_STEPS,
            bisect(s as int, lo as int, hi as int) == arcsine_spec(s as int),
        decreases hi - lo,
    {
        let mid: u64 = lo + (hi - lo) / 2;
        let theta: u128 = (mid as u128) * ARC_UNIT;
        if sine(theta) >= s {
            hi = mid;
        } else {
            lo = mid + 1;
        }
    }
    lo
}

} // verus!
