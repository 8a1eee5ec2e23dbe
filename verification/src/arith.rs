//! Integer helpers shared by the geometric computations: floor division of
//! signed numbers and the integer square root.
use vstd::prelude::*;

verus! {

/// `r` is the largest integer whose square does not exceed `x`.
pub open spec fn is_floor_sqrt(x: int, r: int) -> bool {
    r >= 0 && r * r <= x && x < (r + 1) * (r + 1)
}

/// The floor square root of a non-negative `x`.
pub open spec fn floor_sqrt(x: int) -> int {
    choose|r: int| is_floor_sqrt(x, r)
}

/// At most one integer is the floor square root of `x`.
pub proof fn lemma_floor_sqrt_unique(x: int, a: int, b: int)
    requires
        is_floor_sqrt(x, a),
        is_floor_sqrt(x, b),
    ensures
        a == b,
{
    if a < b {
        assert((a + 1) * (a + 1) <= b * b) by (nonlinear_arith)
            requires
                0 <= a,
                a + 1 <= b,
        ;
    } else if b < a {
        assert((b + 1) * (b + 1) <= a * a) by (nonlinear_arith)
            requires
                0 <= b,
                b + 1 <= a,
        ;
    }
}

/// Every non-negative integer has a floor square root, and `floor_sqrt`
/// names it.
pub proof fn lemma_floor_sqrt_exists(x: int)
    requires
        x >= 0,
    ensures
        is_floor_sqrt(x, floor_sqrt(x)),
    decreases x,
{
    if x == 0 {
        assert(is_floor_sqrt(0, 0));
    } else {
        lemma_floor_sqrt_exists(x - 1);
        let r = floor_sqrt(x - 1);
        if x < (r + 1) * (r + 1) {
            assert(is_floor_sqrt(x, r));
        } else {
            assert((r + 1) * (r + 1) < (r + 2) * (r + 2)) by (nonlinear_arith)
                requires
                    r >= 0,
            ;
            assert(is_floor_sqrt(x, r + 1));
        }
    }
}

/// The floor square root of a square is its non-negative root.
pub proof fn lemma_floor_sqrt_of_square(v: int)
    requires
        v >= 0,
    ensures
        floor_sqrt(v * v) == v,
{
    assert(v * v < (v + 1) * (v + 1)) by (nonlinear_arith)
        requires
            v >= 0,
    ;
    assert(is_floor_sqrt(v * v, v));
    lemma_floor_sqrt_unique(v * v, v, floor_sqrt(v * v));
}

/// Integer square root, rounded down.
pub fn isqrt(x: u128) -> (r: u64)
    ensures
        is_floor_sqrt(x as int, r as int),
        r == floor_sqrt(x as int),
{
    let mut lo: u128 = 0;
    let mut hi: u128 = 0x1_0000_0000_0000_0000;
    assert(0x1_0000_0000_0000_0000int * 0x1_0000_0000_0000_0000int > x) by (nonlinear_arith)
        requires
            x <= u128::MAX,
    ;
    while hi - lo > 1
        invariant
            lo < hi <= 0x1_0000_0000_0000_0000,
            lo * lo <= x,
            x < hi * hi,
        decreases hi - lo,
    {
        let mid: u128 = lo + (hi - lo) / 2;
        assert(mid * mid <= 0xffff_ffff_ffff_ffffint * 0xffff_ffff_ffff_ffffint) by (nonlinear_arith)
            requires
                0 <= mid <= 0xffff_ffff_ffff_ffff,
        ;
        if mid * mid <= x {
            lo = mid;
        } else {
            hi = mid;
        }
    }
    proof {
        assert(is_floor_sqrt(x as int, lo as int));
        lemma_floor_sqrt_unique(x as int, lo as int, floor_sqrt(x as int));
    }
    lo as u64
}

/// Quotient of `n` by a positive `d`, rounded toward negative infinity.
pub fn floor_div(n: i128, d: i128) -> (q: i128)
    requires
        d > 0,
    ensures
        q == n / d,
{
    if n >= 0 {
        n / d
    } else {
        let m: i128 = -(n + 1);
        proof {
            lemma_quotient_below_zero(m as int, d as int);
        }
        -(m / d) - 1
    }
}

/// Floor division of a negative number, `-m - 1`, in terms of the division
/// of the non-negative `m`.
pub proof fn lemma_quotient_below_zero(m: int, d: int)
    requires
        m >= 0,
        d > 0,
    ensures
        (-m - 1) / d == -(m / d) - 1,
{
    let q = m / d;
    let r = m % d;
    assert(m == d * q + r && 0 <= r < d) by (nonlinear_arith)
        requires
            q == m / d,
            r == m % d,
            d > 0,
    ;
    assert((-m - 1) / d == -q - 1) by (nonlinear_arith)
        requires
            m == d * q + r,
            0 <= r < d,
    ;
}

} // verus!
