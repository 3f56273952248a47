//! Q16.16 fixed-point arithmetic helpers shared by the whole signal path.
//!
//! A signal value of 1.0 is represented by [`UNIT`] = 65536.  Division in the
//! signal path truncates toward zero (like the hardware would); [`tdiv`] gives
//! that operation an exact mathematical definition, [`tdiv_s`].

use vstd::prelude::*;
use vstd::arithmetic::div_mod::{
    lemma_div_pos_is_pos, lemma_div_is_ordered, lemma_div_nonincreasing,
    lemma_div_multiples_vanish, lemma_fundamental_div_mod_converse, lemma_mod_bound,
};

verus! {

/// 1.0 in Q16.16 fixed point.
pub const UNIT: i64 = 65536;

/// 0.5 in Q16.16 fixed point.
pub const HALF_UNIT: i64 = 32768;

/// 0.25 in Q16.16 fixed point.
pub const QUARTER_UNIT: i64 = 16384;

/// Saturation bound of the signal path: 4096.0 in Q16.16.  Filter feedback can
/// grow without bound for unstable settings, so every produced sample is
/// clamped into `[-SAMPLE_LIMIT, SAMPLE_LIMIT]`.
pub const SAMPLE_LIMIT: i64 = 268435456;

/// Truncating division (round toward zero), the semantics of every division
/// in the signal path.  Meaningful for `d >= 1`.
pub open spec fn tdiv_s(n: int, d: int) -> int {
    if n >= 0 {
        n / d
    } else {
        -((-n) / d)
    }
}

/// Clamp `x` into `[lo, hi]`.
pub open spec fn clamp_s(x: int, lo: int, hi: int) -> int {
    if x < lo {
        lo
    } else if x > hi {
        hi
    } else {
        x
    }
}

/// `x` lies within `[-b, b]`.
pub open spec fn within(x: int, b: int) -> bool {
    -b <= x <= b
}

/// Truncating division on machine integers, with [`tdiv_s`] as its meaning.
pub fn tdiv(n: i64, d: i64) -> (q: i64)
    requires
        1 <= d,
        i64::MIN < n,
    ensures
        q == tdiv_s(n as int, d as int),
{
    if n >= 0 {
        let un: u64 = n as u64;
        let ud: u64 = d as u64;
        let q: u64 = un / ud;
        proof {
            lemma_div_pos_is_pos(un as int, ud as int);
            lemma_div_nonincreasing(un as int, ud as int);
        }
        q as i64
    } else {
        let um: u64 = (-n) as u64;
        let ud: u64 = d as u64;
        let q: u64 = um / ud;
        proof {
            lemma_div_pos_is_pos(um as int, ud as int);
            lemma_div_nonincreasing(um as int, ud as int);
        }
        -(q as i64)
    }
}

/// The truncating quotient lies within `[-(b / d), b / d]` whenever the
/// numerator lies within `[-b, b]`.
pub proof fn lemma_tdiv_in_range(n: int, b: int, d: int)
    requires
        1 <= d,
        0 <= b,
        within(n, b),
    ensures
        within(tdiv_s(n, d), b / d),
        within(tdiv_s(n, d), b),
{
    lemma_div_pos_is_pos(b, d);
    lemma_div_nonincreasing(b, d);
    if n >= 0 {
        lemma_div_pos_is_pos(n, d);
        lemma_div_is_ordered(n, b, d);
    } else {
        lemma_div_pos_is_pos(-n, d);
        lemma_div_is_ordered(-n, b, d);
    }
}

/// Truncating division is exact on multiples: `(a * d) / d == a`.
pub proof fn lemma_tdiv_exact(a: int, d: int)
    requires
        1 <= d,
    ensures
        tdiv_s(a * d, d) == a,
{
    if a >= 0 {
        assert(a * d >= 0) by (nonlinear_arith)
            requires 0 <= a && 1 <= d;
        lemma_div_multiples_vanish(a, d);
        assert(d * a == a * d) by (nonlinear_arith);
        assert((a * d) / d == a);
    } else {
        assert(a * d < 0) by (nonlinear_arith)
            requires a < 0 && 1 <= d;
        lemma_div_multiples_vanish(-a, d);
        assert(d * (-a) == -(a * d)) by (nonlinear_arith);
        assert((-(a * d)) / d == -a);
    }
}

/// Euclidean remainder on machine integers: the result is always in `[0, d)`.
pub fn emod(n: i64, d: i64) -> (r: i64)
    requires
        1 <= d,
        i64::MIN < n,
    ensures
        r == (n as int) % (d as int),
        0 <= r < d,
{
    proof {
        lemma_mod_bound(n as int, d as int);
    }
    if n >= 0 {
        let un: u64 = n as u64;
        let ud: u64 = d as u64;
        (un % ud) as i64
    } else {
        let um: u64 = (-n) as u64;
        let ud: u64 = d as u64;
        let m: u64 = um % ud;
        let q: u64 = um / ud;
        if m == 0 {
            proof {
                let qq = (um as int) / (ud as int);
                assert(um == (ud as int) * qq) by {
                    vstd::arithmetic::div_mod::lemma_fundamental_div_mod(um as int, ud as int);
                }
                assert((n as int) == (-qq) * (d as int) + 0) by (nonlinear_arith)
                    requires (um as int) == (ud as int) * qq && (n as int) == -(um as int)
                        && (ud as int) == (d as int);
                lemma_fundamental_div_mod_converse(n as int, d as int, -qq, 0);
            }
            0
        } else {
            proof {
                let qq = (um as int) / (ud as int);
                let mm = (um as int) % (ud as int);
                vstd::arithmetic::div_mod::lemma_fundamental_div_mod(um as int, ud as int);
                assert((n as int) == (-qq - 1) * (d as int) + ((d as int) - mm))
                    by (nonlinear_arith)
                    requires (um as int) == (ud as int) * qq + mm && (n as int) == -(um as int)
                        && (ud as int) == (d as int);
                lemma_fundamental_div_mod_converse(
                    n as int, d as int, -qq - 1, (d as int) - mm);
            }
            d - (m as i64)
        }
    }
}

/// Clamp on machine integers.
pub fn clamp(x: i64, lo: i64, hi: i64) -> (r: i64)
    requires
        lo <= hi,
    ensures
        r == clamp_s(x as int, lo as int, hi as int),
        lo <= r <= hi,
{
    if x < lo {
        lo
    } else if x > hi {
        hi
    } else {
        x
    }
}

/// The integer square root: the largest `r` with `r * r <= x`.
pub open spec fn is_isqrt(x: int, r: int) -> bool {
    &&& 0 <= r
    &&& r * r <= x
    &&& x < (r + 1) * (r + 1)
}

/// Integer square root by bisection.
pub fn isqrt(x: u64) -> (r: u64)
    ensures
        is_isqrt(x as int, r as int),
{
    if x == 0 {
        return 0;
    }
    let mut lo: u64 = 0;
    let mut hi: u64 = 4294967296;
    proof {
        assert((hi as int) * (hi as int) > x as int) by (nonlinear_arith)
            requires hi == 4294967296 && x <= u64::MAX;
    }
    while lo + 1 < hi
        invariant
            0 <= lo < hi <= 4294967296,
            (lo as int) * (lo as int) <= x as int,
            x < (hi as int) * (hi as int),
        decreases hi - lo,
    {
        let mid: u64 = lo + (hi - lo) / 2;
        proof {
            assert((mid as int) * (mid as int) <= 0x1_0000_0000_0000_0000) by (nonlinear_arith)
                requires 0 <= mid <= 4294967296;
        }
        let sq: u128 = (mid as u128) * (mid as u128);
        if sq <= x as u128 {
            lo = mid;
        } else {
            hi = mid;
        }
    }
    lo
}

/// The integer square root as a spec-level value.
pub open spec fn isqrt_s(x: int) -> int {
    choose|r: int| is_isqrt(x, r)
}

/// Enlarging the denominator cannot enlarge the quotient: if the numerator
/// lies within `b * dmin` and the denominator is at least `dmin`, the
/// quotient lies within `b`.
pub proof fn lemma_tdiv_denom(n: int, b: int, d: int, dmin: int)
    requires
        1 <= dmin <= d,
        0 <= b,
        within(n, b * dmin),
    ensures
        within(tdiv_s(n, d), b),
{
    assert(0 <= b * dmin) by (nonlinear_arith)
        requires 0 <= b && 0 <= dmin;
    let m = if n >= 0 { n } else { -n };
    lemma_div_pos_is_pos(m, d);
    vstd::arithmetic::div_mod::lemma_div_is_ordered_by_denominator(m, dmin, d);
    lemma_div_is_ordered(m, b * dmin, dmin);
    lemma_div_multiples_vanish(b, dmin);
    assert(b * dmin == dmin * b) by (nonlinear_arith);
}

/// Every nonnegative integer has an integer square root, so the spec-level
/// value [`isqrt_s`] satisfies [`is_isqrt`].
pub proof fn lemma_isqrt_exists(x: int)
    requires
        0 <= x,
    ensures
        is_isqrt(x, isqrt_s(x)),
    decreases x,
{
    if x == 0 {
        assert(is_isqrt(0, 0));
    } else {
        lemma_isqrt_exists(x - 1);
        let r = isqrt_s(x - 1);
        if (r + 1) * (r + 1) <= x {
            assert(x < (r + 2) * (r + 2)) by (nonlinear_arith)
                requires x - 1 < (r + 1) * (r + 1) && (r + 1) * (r + 1) <= x && 0 <= r;
            assert(is_isqrt(x, r + 1));
        } else {
            assert(is_isqrt(x, r));
        }
        assert(exists|q: int| is_isqrt(x, q));
    }
}

/// The integer square root is uniquely determined.
pub proof fn lemma_isqrt_unique(x: int, r1: int, r2: int)
    requires
        is_isqrt(x, r1),
        is_isqrt(x, r2),
    ensures
        r1 == r2,
{
    if r1 < r2 {
        assert((r1 + 1) * (r1 + 1) <= r2 * r2) by (nonlinear_arith)
            requires 0 <= r1 && 0 <= r2 && r1 < r2;
    }
    if r2 < r1 {
        assert((r2 + 1) * (r2 + 1) <= r1 * r1) by (nonlinear_arith)
            requires 0 <= r1 && 0 <= r2 && r2 < r1;
    }
}

/// Bound on a product of bounded factors.
pub proof fn lemma_mul_within(a: int, b: int, ca: int, cb: int)
    requires
        within(a, ca),
        within(b, cb),
    ensures
        within(a * b, ca * cb),
{
    assert(-(ca * cb) <= a * b <= ca * cb) by (nonlinear_arith)
        requires -ca <= a <= ca && -cb <= b <= cb;
}

} // verus!
