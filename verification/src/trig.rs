//! Fixed-point sine and cosine over one waveform cycle.
//!
//! The phase argument is in Q16.16 turns: `UNIT` is one full cycle.  The half
//! cycle is approximated by Bhaskara's rational formula
//! `sin(pi m) ~= 16 m (1 - m) / (5 - 4 m (1 - m))` for `m` in `[0, 1]`,
//! evaluated exactly in integers; the second half cycle is its negation.
//! The approximation is exact at the quarter-cycle points: `sin` is 0 at
//! phase 0 and 1/2, and `cos` is `UNIT` at phase 0 and `-UNIT` at phase 1/2.

use vstd::prelude::*;
use crate::fixed::{UNIT, HALF_UNIT, QUARTER_UNIT, tdiv, tdiv_s, emod, within};
use vstd::arithmetic::div_mod::{
    lemma_div_pos_is_pos, lemma_div_is_ordered, lemma_div_multiples_vanish, lemma_mod_bound,
};

verus! {

/// Bhaskara's half-cycle approximation: the value of `sin(pi * x / UNIT)`
/// in Q16.16, for `x` in `[0, UNIT]`.
pub open spec fn bhask_s(x: int) -> int
    recommends
        0 <= x <= UNIT,
{
    let t = x * (UNIT - x);
    (16 * t * UNIT) / (5 * UNIT * UNIT - 4 * t)
}

/// The value of `sin(2 pi * p / UNIT)` in Q16.16, for any phase `p`.
pub open spec fn sin2pi_s(p: int) -> int {
    let q = p % (UNIT as int);
    if q < HALF_UNIT {
        bhask_s(2 * q)
    } else {
        -bhask_s(2 * q - UNIT)
    }
}

/// The value of `cos(2 pi * p / UNIT)` in Q16.16, for any phase `p`.
pub open spec fn cos2pi_s(p: int) -> int {
    sin2pi_s(p + QUARTER_UNIT)
}

/// The half-cycle approximation stays within `[0, UNIT]`.
pub proof fn lemma_bhask_range(x: int)
    requires
        0 <= x <= UNIT,
    ensures
        0 <= bhask_s(x) <= UNIT,
{
    let t = x * (UNIT - x);
    assert(0 <= x * (65536 - x) && 4 * (x * (65536 - x)) <= 65536 * 65536) by (nonlinear_arith)
        requires 0 <= x <= 65536;
    assert(t == x * (65536 - x));
    let num = 16 * t * (UNIT as int);
    let den = 5 * (UNIT as int) * (UNIT as int) - 4 * t;
    assert(num <= 65536 * den) by (nonlinear_arith)
        requires 0 <= t && 4 * t <= 65536 * 65536 && num == 16 * t * 65536
            && den == 5 * 65536 * 65536 - 4 * t;
    lemma_div_pos_is_pos(num, den);
    lemma_div_is_ordered(num, 65536 * den, den);
    lemma_div_multiples_vanish(65536, den);
    assert(den * 65536 == 65536 * den) by (nonlinear_arith);
}

/// The sine value stays within `[-UNIT, UNIT]` for every phase.
pub proof fn lemma_sin2pi_range(p: int)
    ensures
        within(sin2pi_s(p), UNIT as int),
{
    let q = p % (UNIT as int);
    lemma_mod_bound(p, UNIT as int);
    if q < HALF_UNIT {
        lemma_bhask_range(2 * q);
    } else {
        lemma_bhask_range(2 * q - UNIT);
    }
}

/// On the first half cycle (`p % UNIT <= HALF_UNIT`) the sine is nonnegative.
pub proof fn lemma_sin2pi_first_half_nonneg(p: int)
    requires
        p % (UNIT as int) <= HALF_UNIT,
    ensures
        0 <= sin2pi_s(p) <= UNIT,
{
    let q = p % (UNIT as int);
    lemma_mod_bound(p, UNIT as int);
    if q < HALF_UNIT {
        lemma_bhask_range(2 * q);
    } else {
        assert(q == HALF_UNIT);
        assert(bhask_s(0) == 0);
    }
}

/// The sine crosses zero at the start and the middle of the cycle, and the
/// cosine takes its extreme values there.
pub proof fn lemma_trig_quarter_points()
    ensures
        sin2pi_s(0) == 0,
        sin2pi_s(HALF_UNIT as int) == 0,
        cos2pi_s(0) == UNIT,
        cos2pi_s(HALF_UNIT as int) == -UNIT,
{
    assert(sin2pi_s(0) == 0);
    assert(sin2pi_s(HALF_UNIT as int) == 0);
    assert(bhask_s(HALF_UNIT as int) == UNIT) by {
        assert(32768int * (65536 - 32768) == 0x4000_0000) by (nonlinear_arith);
        let t = (HALF_UNIT as int) * (UNIT - HALF_UNIT);
        assert(t == 0x4000_0000);
        assert(5 * 65536int * 65536 == 21474836480) by (nonlinear_arith);
        let den = 5 * (UNIT as int) * (UNIT as int) - 4 * t;
        assert(den == 17179869184);
        assert(16 * t * (UNIT as int) == 1125899906842624) by (nonlinear_arith)
            requires t == 0x4000_0000;
        assert(den * 65536 == 1125899906842624) by (nonlinear_arith)
            requires den == 17179869184;
        lemma_div_multiples_vanish(65536, den);
    }
    assert(cos2pi_s(0) == UNIT);
    assert(cos2pi_s(HALF_UNIT as int) == -UNIT);
}

/// Bhaskara's formula on machine integers.
fn bhask(x: i64) -> (r: i64)
    requires
        0 <= x <= UNIT,
    ensures
        r == bhask_s(x as int),
        0 <= r <= UNIT,
{
    proof {
        assert(0 <= (x as int) * (65536 - x) && 4 * ((x as int) * (65536 - x)) <= 65536 * 65536)
            by (nonlinear_arith)
            requires 0 <= x <= 65536;
        lemma_bhask_range(x as int);
    }
    let t: i64 = x * (UNIT - x);
    let num: i64 = 16 * t * UNIT;
    let den: i64 = 5 * UNIT * UNIT - 4 * t;
    tdiv(num, den)
}

/// Fixed-point sine of a phase in Q16.16 turns.
pub fn sin2pi(p: i64) -> (r: i64)
    requires
        0 <= p,
    ensures
        r == sin2pi_s(p as int),
        within(r as int, UNIT as int),
{
    let q = emod(p, UNIT);
    if q < HALF_UNIT {
        bhask(2 * q)
    } else {
        -bhask(2 * q - UNIT)
    }
}

/// Fixed-point cosine of a phase in Q16.16 turns.
pub fn cos2pi(p: i64) -> (r: i64)
    requires
        0 <= p <= i64::MAX - QUARTER_UNIT,
    ensures
        r == cos2pi_s(p as int),
        within(r as int, UNIT as int),
{
    sin2pi(p + QUARTER_UNIT)
}

} // verus!
