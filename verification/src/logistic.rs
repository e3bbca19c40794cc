//! The logistic curve that turns a point spread into a win probability,
//! evaluated in integer arithmetic.
//!
//! The curve is `1 / (1 + e^(-spread / 3.3))`. The exponential is taken from
//! its power series on a thirty-second of the exponent and squared five
//! times, all at eighteen fractional digits, so that the six digits of the
//! result do not depend on the platform.
use crate::fixed::{Fixed, SCALE};
use crate::rounding::{div_round, div_round_i128, lemma_div_round_between};
use vstd::prelude::*;

verus! {

/// One whole unit at the working precision of eighteen fractional digits.
pub const UNIT: i128 = 1_000_000_000_000_000_000;

/// The number of terms of the exponential series after the leading one.
pub const SERIES_TERMS: i128 = 16;

/// The spread, in raw units, from which the favoured side's probability is
/// reported as certain: sixty-six points, twenty times the curve's scale.
pub const SATURATION: i64 = 66_000_000;

/// The scale of the curve, 3.3 points: the spread that moves the odds by a
/// factor of e.
pub const LOGISTIC_SCALE: i64 = 3_300_000;

/// By how much the exponent is divided before the series is summed; the
/// result is squared five times to make up for it.
pub const REDUCTION: i128 = 32;

/// The partial sum of the series of `e^(-u)` in nested form, from term `k`
/// on: `1 - u/k * (1 - u/(k+1) * (...))`, with `u` and the result at
/// working precision.
pub open spec fn exp_neg_series(u: int, k: int) -> int
    decreases SERIES_TERMS + 1 - k,
{
    if k > SERIES_TERMS || k < 1 {
        UNIT as int
    } else {
        UNIT - div_round(u * exp_neg_series(u, k + 1), k * UNIT)
    }
}

/// The square of a working-precision number.
pub open spec fn squared(e: int) -> int {
    div_round(e * e, UNIT as int)
}

/// The reduced exponent that stands for a spread of `points` raw units:
/// the spread over the scale of the curve, divided by `REDUCTION`, at
/// working precision.
pub open spec fn reduced_exponent(points: int) -> int {
    div_round(points * UNIT, LOGISTIC_SCALE * REDUCTION)
}

/// `e^(-points / 3.3)` at working precision, for a spread below saturation.
pub open spec fn decay(points: int) -> int {
    squared(squared(squared(squared(squared(exp_neg_series(reduced_exponent(points), 1))))))
}

/// The win probability of a side favoured by `points >= 0` raw units.
pub open spec fn favoured_probability(points: int) -> int {
    if points >= SATURATION {
        SCALE as int
    } else {
        div_round(SCALE * UNIT, UNIT + decay(points))
    }
}

/// The win probability that the logistic curve assigns to a spread: one
/// half for a spread of zero, above one half for a positive spread, and for
/// a negative spread what the opposite spread leaves.
pub open spec fn spread_to_probability_of(spread: int) -> int {
    if spread == 0 {
        SCALE / 2
    } else if spread > 0 {
        favoured_probability(spread)
    } else {
        SCALE - favoured_probability(-spread)
    }
}

/// Every partial sum of the series lies between zero and one.
proof fn lemma_series_in_unit(u: int, k: int)
    requires
        0 <= u <= UNIT,
    ensures
        0 <= exp_neg_series(u, k) <= UNIT,
    decreases SERIES_TERMS + 1 - k,
{
    if 1 <= k <= SERIES_TERMS {
        lemma_series_in_unit(u, k + 1);
        let h = exp_neg_series(u, k + 1);
        assert(0 <= u * h <= UNIT * (k * UNIT)) by (nonlinear_arith)
            requires
                0 <= u <= UNIT,
                0 <= h <= UNIT,
                k >= 1,
                UNIT > 0,
        ;
        lemma_div_round_between(u * h, k * UNIT, 0, UNIT as int);
    }
}

/// The square of a number between zero and one lies between zero and one.
proof fn lemma_squared_in_unit(e: int)
    requires
        0 <= e <= UNIT,
    ensures
        0 <= squared(e) <= UNIT,
{
    assert(0 <= e * e <= UNIT * UNIT) by (nonlinear_arith)
        requires
            0 <= e <= UNIT,
    ;
    lemma_div_round_between(e * e, UNIT as int, 0, UNIT as int);
}

/// The reduced exponent of a spread below saturation lies between zero and
/// one.
proof fn lemma_reduced_exponent_in_unit(points: int)
    requires
        0 <= points < SATURATION,
    ensures
        0 <= reduced_exponent(points) <= UNIT,
{
    assert(0 <= points * UNIT <= UNIT * (LOGISTIC_SCALE * REDUCTION)) by (nonlinear_arith)
        requires
            0 <= points < 66_000_000,
            UNIT > 0,
            LOGISTIC_SCALE * REDUCTION == 105_600_000,
    ;
    lemma_div_round_between(points * UNIT, LOGISTIC_SCALE * REDUCTION, 0, UNIT as int);
}

/// The favoured side wins with a probability between one half and one.
pub proof fn lemma_favoured_probability_range(points: int)
    requires
        0 <= points,
    ensures
        SCALE / 2 <= favoured_probability(points) <= SCALE,
{
    if points < SATURATION {
        lemma_reduced_exponent_in_unit(points);
        let u = reduced_exponent(points);
        lemma_series_in_unit(u, 1);
        let e0 = exp_neg_series(u, 1);
        lemma_squared_in_unit(e0);
        let e1 = squared(e0);
        lemma_squared_in_unit(e1);
        let e2 = squared(e1);
        lemma_squared_in_unit(e2);
        let e3 = squared(e2);
        lemma_squared_in_unit(e3);
        let e4 = squared(e3);
        lemma_squared_in_unit(e4);
        let e = squared(e4);
        assert((SCALE / 2) * (UNIT + e) <= SCALE * UNIT <= SCALE * (UNIT + e)) by (nonlinear_arith)
            requires
                0 <= e <= UNIT,
                SCALE == 1_000_000,
                UNIT > 0,
        ;
        lemma_div_round_between(SCALE * UNIT, UNIT + e, SCALE as int / 2, SCALE as int);
    }
}

/// `e^(-u)` for a reduced exponent `u`, from the nested series.
fn exp_neg_unit(u: i128) -> (e: i128)
    requires
        0 <= u <= UNIT,
    ensures
        e == exp_neg_series(u as int, 1),
        0 <= e <= UNIT,
{
    let mut h: i128 = UNIT;
    let mut k: i128 = SERIES_TERMS;
    while k >= 1
        invariant
            0 <= k <= SERIES_TERMS,
            0 <= u <= UNIT,
            0 <= h <= UNIT,
            h == exp_neg_series(u as int, k + 1),
        decreases k,
    {
        assert(0 <= u * h <= UNIT * (k * UNIT) && UNIT * (k * UNIT) <= 16 * UNIT * UNIT && 0 < k * UNIT
            <= 16 * UNIT) by (nonlinear_arith)
            requires
                0 <= u <= UNIT,
                0 <= h <= UNIT,
                1 <= k <= 16,
                UNIT == 1_000_000_000_000_000_000,
        ;
        proof {
            lemma_div_round_between((u * h) as int, (k * UNIT) as int, 0, UNIT as int);
        }
        h = UNIT - div_round_i128(u * h, k * UNIT);
        k = k - 1;
    }
    h
}

/// The square of a working-precision number between zero and one.
fn square_unit(e: i128) -> (s: i128)
    requires
        0 <= e <= UNIT,
    ensures
        s == squared(e as int),
        0 <= s <= UNIT,
{
    assert(0 <= e * e <= UNIT * UNIT && UNIT * UNIT == 1_000_000_000_000_000_000_000_000_000_000_000_000)
        by (nonlinear_arith)
        requires
            0 <= e <= UNIT,
            UNIT == 1_000_000_000_000_000_000,
    ;
    proof {
        lemma_squared_in_unit(e as int);
    }
    div_round_i128(e * e, UNIT)
}

/// The win probability of a side favoured by `points` raw units.
fn favoured(points: i64) -> (p: i64)
    requires
        0 <= points,
    ensures
        p == favoured_probability(points as int),
        SCALE / 2 <= p <= SCALE,
{
    proof {
        lemma_favoured_probability_range(points as int);
    }
    if points >= SATURATION {
        return SCALE;
    }
    proof {
        lemma_reduced_exponent_in_unit(points as int);
    }
    assert(0 <= points * UNIT <= 66_000_000 * UNIT) by (nonlinear_arith)
        requires
            0 <= points < 66_000_000,
            UNIT > 0,
    ;
    let u: i128 = div_round_i128(points as i128 * UNIT, LOGISTIC_SCALE as i128 * REDUCTION);
    let e0 = exp_neg_unit(u);
    let e1 = square_unit(e0);
    let e2 = square_unit(e1);
    let e3 = square_unit(e2);
    let e4 = square_unit(e3);
    let e5 = square_unit(e4);
    div_round_i128(SCALE as i128 * UNIT, UNIT + e5) as i64
}

/// The win probability that the logistic curve assigns to `spread`, taken
/// from the side the spread favours when positive.
pub fn spread_to_probability(spread: Fixed) -> (p: Fixed)
    ensures
        p.raw == spread_to_probability_of(spread.raw as int),
        0 <= p.raw <= SCALE,
        spread.raw == 0 ==> p.raw == SCALE / 2,
        spread.raw > 0 ==> p.raw >= SCALE / 2,
        spread.raw < 0 ==> p.raw <= SCALE / 2,
{
    if spread.raw == 0 {
        Fixed { raw: SCALE / 2 }
    } else if spread.raw > 0 {
        Fixed { raw: favoured(spread.raw) }
    } else if spread.raw == i64::MIN {
        proof {
            lemma_favoured_probability_range(-spread.raw);
        }
        Fixed { raw: 0 }
    } else {
        Fixed { raw: SCALE - favoured(-spread.raw) }
    }
}

} // verus!
