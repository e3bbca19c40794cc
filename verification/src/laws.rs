//! Properties that hold of the engine as a whole, stated over the same
//! mathematical functions as the contracts of the operations.
use crate::betting::BettingLine;
use crate::distribution::{
    count_above, count_below, count_equal, frequency, largest, lemma_count_bounds,
    lemma_count_partition, lemma_extremes_bound, lemma_sum_between, mean_of, smallest, sum_raw,
};
use crate::fixed::{Fixed, SCALE};
use crate::logistic::spread_to_probability_of;
use crate::prediction::{away_win_probability_of, home_win_probability_of, GamePrediction};
use crate::rounding::{
    div_round, lemma_div_round_between, lemma_div_round_complement, lemma_div_round_monotone,
};
use vstd::prelude::*;

verus! {

/// The mean of a non-empty set of samples lies between the smallest and the
/// largest sample.
pub proof fn law_mean_within_extremes(samples: Seq<Fixed>)
    requires
        samples.len() > 0,
    ensures
        smallest(samples) <= mean_of(samples) <= largest(samples),
{
    lemma_extremes_bound(samples);
    lemma_sum_between(samples, smallest(samples), largest(samples));
    lemma_div_round_between(
        sum_raw(samples),
        samples.len() as int,
        smallest(samples),
        largest(samples),
    );
}

/// The share of samples above a threshold and the share below it never add
/// up to more than one, and they add up to exactly one when no sample is
/// equal to the threshold.
pub proof fn law_tail_shares(samples: Seq<Fixed>, threshold: int)
    requires
        samples.len() > 0,
    ensures
        frequency(count_above(samples, threshold), samples.len() as int) + frequency(
            count_below(samples, threshold),
            samples.len() as int,
        ) <= SCALE,
        count_equal(samples, threshold) == 0 ==> frequency(
            count_above(samples, threshold),
            samples.len() as int,
        ) + frequency(count_below(samples, threshold), samples.len() as int) == SCALE,
{
    let n = samples.len() as int;
    let above = count_above(samples, threshold);
    let below = count_below(samples, threshold);
    let rest = n - above;
    lemma_count_partition(samples, threshold);
    lemma_count_bounds(samples, |x: Fixed| x.raw == threshold);
    assert(below <= rest);
    assert(below * SCALE <= rest * SCALE) by (nonlinear_arith)
        requires
            below <= rest,
            SCALE == 1_000_000,
    ;
    assert(above * SCALE + rest * SCALE == SCALE * n) by (nonlinear_arith)
        requires
            above + rest == n,
    ;
    lemma_div_round_monotone(below * SCALE, rest * SCALE, n);
    lemma_div_round_complement(above * SCALE, rest * SCALE, n, SCALE as int);
}

/// The home team's and the away team's win probabilities add up to one,
/// whatever the predicted spread.
pub proof fn law_win_probabilities_complementary(spread: int)
    ensures
        home_win_probability_of(spread) + away_win_probability_of(spread) == SCALE,
{
}

/// The confidence interval of a derived prediction reaches as far above the
/// predicted spread as below it, and its level is 0.95.
pub proof fn law_interval_centred(prediction: GamePrediction)
    requires
        prediction.derived(),
    ensures
        prediction.confidence_interval.upper_bound.raw - prediction.spread_prediction.raw
            == prediction.spread_prediction.raw - prediction.confidence_interval.lower_bound.raw,
        prediction.confidence_interval.confidence_level.raw == 950_000,
{
}

/// The logistic curve gives a spread and its opposite probabilities that
/// add up to one.
pub proof fn law_spread_probabilities_complementary(spread: int)
    ensures
        spread_to_probability_of(spread) + spread_to_probability_of(-spread) == SCALE,
{
}

/// Deactivating a line leaves it inactive, and deactivating it again
/// changes nothing.
pub proof fn law_deactivate_idempotent(line: BettingLine)
    ensures
        !line.deactivated().is_active,
        line.deactivated().deactivated() == line.deactivated(),
{
}

} // verus!
