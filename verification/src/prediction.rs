//! Spread and total predictions derived from two score distributions.
use crate::clock::{Timestamp, MICROS_PER_HOUR};
use crate::distribution::ProbabilityDistribution;
use crate::fixed::{magnitude, Fixed, SAMPLE_LIMIT, SCALE};
use crate::ident::{fresh_id, ID_LENGTH};
use crate::rounding::{
    div_round, div_round_i128, floor_sqrt, floor_sqrt_u128, lemma_div_round_between,
};
use crate::text::{decimal_text, percent_text, push_decimal, push_percent};
use vstd::prelude::*;
use vstd::string::*;

verus! {

/// The z-score of a two-sided 95% interval, 1.96.
pub const Z_SCORE_95: i64 = 1_960_000;

/// The confidence level of every interval the engine builds, 0.95.
pub const CONFIDENCE_LEVEL_95: i64 = 950_000;

/// The win probability of a team in an even game, 0.5.
pub const EVEN_CHANCE: i64 = 500_000;

/// How far a win probability may move away from an even chance, 0.45.
pub const WIN_PROBABILITY_SWING: i64 = 450_000;

/// The predicted margin, in points, that is worth a whole unit of win
/// probability before the cap applies.
pub const POINTS_PER_UNIT_PROBABILITY: i64 = 14;

/// The largest R-hat statistic of a converged run, 1.1, exclusive.
pub const R_HAT_LIMIT: i64 = 1_100_000;

/// The effective sample size a converged run must exceed, 400.
pub const EFFECTIVE_SAMPLE_FLOOR: i64 = 400_000_000;

/// The smallest acceptable acceptance rate, 0.2.
pub const ACCEPTANCE_FLOOR: i64 = 200_000;

/// The largest acceptable acceptance rate, 0.7.
pub const ACCEPTANCE_CEILING: i64 = 700_000;

/// The interval width, in points, at which a prediction's confidence score
/// reaches zero.
pub const WIDEST_SCORED_INTERVAL: i64 = 20_000_000;

/// The standard deviation of the difference of two independent scores whose
/// standard deviations are `home_std` and `away_std`, rounded down: the
/// square root of the sum of the two variances.
pub open spec fn combined_std_dev(home_std: int, away_std: int) -> int {
    floor_sqrt(home_std * home_std + away_std * away_std)
}

/// Half the width of the 95% interval around a spread: 1.96 combined
/// standard deviations.
pub open spec fn interval_margin(home_std: int, away_std: int) -> int {
    div_round(Z_SCORE_95 * combined_std_dev(home_std, away_std), SCALE as int)
}

/// The home team's win probability for a predicted spread: an even chance,
/// moved by one fourteenth of the spread towards the favoured side, but by
/// no more than 0.45.
pub open spec fn home_win_probability_of(spread: int) -> int {
    let shift = vstd::math::min(
        div_round(magnitude(spread), POINTS_PER_UNIT_PROBABILITY as int),
        WIN_PROBABILITY_SWING as int,
    );
    if spread > 0 {
        EVEN_CHANCE + shift
    } else {
        EVEN_CHANCE - shift
    }
}

/// The away team's win probability for a predicted spread: what the home
/// team's leaves.
pub open spec fn away_win_probability_of(spread: int) -> int {
    SCALE - home_win_probability_of(spread)
}

/// The confidence score of a prediction whose interval is `width` wide:
/// one for a width of zero, falling linearly to zero at twenty points.
pub open spec fn confidence_score_of(width: int) -> int {
    div_round(vstd::math::max(WIDEST_SCORED_INTERVAL - width, 0), 20)
}

/// A range of plausible values together with the confidence that the true
/// value lies inside it.
#[derive(Clone, Copy, Debug, PartialEq, Eq, Structural)]
pub struct ConfidenceInterval {
    pub lower_bound: Fixed,
    pub upper_bound: Fixed,
    pub confidence_level: Fixed,
}

impl ConfidenceInterval {
    /// The distance from the lower bound to the upper bound.
    pub open spec fn spec_width(&self) -> int {
        self.upper_bound.raw - self.lower_bound.raw
    }

    /// The interval from `lower_bound` to `upper_bound` at the given level.
    pub fn new(lower_bound: Fixed, upper_bound: Fixed, confidence_level: Fixed) -> (interval: Self)
        ensures
            interval.lower_bound == lower_bound,
            interval.upper_bound == upper_bound,
            interval.confidence_level == confidence_level,
    {
        Self { lower_bound, upper_bound, confidence_level }
    }

    /// The distance from the lower bound to the upper bound.
    pub fn width(&self) -> (w: Fixed)
        requires
            i64::MIN <= self.spec_width() <= i64::MAX,
        ensures
            w.raw == self.spec_width(),
    {
        Fixed { raw: self.upper_bound.raw - self.lower_bound.raw }
    }

    /// Whether `value` lies in the interval, bounds included.
    pub fn contains(&self, value: Fixed) -> (inside: bool)
        ensures
            inside == (self.lower_bound.raw <= value.raw <= self.upper_bound.raw),
    {
        value.raw >= self.lower_bound.raw && value.raw <= self.upper_bound.raw
    }

    /// The point half way between the two bounds.
    pub fn midpoint(&self) -> (m: Fixed)
        ensures
            m.raw == div_round(self.lower_bound.raw + self.upper_bound.raw, 2),
    {
        let pair: i128 = self.lower_bound.raw as i128 + self.upper_bound.raw as i128;
        proof {
            lemma_div_round_between(pair as int, 2, i64::MIN as int, i64::MAX as int);
        }
        Fixed { raw: div_round_i128(pair, 2) as i64 }
    }
}

/// The model's prediction for one game.
#[derive(Clone, Debug, PartialEq)]
pub struct GamePrediction {
    pub id: String,
    pub game_id: String,
    pub home_score_distribution: ProbabilityDistribution,
    pub away_score_distribution: ProbabilityDistribution,
    /// The home team's mean score less the away team's: above zero when the
    /// home team is expected to score more.
    pub spread_prediction: Fixed,
    /// The two mean scores added up.
    pub total_prediction: Fixed,
    /// The 95% interval around the predicted spread.
    pub confidence_interval: ConfidenceInterval,
    pub generated_at: Timestamp,
}

impl GamePrediction {
    /// The prediction follows from its two distributions: the spread is the
    /// home mean less the away mean, the total is their sum, and the interval
    /// is the 95% one, centred on the spread.
    pub open spec fn derived(&self) -> bool {
        let home = self.home_score_distribution;
        let away = self.away_score_distribution;
        let margin = interval_margin(home.std_dev.raw as int, away.std_dev.raw as int);
        &&& self.spread_prediction.raw == home.mean.raw - away.mean.raw
        &&& self.total_prediction.raw == home.mean.raw + away.mean.raw
        &&& self.confidence_interval.lower_bound.raw == self.spread_prediction.raw - margin
        &&& self.confidence_interval.upper_bound.raw == self.spread_prediction.raw + margin
        &&& self.confidence_interval.confidence_level.raw == CONFIDENCE_LEVEL_95
    }

    /// Combines the home and away distributions into a prediction, under a
    /// fresh identifier and the current time.
    pub fn new(
        game_id: String,
        home_score_distribution: ProbabilityDistribution,
        away_score_distribution: ProbabilityDistribution,
    ) -> (prediction: Self)
        requires
            home_score_distribution.moments_in_range(),
            away_score_distribution.moments_in_range(),
        ensures
            prediction.game_id == game_id,
            prediction.home_score_distribution == home_score_distribution,
            prediction.away_score_distribution == away_score_distribution,
            prediction.derived(),
            prediction.id@.len() == ID_LENGTH,
            prediction.spread_prediction.within(2 * SAMPLE_LIMIT),
            prediction.total_prediction.within(2 * SAMPLE_LIMIT),
            prediction.confidence_interval.lower_bound.within(8 * SAMPLE_LIMIT),
            prediction.confidence_interval.upper_bound.within(8 * SAMPLE_LIMIT),
            prediction.confidence_interval.lower_bound.raw
                <= prediction.spread_prediction.raw
                <= prediction.confidence_interval.upper_bound.raw,
    {
        let spread: i64 = home_score_distribution.mean.raw - away_score_distribution.mean.raw;
        let total: i64 = home_score_distribution.mean.raw + away_score_distribution.mean.raw;
        let hs: u128 = home_score_distribution.std_dev.raw as u128;
        let aws: u128 = away_score_distribution.std_dev.raw as u128;
        assert(hs * hs + aws * aws <= 8_000_000_000_000_000_000_000_000) by (nonlinear_arith)
            requires
                0 <= hs <= 2_000_000_000_000,
                0 <= aws <= 2_000_000_000_000,
        ;
        let combined: u64 = floor_sqrt_u128(hs * hs + aws * aws);
        assert(combined <= 3_000_000_000_000) by (nonlinear_arith)
            requires
                combined * combined <= hs * hs + aws * aws,
                hs * hs + aws * aws <= 8_000_000_000_000_000_000_000_000,
                combined >= 0,
        ;
        proof {
            lemma_div_round_between(
                Z_SCORE_95 * combined,
                SCALE as int,
                0,
                5_880_000_000_000,
            );
        }
        let margin: i64 = div_round_i128(Z_SCORE_95 as i128 * combined as i128, SCALE as i128) as i64;
        Self {
            id: fresh_id(),
            game_id,
            home_score_distribution,
            away_score_distribution,
            spread_prediction: Fixed { raw: spread },
            total_prediction: Fixed { raw: total },
            confidence_interval: ConfidenceInterval {
                lower_bound: Fixed { raw: spread - margin },
                upper_bound: Fixed { raw: spread + margin },
                confidence_level: Fixed { raw: CONFIDENCE_LEVEL_95 },
            },
            generated_at: Timestamp::now(),
        }
    }

    /// The home team's chance of winning, from the predicted spread alone.
    pub fn home_win_probability(&self) -> (p: Fixed)
        ensures
            p.raw == home_win_probability_of(self.spread_prediction.raw as int),
            EVEN_CHANCE - WIN_PROBABILITY_SWING <= p.raw <= EVEN_CHANCE + WIN_PROBABILITY_SWING,
    {
        let spread: i128 = self.spread_prediction.raw as i128;
        let mag: i128 = if spread < 0 {
            -spread
        } else {
            spread
        };
        proof {
            lemma_div_round_between(
                mag as int,
                POINTS_PER_UNIT_PROBABILITY as int,
                0,
                mag as int,
            );
        }
        let step: i128 = div_round_i128(mag, POINTS_PER_UNIT_PROBABILITY as i128);
        let shift: i64 = if step < WIN_PROBABILITY_SWING as i128 {
            step as i64
        } else {
            WIN_PROBABILITY_SWING
        };
        if spread > 0 {
            Fixed { raw: EVEN_CHANCE + shift }
        } else {
            Fixed { raw: EVEN_CHANCE - shift }
        }
    }

    /// The away team's chance of winning: whatever the home team's leaves.
    pub fn away_win_probability(&self) -> (p: Fixed)
        ensures
            p.raw == away_win_probability_of(self.spread_prediction.raw as int),
    {
        Fixed { raw: SCALE - self.home_win_probability().raw }
    }

    /// Whether the confidence interval is narrower than `threshold`.
    pub fn is_high_confidence(&self, threshold: Fixed) -> (high: bool)
        ensures
            high == (self.confidence_interval.spec_width() < threshold.raw),
    {
        let width: i128 = self.confidence_interval.upper_bound.raw as i128
            - self.confidence_interval.lower_bound.raw as i128;
        width < threshold.raw as i128
    }

    /// The text of the one-line summary of a prediction.
    pub open spec fn summary_text(&self) -> Seq<char> {
        "Predicted spread: "@ + decimal_text(self.spread_prediction.raw as int, 1) + ", Total: "@
            + decimal_text(self.total_prediction.raw as int, 1) + ", Home win probability: "@
            + percent_text(home_win_probability_of(self.spread_prediction.raw as int), 1) + "%"@
    }

    /// A one-line summary: spread, total and the home win probability in
    /// percent, each with one decimal place.
    pub fn get_prediction_summary(&self) -> (summary: String)
        ensures
            summary@ == self.summary_text(),
    {
        let mut out = String::from_str("Predicted spread: ");
        push_decimal(&mut out, self.spread_prediction, 1);
        out.append(", Total: ");
        push_decimal(&mut out, self.total_prediction, 1);
        out.append(", Home win probability: ");
        push_percent(&mut out, self.home_win_probability(), 1);
        out.append("%");
        assert(out@ =~= self.summary_text());
        out
    }
}

/// Settings of a Markov-chain Monte-Carlo run.
#[derive(Clone, Debug, PartialEq)]
pub struct McmcParameters {
    pub num_samples: usize,
    pub burn_in: usize,
    pub chains: usize,
    pub convergence_threshold: Fixed,
    pub step_size: Fixed,
    pub target_acceptance_rate: Fixed,
}

impl Default for McmcParameters {
    /// The default settings.
    fn default() -> (params: Self)
        ensures
            params.num_samples == 10000,
            params.burn_in == 2000,
            params.chains == 4,
            params.convergence_threshold.raw == R_HAT_LIMIT,
            params.step_size.raw == 100_000,
            params.target_acceptance_rate.raw == 440_000,
    {
        Self {
            num_samples: 10000,
            burn_in: 2000,
            chains: 4,
            convergence_threshold: Fixed { raw: R_HAT_LIMIT },
            step_size: Fixed { raw: 100_000 },
            target_acceptance_rate: Fixed { raw: 440_000 },
        }
    }
}

impl McmcParameters {
    /// The default settings: 10000 samples after a burn-in of 2000 on each
    /// of 4 chains, an R-hat threshold of 1.1, a step size of 0.1 and a
    /// target acceptance rate of 0.44.
    pub fn new() -> (params: Self)
        ensures
            params.num_samples == 10000,
            params.burn_in == 2000,
            params.chains == 4,
            params.convergence_threshold.raw == R_HAT_LIMIT,
            params.step_size.raw == 100_000,
            params.target_acceptance_rate.raw == 440_000,
    {
        Self::default()
    }

    /// The settings with another number of samples per chain.
    pub fn with_samples(self, num_samples: usize) -> (params: Self)
        ensures
            params == (Self { num_samples, ..self }),
    {
        let mut params = self;
        params.num_samples = num_samples;
        params
    }

    /// The settings with another burn-in per chain.
    pub fn with_burn_in(self, burn_in: usize) -> (params: Self)
        ensures
            params == (Self { burn_in, ..self }),
    {
        let mut params = self;
        params.burn_in = burn_in;
        params
    }

    /// The settings with another number of chains.
    pub fn with_chains(self, chains: usize) -> (params: Self)
        ensures
            params == (Self { chains, ..self }),
    {
        let mut params = self;
        params.chains = chains;
        params
    }

    /// The number of samples drawn over all chains.
    pub fn total_samples(&self) -> (total: usize)
        requires
            self.num_samples * self.chains <= usize::MAX,
        ensures
            total == self.num_samples * self.chains,
    {
        self.num_samples * self.chains
    }

    /// The number of samples kept over all chains once the burn-in of each
    /// is discarded.
    pub fn effective_samples(&self) -> (kept: usize)
        requires
            self.burn_in <= self.num_samples,
            (self.num_samples - self.burn_in) * self.chains <= usize::MAX,
        ensures
            kept == (self.num_samples - self.burn_in) * self.chains,
    {
        (self.num_samples - self.burn_in) * self.chains
    }
}

/// Convergence diagnostics of a finished run.
#[derive(Clone, Debug, PartialEq)]
pub struct McmcDiagnostics {
    /// The Gelman-Rubin statistic.
    pub r_hat: Fixed,
    pub effective_sample_size: Fixed,
    pub acceptance_rate: Fixed,
    pub converged: bool,
    pub chains_analyzed: usize,
    pub total_samples: usize,
}

/// A run has converged when its R-hat is below 1.1 and its effective sample
/// size is above 400.
pub open spec fn has_converged(r_hat: int, effective_sample_size: int) -> bool {
    r_hat < R_HAT_LIMIT && effective_sample_size > EFFECTIVE_SAMPLE_FLOOR
}

impl McmcDiagnostics {
    /// The diagnostics of a run, with the verdict on its convergence.
    pub fn new(
        r_hat: Fixed,
        effective_sample_size: Fixed,
        acceptance_rate: Fixed,
        chains_analyzed: usize,
        total_samples: usize,
    ) -> (diagnostics: Self)
        ensures
            diagnostics.r_hat == r_hat,
            diagnostics.effective_sample_size == effective_sample_size,
            diagnostics.acceptance_rate == acceptance_rate,
            diagnostics.chains_analyzed == chains_analyzed,
            diagnostics.total_samples == total_samples,
            diagnostics.converged == has_converged(
                r_hat.raw as int,
                effective_sample_size.raw as int,
            ),
    {
        let converged = r_hat.raw < R_HAT_LIMIT && effective_sample_size.raw
            > EFFECTIVE_SAMPLE_FLOOR;
        Self {
            r_hat,
            effective_sample_size,
            acceptance_rate,
            converged,
            chains_analyzed,
            total_samples,
        }
    }

    /// Whether the run has converged.
    pub fn is_converged(&self) -> (converged: bool)
        ensures
            converged == self.converged,
    {
        self.converged
    }

    /// Whether the effective sample size is still below 400.
    pub fn needs_more_samples(&self) -> (more: bool)
        ensures
            more == (self.effective_sample_size.raw < EFFECTIVE_SAMPLE_FLOOR),
    {
        self.effective_sample_size.raw < EFFECTIVE_SAMPLE_FLOOR
    }

    /// Whether the acceptance rate lies between 0.2 and 0.7, both included.
    pub fn acceptance_rate_ok(&self) -> (ok: bool)
        ensures
            ok == (ACCEPTANCE_FLOOR <= self.acceptance_rate.raw <= ACCEPTANCE_CEILING),
    {
        self.acceptance_rate.raw >= ACCEPTANCE_FLOOR && self.acceptance_rate.raw
            <= ACCEPTANCE_CEILING
    }

    /// The text of the one-line summary of the diagnostics.
    pub open spec fn summary_text(&self) -> Seq<char> {
        "R-hat: "@ + decimal_text(self.r_hat.raw as int, 3) + ", ESS: "@ + decimal_text(
            self.effective_sample_size.raw as int,
            0,
        ) + ", Acceptance: "@ + percent_text(self.acceptance_rate.raw as int, 1)
            + "%, Converged: "@ + if self.converged {
            "true"@
        } else {
            "false"@
        }
    }

    /// A one-line summary: R-hat with three decimal places, the effective
    /// sample size as a whole number, the acceptance rate in percent with
    /// one decimal place, and the verdict.
    pub fn get_diagnostics_summary(&self) -> (summary: String)
        ensures
            summary@ == self.summary_text(),
    {
        let mut out = String::from_str("R-hat: ");
        push_decimal(&mut out, self.r_hat, 3);
        out.append(", ESS: ");
        push_decimal(&mut out, self.effective_sample_size, 0);
        out.append(", Acceptance: ");
        push_percent(&mut out, self.acceptance_rate, 1);
        out.append("%, Converged: ");
        if self.converged {
            out.append("true");
        } else {
            out.append("false");
        }
        assert(out@ =~= self.summary_text());
        out
    }
}

/// A game on the schedule together with the model's view of it.
#[derive(Clone, Debug, PartialEq)]
pub struct GameWithPrediction {
    pub game_id: String,
    pub home_team_name: String,
    pub away_team_name: String,
    pub game_time: Timestamp,
    pub prediction: Option<GamePrediction>,
    pub confidence_score: Fixed,
    pub last_updated: Timestamp,
}

impl GameWithPrediction {
    /// A game that has no prediction yet.
    pub fn new(
        game_id: String,
        home_team_name: String,
        away_team_name: String,
        game_time: Timestamp,
    ) -> (game: Self)
        ensures
            game.game_id == game_id,
            game.home_team_name == home_team_name,
            game.away_team_name == away_team_name,
            game.game_time == game_time,
            game.prediction is None,
            game.confidence_score.raw == 0,
    {
        Self {
            game_id,
            home_team_name,
            away_team_name,
            game_time,
            prediction: None,
            confidence_score: Fixed { raw: 0 },
            last_updated: Timestamp::now(),
        }
    }

    /// Attaches a prediction and scores it by the width of its interval.
    pub fn with_prediction(self, prediction: GamePrediction) -> (game: Self)
        ensures
            game.game_id == self.game_id,
            game.home_team_name == self.home_team_name,
            game.away_team_name == self.away_team_name,
            game.game_time == self.game_time,
            game.prediction == Some(prediction),
            game.confidence_score.raw == confidence_score_of(
                prediction.confidence_interval.spec_width(),
            ),
    {
        let width: i128 = prediction.confidence_interval.upper_bound.raw as i128
            - prediction.confidence_interval.lower_bound.raw as i128;
        let room: i128 = if WIDEST_SCORED_INTERVAL as i128 - width > 0 {
            WIDEST_SCORED_INTERVAL as i128 - width
        } else {
            0
        };
        proof {
            lemma_div_round_between(room as int, 20, 0, i64::MAX as int);
        }
        let score: i64 = div_round_i128(room, 20) as i64;
        let mut game = self;
        game.confidence_score = Fixed { raw: score };
        game.prediction = Some(prediction);
        game.last_updated = Timestamp::now();
        game
    }

    /// Whether a prediction has been attached.
    pub fn has_prediction(&self) -> (has: bool)
        ensures
            has == (self.prediction is Some),
    {
        self.prediction.is_some()
    }

    /// The instant up to which the last update is no more than
    /// `max_age_hours` hours back, in microseconds. The prediction is stale
    /// at every later instant.
    pub open spec fn fresh_until_micros(&self, max_age_hours: int) -> int {
        self.last_updated.micros + max_age_hours * MICROS_PER_HOUR
    }

    /// Whether, at the instant `now`, the last update lies more than
    /// `max_age_hours` hours back.
    pub open spec fn stale_at(&self, now: Timestamp, max_age_hours: int) -> bool {
        now.micros > self.fresh_until_micros(max_age_hours)
    }

    /// Whether, at the instant `now`, the last update lies more than
    /// `max_age_hours` hours back.
    pub fn is_prediction_stale_at(&self, now: Timestamp, max_age_hours: i64) -> (stale: bool)
        ensures
            stale == self.stale_at(now, max_age_hours as int),
    {
        let age: i128 = now.micros as i128 - self.last_updated.micros as i128;
        assert(max_age_hours * MICROS_PER_HOUR == max_age_hours * 3_600_000_000) by (nonlinear_arith)
            requires
                MICROS_PER_HOUR == 3_600_000_000,
        ;
        age > max_age_hours as i128 * MICROS_PER_HOUR as i128
    }

    /// Whether the last update lies more than `max_age_hours` hours back,
    /// by the system clock: the answer of `is_prediction_stale_at` for the
    /// instant that the clock shows. Where every instant gives the same
    /// answer, that answer is owed: a prediction that stays fresh up to the
    /// last instant or beyond is never stale, one that was fresh only
    /// before the first instant always is.
    pub fn is_prediction_stale(&self, max_age_hours: i64) -> (stale: bool)
        ensures
            exists|now: Timestamp| stale == #[trigger] self.stale_at(now, max_age_hours as int),
            self.fresh_until_micros(max_age_hours as int) >= i64::MAX ==> !stale,
            self.fresh_until_micros(max_age_hours as int) < i64::MIN ==> stale,
    {
        let now = Timestamp::now();
        let stale = self.is_prediction_stale_at(now, max_age_hours);
        assert(stale == self.stale_at(now, max_age_hours as int));
        stale
    }
}

} // verus!
