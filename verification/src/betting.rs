//! Bookmaker lines, their comparison with a prediction, and the value
//! opportunities that come out of it.
use crate::clock::{Timestamp, MICROS_PER_MINUTE, MICROS_PER_SECOND};
use crate::fixed::{magnitude, Fixed, QUOTE_LIMIT, SCALE};
use crate::ident::{fresh_id, ID_LENGTH};
use crate::logistic::{spread_to_probability, spread_to_probability_of};
use crate::prediction::GamePrediction;
use crate::rounding::{div_round, div_round_i128, lemma_div_round_between};
use crate::text::{decimal_text, push_decimal};
use vstd::prelude::*;
use vstd::string::*;

verus! {

/// The spread difference beyond which a comparison recommends a side, 1.0.
pub const SPREAD_RECOMMENDATION_EDGE: i64 = 1_000_000;

/// The total difference beyond which a comparison recommends over or under,
/// 3.0.
pub const TOTAL_RECOMMENDATION_EDGE: i64 = 3_000_000;

/// The smallest difference between two probabilities that counts as value,
/// 0.05.
pub const PROBABILITY_EDGE: i64 = 50_000;

/// The largest confidence given to an opportunity found from probabilities,
/// 0.95.
pub const CONFIDENCE_CAP: i64 = 950_000;

/// The win probability that American odds imply. Odds are quoted against
/// a stake of a hundred: the probability is `100 / (odds + 100)` for
/// positive odds and `|odds| / (|odds| + 100)` for negative ones.
pub open spec fn moneyline_probability(odds: int) -> int {
    if odds > 0 {
        div_round(100 * SCALE, odds + 100)
    } else {
        div_round(-odds * SCALE, -odds + 100)
    }
}

/// The composite value score of a comparison: the mean of the magnitudes of
/// the two differences.
pub open spec fn value_score_of(spread_difference: int, total_difference: int) -> int {
    div_round(magnitude(spread_difference) + magnitude(total_difference), 2)
}

/// The advice to take the underdog at the quoted spread.
pub open spec fn underdog_text(line_spread: int) -> Seq<char> {
    "Consider betting the underdog (+"@ + decimal_text(magnitude(line_spread), 1) + ")"@
}

/// The advice to take the favorite at the quoted spread.
pub open spec fn favorite_text(line_spread: int) -> Seq<char> {
    "Consider betting the favorite ("@ + decimal_text(line_spread, 1) + ")"@
}

/// The advice to bet that the score goes over the quoted total.
pub open spec fn over_text(line_total: int) -> Seq<char> {
    "Consider betting OVER "@ + decimal_text(line_total, 1)
}

/// The advice to bet that the score stays under the quoted total.
pub open spec fn under_text(line_total: int) -> Seq<char> {
    "Consider betting UNDER "@ + decimal_text(line_total, 1)
}

/// A team and the spread it is quoted at: a plus sign for an underdog, the
/// bare negative number for a favorite, the word EVEN for neither.
pub open spec fn side_text(team: Seq<char>, spread: int) -> Seq<char> {
    if spread > 0 {
        team + " +"@ + decimal_text(spread, 1)
    } else if spread < 0 {
        team + " "@ + decimal_text(spread, 1)
    } else {
        team + " EVEN"@
    }
}

/// The win probability that American odds imply.
pub fn implied_probability_moneyline(odds: i32) -> (p: Fixed)
    ensures
        p.raw == moneyline_probability(odds as int),
        0 <= p.raw <= SCALE,
{
    let o: i128 = odds as i128;
    if o > 0 {
        proof {
            lemma_div_round_between(100 * SCALE, o + 100, 0, SCALE as int);
        }
        Fixed { raw: div_round_i128(100 * SCALE as i128, o + 100) as i64 }
    } else {
        assert(0 <= -o * SCALE <= SCALE * (-o + 100)) by (nonlinear_arith)
            requires
                o <= 0,
                SCALE == 1_000_000,
        ;
        proof {
            lemma_div_round_between(-o * SCALE, -o + 100, 0, SCALE as int);
        }
        Fixed { raw: div_round_i128(-o * SCALE as i128, -o + 100) as i64 }
    }
}

/// Why a betting line cannot be created.
#[derive(Clone, Copy, Debug, PartialEq, Eq, Structural)]
pub enum LineError {
    /// A moneyline of zero: American odds have no such quote.
    ZeroMoneyline,
}

/// One bookmaker's quote for one game at one point in time.
#[derive(Clone, Debug, PartialEq)]
pub struct BettingLine {
    pub id: String,
    pub game_id: String,
    pub provider: String,
    /// The point spread from the home team's side: negative when the home
    /// team is the favorite.
    pub spread: Fixed,
    pub total: Fixed,
    pub moneyline_home: i32,
    pub moneyline_away: i32,
    pub timestamp: Timestamp,
    pub is_active: bool,
}

impl BettingLine {
    /// Neither moneyline is zero.
    pub open spec fn well_formed(&self) -> bool {
        self.moneyline_home != 0 && self.moneyline_away != 0
    }

    /// The line with its active flag cleared.
    pub open spec fn deactivated(self) -> BettingLine {
        BettingLine { is_active: false, ..self }
    }

    /// The win probability that the logistic curve assigns to a spread.
    pub fn spread_to_probability(spread: Fixed) -> (p: Fixed)
        ensures
            p.raw == spread_to_probability_of(spread.raw as int),
            0 <= p.raw <= SCALE,
    {
        spread_to_probability(spread)
    }

    /// The home team's win probability implied by the spread. The spread is
    /// negative when the home team is favored, so the curve is read at its
    /// opposite.
    pub fn implied_probability_home_spread(&self) -> (p: Fixed)
        ensures
            p.raw == spread_to_probability_of(-self.spread.raw),
            0 <= p.raw <= SCALE,
    {
        if self.spread.raw == i64::MIN {
            // The opposite of the least spread is not representable; it lies
            // far beyond the point where the curve reports certainty.
            let p = spread_to_probability(Fixed { raw: i64::MAX });
            p
        } else {
            spread_to_probability(Fixed { raw: -self.spread.raw })
        }
    }

    /// The away team's win probability implied by the spread.
    pub fn implied_probability_away_spread(&self) -> (p: Fixed)
        ensures
            p.raw == SCALE - spread_to_probability_of(-self.spread.raw),
            0 <= p.raw <= SCALE,
    {
        Fixed { raw: SCALE - self.implied_probability_home_spread().raw }
    }

    /// A new active line, under a fresh identifier and stamped with the
    /// current time.
    pub fn new(
        game_id: String,
        provider: String,
        spread: Fixed,
        total: Fixed,
        moneyline_home: i32,
        moneyline_away: i32,
    ) -> (line: Self)
        requires
            moneyline_home != 0,
            moneyline_away != 0,
        ensures
            line.game_id == game_id,
            line.provider == provider,
            line.spread == spread,
            line.total == total,
            line.moneyline_home == moneyline_home,
            line.moneyline_away == moneyline_away,
            line.is_active,
            line.well_formed(),
            line.id@.len() == ID_LENGTH,
    {
        Self {
            id: fresh_id(),
            game_id,
            provider,
            spread,
            total,
            moneyline_home,
            moneyline_away,
            timestamp: Timestamp::now(),
            is_active: true,
        }
    }

    /// A new active line, or the reason why the quote is not a valid one.
    pub fn try_new(
        game_id: String,
        provider: String,
        spread: Fixed,
        total: Fixed,
        moneyline_home: i32,
        moneyline_away: i32,
    ) -> (outcome: Result<Self, LineError>)
        ensures
            outcome is Ok <==> moneyline_home != 0 && moneyline_away != 0,
            outcome matches Ok(line) ==> {
                &&& line.game_id == game_id
                &&& line.provider == provider
                &&& line.spread == spread
                &&& line.total == total
                &&& line.moneyline_home == moneyline_home
                &&& line.moneyline_away == moneyline_away
                &&& line.is_active
                &&& line.id@.len() == ID_LENGTH
            },
    {
        if moneyline_home == 0 || moneyline_away == 0 {
            Err(LineError::ZeroMoneyline)
        } else {
            Ok(Self::new(game_id, provider, spread, total, moneyline_home, moneyline_away))
        }
    }

    /// The instant at which the line turns `expiry_minutes` minutes old, in
    /// microseconds. A line is expired at every later instant.
    pub open spec fn expiry_micros(&self, expiry_minutes: int) -> int {
        self.timestamp.micros + expiry_minutes * MICROS_PER_MINUTE
    }

    /// Whether, at the instant `now`, the line is more than `expiry_minutes`
    /// minutes old.
    pub open spec fn expired_at(&self, now: Timestamp, expiry_minutes: int) -> bool {
        now.micros > self.expiry_micros(expiry_minutes)
    }

    /// Whether, at the instant `now`, the line is more than `expiry_minutes`
    /// minutes old.
    pub fn is_expired_at(&self, now: Timestamp, expiry_minutes: i64) -> (expired: bool)
        ensures
            expired == self.expired_at(now, expiry_minutes as int),
    {
        assert(expiry_minutes * MICROS_PER_MINUTE == expiry_minutes * 60_000_000)
            by (nonlinear_arith)
            requires
                MICROS_PER_MINUTE == 60_000_000,
        ;
        let expiry: i128 = self.timestamp.micros as i128 + expiry_minutes as i128
            * MICROS_PER_MINUTE as i128;
        now.micros as i128 > expiry
    }

    /// Whether the line is more than `expiry_minutes` minutes old, by the
    /// system clock: the answer of `is_expired_at` for the instant that the
    /// clock shows. Where every instant gives the same answer, that answer
    /// is owed: a line whose expiry lies at or beyond the last instant is
    /// never expired, one whose expiry lies before the first always is.
    pub fn is_expired(&self, expiry_minutes: i64) -> (expired: bool)
        ensures
            exists|now: Timestamp| expired == #[trigger] self.expired_at(now, expiry_minutes as int),
            self.expiry_micros(expiry_minutes as int) >= i64::MAX ==> !expired,
            self.expiry_micros(expiry_minutes as int) < i64::MIN ==> expired,
    {
        let now = Timestamp::now();
        let expired = self.is_expired_at(now, expiry_minutes);
        assert(expired == self.expired_at(now, expiry_minutes as int));
        expired
    }

    /// Takes the line out of use. There is no way back.
    pub fn deactivate(&mut self)
        ensures
            *final(self) == old(self).deactivated(),
            !final(self).is_active,
    {
        self.is_active = false;
    }

    /// The home team's win probability implied by its moneyline.
    pub fn implied_probability_home(&self) -> (p: Fixed)
        ensures
            p.raw == moneyline_probability(self.moneyline_home as int),
            0 <= p.raw <= SCALE,
    {
        implied_probability_moneyline(self.moneyline_home)
    }

    /// The away team's win probability implied by its moneyline.
    pub fn implied_probability_away(&self) -> (p: Fixed)
        ensures
            p.raw == moneyline_probability(self.moneyline_away as int),
            0 <= p.raw <= SCALE,
    {
        implied_probability_moneyline(self.moneyline_away)
    }

    /// The sum of the two moneyline probabilities. What it has above one is
    /// the bookmaker's margin.
    pub fn total_implied_probability(&self) -> (p: Fixed)
        ensures
            p.raw == moneyline_probability(self.moneyline_home as int) + moneyline_probability(
                self.moneyline_away as int,
            ),
            0 <= p.raw <= 2 * SCALE,
    {
        Fixed { raw: self.implied_probability_home().raw + self.implied_probability_away().raw }
    }

    /// The bookmaker's margin in percent.
    pub fn vig_percentage(&self) -> (vig: Fixed)
        ensures
            vig.raw == (moneyline_probability(self.moneyline_home as int) + moneyline_probability(
                self.moneyline_away as int,
            ) - SCALE) * 100,
    {
        Fixed { raw: (self.total_implied_probability().raw - SCALE) * 100 }
    }
}

/// A prediction held against a betting line.
#[derive(Clone, Debug, PartialEq)]
pub struct LineComparison {
    pub id: String,
    pub game_id: String,
    pub betting_line: BettingLine,
    pub prediction: GamePrediction,
    /// The predicted spread less the quoted one.
    pub spread_difference: Fixed,
    /// The predicted total less the quoted one.
    pub total_difference: Fixed,
    /// The mean of the magnitudes of the two differences.
    pub value_score: Fixed,
    pub created_at: Timestamp,
}

impl LineComparison {
    /// The differences and the score are those of the pair that is held.
    pub open spec fn derived(&self) -> bool {
        &&& self.spread_difference.raw == self.prediction.spread_prediction.raw
            - self.betting_line.spread.raw
        &&& self.total_difference.raw == self.prediction.total_prediction.raw
            - self.betting_line.total.raw
        &&& self.value_score.raw == value_score_of(
            self.spread_difference.raw as int,
            self.total_difference.raw as int,
        )
    }

    /// The quoted and the predicted spread and total are all within
    /// `QUOTE_LIMIT` of zero.
    pub open spec fn in_range(&self) -> bool {
        &&& self.betting_line.spread.within(QUOTE_LIMIT as int)
        &&& self.betting_line.total.within(QUOTE_LIMIT as int)
        &&& self.prediction.spread_prediction.within(QUOTE_LIMIT as int)
        &&& self.prediction.total_prediction.within(QUOTE_LIMIT as int)
    }

    /// The advice on the spread, if there is any: the underdog when the
    /// prediction is more than a point above the line, the favorite when it
    /// is more than a point below.
    pub open spec fn spread_advice(&self) -> Option<Seq<char>> {
        if self.spread_difference.raw > SPREAD_RECOMMENDATION_EDGE {
            Some(underdog_text(self.betting_line.spread.raw as int))
        } else if self.spread_difference.raw < -SPREAD_RECOMMENDATION_EDGE {
            Some(favorite_text(self.betting_line.spread.raw as int))
        } else {
            None
        }
    }

    /// The advice on the total, if there is any: over when the prediction is
    /// more than three points above the line, under when it is more than
    /// three points below.
    pub open spec fn total_advice(&self) -> Option<Seq<char>> {
        if self.total_difference.raw > TOTAL_RECOMMENDATION_EDGE {
            Some(over_text(self.betting_line.total.raw as int))
        } else if self.total_difference.raw < -TOTAL_RECOMMENDATION_EDGE {
            Some(under_text(self.betting_line.total.raw as int))
        } else {
            None
        }
    }

    /// Pairs a line with a prediction and measures how far they are apart.
    pub fn new(betting_line: BettingLine, prediction: GamePrediction) -> (comparison: Self)
        requires
            betting_line.spread.within(QUOTE_LIMIT as int),
            betting_line.total.within(QUOTE_LIMIT as int),
            prediction.spread_prediction.within(QUOTE_LIMIT as int),
            prediction.total_prediction.within(QUOTE_LIMIT as int),
        ensures
            comparison.game_id == betting_line.game_id,
            comparison.betting_line == betting_line,
            comparison.prediction == prediction,
            comparison.derived(),
            comparison.in_range(),
            comparison.value_score.raw >= 0,
            comparison.id@.len() == ID_LENGTH,
    {
        let spread_difference: i64 = prediction.spread_prediction.raw - betting_line.spread.raw;
        let total_difference: i64 = prediction.total_prediction.raw - betting_line.total.raw;
        let spread_gap: i64 = if spread_difference < 0 {
            -spread_difference
        } else {
            spread_difference
        };
        let total_gap: i64 = if total_difference < 0 {
            -total_difference
        } else {
            total_difference
        };
        proof {
            lemma_div_round_between(spread_gap + total_gap, 2, 0, 2 * QUOTE_LIMIT);
        }
        let value_score: i64 = div_round_i128(spread_gap as i128 + total_gap as i128, 2) as i64;
        Self {
            id: fresh_id(),
            game_id: betting_line.game_id.clone(),
            betting_line,
            prediction,
            spread_difference: Fixed { raw: spread_difference },
            total_difference: Fixed { raw: total_difference },
            value_score: Fixed { raw: value_score },
            created_at: Timestamp::now(),
        }
    }

    /// Whether the spread difference is larger in magnitude than `threshold`.
    pub fn has_spread_value(&self, threshold: Fixed) -> (has: bool)
        ensures
            has == (magnitude(self.spread_difference.raw as int) > threshold.raw),
    {
        let d: i128 = self.spread_difference.raw as i128;
        let gap: i128 = if d < 0 {
            -d
        } else {
            d
        };
        gap > threshold.raw as i128
    }

    /// Whether the total difference is larger in magnitude than `threshold`.
    pub fn has_total_value(&self, threshold: Fixed) -> (has: bool)
        ensures
            has == (magnitude(self.total_difference.raw as int) > threshold.raw),
    {
        let d: i128 = self.total_difference.raw as i128;
        let gap: i128 = if d < 0 {
            -d
        } else {
            d
        };
        gap > threshold.raw as i128
    }

    /// Advice on the spread, in words.
    pub fn get_spread_recommendation(&self) -> (advice: Option<String>)
        requires
            self.betting_line.spread.raw > i64::MIN,
        ensures
            match (advice, self.spread_advice()) {
                (Some(text), Some(wanted)) => text@ == wanted,
                (None, None) => true,
                _ => false,
            },
    {
        if self.spread_difference.raw > SPREAD_RECOMMENDATION_EDGE {
            let quoted = self.betting_line.spread.raw;
            let gap: i64 = if quoted < 0 {
                -quoted
            } else {
                quoted
            };
            let mut text = String::from_str("Consider betting the underdog (+");
            push_decimal(&mut text, Fixed { raw: gap }, 1);
            text.append(")");
            assert(text@ =~= underdog_text(self.betting_line.spread.raw as int));
            Some(text)
        } else if self.spread_difference.raw < -SPREAD_RECOMMENDATION_EDGE {
            let mut text = String::from_str("Consider betting the favorite (");
            push_decimal(&mut text, self.betting_line.spread, 1);
            text.append(")");
            assert(text@ =~= favorite_text(self.betting_line.spread.raw as int));
            Some(text)
        } else {
            None
        }
    }

    /// Advice on the total, in words.
    pub fn get_total_recommendation(&self) -> (advice: Option<String>)
        ensures
            match (advice, self.total_advice()) {
                (Some(text), Some(wanted)) => text@ == wanted,
                (None, None) => true,
                _ => false,
            },
    {
        if self.total_difference.raw > TOTAL_RECOMMENDATION_EDGE {
            let mut text = String::from_str("Consider betting OVER ");
            push_decimal(&mut text, self.betting_line.total, 1);
            assert(text@ =~= over_text(self.betting_line.total.raw as int));
            Some(text)
        } else if self.total_difference.raw < -TOTAL_RECOMMENDATION_EDGE {
            let mut text = String::from_str("Consider betting UNDER ");
            push_decimal(&mut text, self.betting_line.total, 1);
            assert(text@ =~= under_text(self.betting_line.total.raw as int));
            Some(text)
        } else {
            None
        }
    }
}

/// What kind of bet an opportunity is about.
#[derive(Clone, Copy, Debug, PartialEq, Eq, Structural)]
pub enum OpportunityType {
    SpreadValue,
    TotalValue,
    MoneylineValue,
    ArbitrageOpportunity,
}

/// A bet on which the model and the market disagree by enough to matter.
#[derive(Clone, Debug, PartialEq)]
pub struct ValueOpportunity {
    pub id: String,
    pub game_id: String,
    pub opportunity_type: OpportunityType,
    pub confidence: Fixed,
    /// The expected value as a plain decimal, not as a percentage.
    pub expected_value: Fixed,
    pub recommendation: String,
    pub betting_line_id: String,
    pub created_at: Timestamp,
    pub expires_at: Option<Timestamp>,
}

impl ValueOpportunity {
    /// The confidence is a probability.
    pub open spec fn well_formed(&self) -> bool {
        0 <= self.confidence.raw <= SCALE
    }

    /// The confidence given to an opportunity found from two probabilities:
    /// the larger of the two, but no more than 0.95.
    pub open spec fn capped_confidence(community: int, betting: int) -> int {
        vstd::math::min(vstd::math::max(community, betting), CONFIDENCE_CAP as int)
    }

    /// Whether two probabilities are far enough apart to count as value.
    pub open spec fn has_edge(community: int, betting: int) -> bool {
        magnitude(community - betting) >= PROBABILITY_EDGE
    }

    /// A new opportunity without an expiry, under a fresh identifier and
    /// stamped with the current time.
    pub fn new(
        game_id: String,
        opportunity_type: OpportunityType,
        confidence: Fixed,
        expected_value: Fixed,
        recommendation: String,
        betting_line_id: String,
    ) -> (opportunity: Self)
        ensures
            opportunity.game_id == game_id,
            opportunity.opportunity_type == opportunity_type,
            opportunity.confidence == confidence,
            opportunity.expected_value == expected_value,
            opportunity.recommendation == recommendation,
            opportunity.betting_line_id == betting_line_id,
            opportunity.expires_at is None,
            opportunity.id@.len() == ID_LENGTH,
            opportunity.well_formed() <==> 0 <= confidence.raw <= SCALE,
    {
        Self {
            id: fresh_id(),
            game_id,
            opportunity_type,
            confidence,
            expected_value,
            recommendation,
            betting_line_id,
            created_at: Timestamp::now(),
            expires_at: None,
        }
    }

    /// Looks for value on one team's side of the spread, given the win
    /// probability the community gives that team and the one the betting
    /// line implies. There is an opportunity exactly when the two are at
    /// least 0.05 apart; its expected value is the signed difference.
    pub fn from_probability_analysis(
        game_id: String,
        betting_line_id: String,
        community_prob: Fixed,
        betting_prob: Fixed,
        team_abbr: String,
        spread: Fixed,
        _is_home: bool,
    ) -> (found: Option<Self>)
        requires
            0 <= community_prob.raw <= SCALE,
            0 <= betting_prob.raw <= SCALE,
        ensures
            found is Some <==> Self::has_edge(community_prob.raw as int, betting_prob.raw as int),
            found matches Some(opportunity) ==> {
                &&& opportunity.game_id == game_id
                &&& opportunity.betting_line_id == betting_line_id
                &&& opportunity.opportunity_type == OpportunityType::SpreadValue
                &&& opportunity.confidence.raw == Self::capped_confidence(
                    community_prob.raw as int,
                    betting_prob.raw as int,
                )
                &&& opportunity.expected_value.raw == community_prob.raw - betting_prob.raw
                &&& opportunity.recommendation@ == side_text(team_abbr@, spread.raw as int)
                &&& opportunity.expires_at is None
                &&& opportunity.id@.len() == ID_LENGTH
                &&& opportunity.well_formed()
            },
    {
        let value_diff: i64 = community_prob.raw - betting_prob.raw;
        let gap: i64 = if value_diff < 0 {
            -value_diff
        } else {
            value_diff
        };
        if gap < PROBABILITY_EDGE {
            return None;
        }
        let larger: i64 = if community_prob.raw >= betting_prob.raw {
            community_prob.raw
        } else {
            betting_prob.raw
        };
        let confidence: i64 = if larger <= CONFIDENCE_CAP {
            larger
        } else {
            CONFIDENCE_CAP
        };
        let mut recommendation = team_abbr;
        if spread.raw > 0 {
            recommendation.append(" +");
            push_decimal(&mut recommendation, spread, 1);
        } else if spread.raw < 0 {
            recommendation.append(" ");
            push_decimal(&mut recommendation, spread, 1);
        } else {
            recommendation.append(" EVEN");
        }
        assert(recommendation@ =~= side_text(team_abbr@, spread.raw as int));
        Some(
            Self::new(
                game_id,
                OpportunityType::SpreadValue,
                Fixed { raw: confidence },
                Fixed { raw: value_diff },
                recommendation,
                betting_line_id,
            ),
        )
    }

    /// The opportunity with its expiry set to `expires_at`.
    pub fn with_expiry(self, expires_at: Timestamp) -> (opportunity: Self)
        ensures
            opportunity == (Self { expires_at: Some(expires_at), ..self }),
    {
        let mut opportunity = self;
        opportunity.expires_at = Some(expires_at);
        opportunity
    }

    /// Whether the opportunity has an expiry and `now` lies after it.
    pub open spec fn expired_at(&self, now: Timestamp) -> bool {
        self.expires_at matches Some(end) && now.micros > end.micros
    }

    /// Whether the opportunity has an expiry and `now` lies after it.
    pub fn is_expired_at(&self, now: Timestamp) -> (expired: bool)
        ensures
            expired == self.expired_at(now),
    {
        match self.expires_at {
            Some(end) => now.micros > end.micros,
            None => false,
        }
    }

    /// Whether the opportunity has expired, by the system clock: the answer
    /// of `is_expired_at` for the instant that the clock shows. An
    /// opportunity without an expiry, or with one at the last instant, is
    /// never expired.
    pub fn is_expired(&self) -> (expired: bool)
        ensures
            exists|now: Timestamp| expired == #[trigger] self.expired_at(now),
            self.expires_at is None ==> !expired,
            self.expires_at == Some(Timestamp { micros: i64::MAX }) ==> !expired,
    {
        let now = Timestamp::now();
        let expired = self.is_expired_at(now);
        assert(expired == self.expired_at(now));
        expired
    }

    /// Whether the confidence is at least `threshold`.
    pub fn is_high_confidence(&self, threshold: Fixed) -> (high: bool)
        ensures
            high == (self.confidence.raw >= threshold.raw),
    {
        self.confidence.raw >= threshold.raw
    }

    /// Whether the expected value is above zero.
    pub fn is_positive_expected_value(&self) -> (positive: bool)
        ensures
            positive == (self.expected_value.raw > 0),
    {
        self.expected_value.raw > 0
    }
}

/// A source of betting lines and the pace at which it may be asked.
#[derive(Clone, Debug, PartialEq)]
pub struct BettingProvider {
    pub id: String,
    pub name: String,
    pub api_endpoint: String,
    pub is_active: bool,
    pub rate_limit_per_minute: u32,
    pub last_request_at: Option<Timestamp>,
    pub created_at: Timestamp,
}

impl BettingProvider {
    /// The least time between two requests, in microseconds: a minute
    /// shared out over the allowed requests, in whole seconds.
    pub open spec fn min_interval_micros(&self) -> int {
        (60int / (self.rate_limit_per_minute as int)) * MICROS_PER_SECOND
    }

    /// Whether a request may be made at `now`: the provider is active and
    /// either has never been asked or was last asked at least the minimum
    /// interval ago.
    pub open spec fn may_request_at(&self, now: Timestamp) -> bool {
        self.is_active && match self.last_request_at {
            Some(last) => now.micros - last.micros >= self.min_interval_micros(),
            None => true,
        }
    }

    /// A new active provider that has not been asked yet.
    pub fn new(name: String, api_endpoint: String, rate_limit_per_minute: u32) -> (provider: Self)
        ensures
            provider.name == name,
            provider.api_endpoint == api_endpoint,
            provider.rate_limit_per_minute == rate_limit_per_minute,
            provider.is_active,
            provider.last_request_at is None,
            provider.id@.len() == ID_LENGTH,
    {
        Self {
            id: fresh_id(),
            name,
            api_endpoint,
            is_active: true,
            rate_limit_per_minute,
            last_request_at: None,
            created_at: Timestamp::now(),
        }
    }

    /// Whether a request may be made at the instant `now`.
    pub fn can_make_request_at(&self, now: Timestamp) -> (allowed: bool)
        requires
            self.is_active && self.last_request_at is Some ==> self.rate_limit_per_minute > 0,
        ensures
            allowed == self.may_request_at(now),
    {
        if !self.is_active {
            return false;
        }
        match self.last_request_at {
            Some(last) => {
                let elapsed: i128 = now.micros as i128 - last.micros as i128;
                let seconds: i128 = 60 / (self.rate_limit_per_minute as i128);
                assert(seconds * MICROS_PER_SECOND == seconds * 1_000_000) by (nonlinear_arith)
                    requires
                        MICROS_PER_SECOND == 1_000_000,
                ;
                elapsed >= seconds * MICROS_PER_SECOND as i128
            },
            None => true,
        }
    }

    /// Whether a request may be made now, by the system clock.
    pub fn can_make_request(&self) -> (allowed: bool)
        requires
            self.is_active && self.last_request_at is Some ==> self.rate_limit_per_minute > 0,
        ensures
            !self.is_active ==> !allowed,
            self.is_active && self.last_request_at is None ==> allowed,
    {
        self.can_make_request_at(Timestamp::now())
    }

    /// Notes that a request was made at the instant `now`.
    pub fn record_request_at(&mut self, now: Timestamp)
        ensures
            *final(self) == (BettingProvider { last_request_at: Some(now), ..*old(self) }),
    {
        self.last_request_at = Some(now);
    }

    /// Notes that a request is being made now, by the system clock.
    pub fn record_request(&mut self)
        ensures
            final(self).last_request_at is Some,
            *final(self) == (BettingProvider {
                last_request_at: final(self).last_request_at,
                ..*old(self)
            }),
    {
        let now = Timestamp::now();
        self.record_request_at(now);
    }
}

} // verus!
