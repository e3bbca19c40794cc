//! The rules that turn a comparison into value opportunities.
use crate::betting::{
    over_text, under_text, BettingLine, LineComparison, OpportunityType, ValueOpportunity,
};
use crate::fixed::{magnitude, Fixed};
use crate::ident::ID_LENGTH;
use crate::text::{decimal_text, push_decimal};
use vstd::prelude::*;
use vstd::string::*;

verus! {

/// The spread difference that must be exceeded for spread value, 2.0.
pub const SPREAD_VALUE_EDGE: i64 = 2_000_000;

/// The total difference that must be exceeded for total value, 3.0.
pub const TOTAL_VALUE_EDGE: i64 = 3_000_000;

/// The model confidence that must be exceeded for spread value, 0.2.
pub const MIN_MODEL_CONFIDENCE: i64 = 200_000;

/// The spread rule: the prediction and the line are more than two points
/// apart and the model's confidence is above 0.2.
pub open spec fn spread_rule_fires(spread_difference: int, model_confidence: int) -> bool {
    magnitude(spread_difference) > SPREAD_VALUE_EDGE && model_confidence > MIN_MODEL_CONFIDENCE
}

/// The total rule: the prediction and the line are more than three points
/// apart.
pub open spec fn total_rule_fires(total_difference: int) -> bool {
    magnitude(total_difference) > TOTAL_VALUE_EDGE
}

/// Which side spread value is on: the away team when the predicted spread
/// is below the quoted one, the home team otherwise.
pub open spec fn value_is_on_away_side(predicted_spread: int, line_spread: int) -> bool {
    predicted_spread < line_spread
}

/// The recommendation of a spread opportunity: the team, a colon, and the
/// magnitude of the quoted spread behind a minus sign.
pub open spec fn spread_value_text(team: Seq<char>, line_spread: int) -> Seq<char> {
    team + ": -"@ + decimal_text(magnitude(line_spread), 1)
}

/// `found` is the spread opportunity that a predicted spread yields
/// against `line`: it names the side the value is on, and its expected
/// value is the distance between the two spreads.
pub open spec fn is_spread_opportunity(
    found: ValueOpportunity,
    line: BettingLine,
    predicted_spread: int,
    model_confidence: Fixed,
    home_team: Seq<char>,
    away_team: Seq<char>,
) -> bool {
    let team = if value_is_on_away_side(predicted_spread, line.spread.raw as int) {
        away_team
    } else {
        home_team
    };
    &&& found.opportunity_type == OpportunityType::SpreadValue
    &&& found.game_id@ == line.game_id@
    &&& found.betting_line_id@ == line.id@
    &&& found.confidence == model_confidence
    &&& found.expected_value.raw == magnitude(predicted_spread - line.spread.raw)
    &&& found.recommendation@ == spread_value_text(team, line.spread.raw as int)
    &&& found.expires_at is None
    &&& found.id@.len() == ID_LENGTH
}

/// `found` is the total opportunity that a predicted total yields against
/// `line`: over when the prediction is above the line, under otherwise,
/// with the distance between the two totals as its expected value.
pub open spec fn is_total_opportunity(
    found: ValueOpportunity,
    line: BettingLine,
    predicted_total: int,
    model_confidence: Fixed,
) -> bool {
    &&& found.opportunity_type == OpportunityType::TotalValue
    &&& found.game_id@ == line.game_id@
    &&& found.betting_line_id@ == line.id@
    &&& found.confidence == model_confidence
    &&& found.expected_value.raw == magnitude(predicted_total - line.total.raw)
    &&& found.recommendation@ == if predicted_total > line.total.raw {
        over_text(line.total.raw as int)
    } else {
        under_text(line.total.raw as int)
    }
    &&& found.expires_at is None
    &&& found.id@.len() == ID_LENGTH
}

/// `found` holds exactly the opportunities that the two rules yield for a
/// predicted spread and total against `line`: one for each rule that fires,
/// the spread one first.
pub open spec fn are_opportunities_of(
    found: Seq<ValueOpportunity>,
    line: BettingLine,
    predicted_spread: int,
    predicted_total: int,
    model_confidence: Fixed,
    home_team: Seq<char>,
    away_team: Seq<char>,
) -> bool {
    let spread = spread_rule_fires(
        predicted_spread - line.spread.raw,
        model_confidence.raw as int,
    );
    let total = total_rule_fires(predicted_total - line.total.raw);
    &&& found.len() == (if spread {
        1int
    } else {
        0int
    }) + (if total {
        1int
    } else {
        0int
    })
    &&& spread ==> is_spread_opportunity(
        found[0],
        line,
        predicted_spread,
        model_confidence,
        home_team,
        away_team,
    )
    &&& total ==> is_total_opportunity(
        found[found.len() - 1],
        line,
        predicted_total,
        model_confidence,
    )
}

/// Whether the spread rule fires.
pub fn has_spread_value(spread_difference: Fixed, model_confidence: Fixed) -> (fires: bool)
    ensures
        fires == spread_rule_fires(spread_difference.raw as int, model_confidence.raw as int),
{
    let d: i128 = spread_difference.raw as i128;
    let gap: i128 = if d < 0 {
        -d
    } else {
        d
    };
    gap > SPREAD_VALUE_EDGE as i128 && model_confidence.raw > MIN_MODEL_CONFIDENCE
}

/// Whether the total rule fires.
pub fn has_total_value(total_difference: Fixed) -> (fires: bool)
    ensures
        fires == total_rule_fires(total_difference.raw as int),
{
    let d: i128 = total_difference.raw as i128;
    let gap: i128 = if d < 0 {
        -d
    } else {
        d
    };
    gap > TOTAL_VALUE_EDGE as i128
}

/// The opportunity that the spread rule yields.
fn spread_opportunity(
    comparison: &LineComparison,
    model_confidence: Fixed,
    home_team: &str,
    away_team: &str,
) -> (found: ValueOpportunity)
    requires
        comparison.derived(),
        comparison.in_range(),
    ensures
        is_spread_opportunity(
            found,
            comparison.betting_line,
            comparison.prediction.spread_prediction.raw as int,
            model_confidence,
            home_team@,
            away_team@,
        ),
{
    let quoted = comparison.betting_line.spread.raw;
    let gap = Fixed {
        raw: if quoted < 0 {
            -quoted
        } else {
            quoted
        },
    };
    let team = if comparison.prediction.spread_prediction.raw < quoted {
        away_team
    } else {
        home_team
    };
    let mut recommendation = String::from_str(team);
    recommendation.append(": -");
    push_decimal(&mut recommendation, gap, 1);
    assert(recommendation@ =~= spread_value_text(team@, quoted as int));
    let difference = comparison.spread_difference.raw;
    let edge = Fixed {
        raw: if difference < 0 {
            -difference
        } else {
            difference
        },
    };
    ValueOpportunity::new(
        comparison.betting_line.game_id.clone(),
        OpportunityType::SpreadValue,
        model_confidence,
        edge,
        recommendation,
        comparison.betting_line.id.clone(),
    )
}

/// The opportunity that the total rule yields.
fn total_opportunity(comparison: &LineComparison, model_confidence: Fixed) -> (found:
    ValueOpportunity)
    requires
        comparison.derived(),
        comparison.in_range(),
    ensures
        is_total_opportunity(
            found,
            comparison.betting_line,
            comparison.prediction.total_prediction.raw as int,
            model_confidence,
        ),
{
    let difference = comparison.total_difference.raw;
    let mut recommendation = if difference > 0 {
        String::from_str("Consider betting OVER ")
    } else {
        String::from_str("Consider betting UNDER ")
    };
    push_decimal(&mut recommendation, comparison.betting_line.total, 1);
    assert(recommendation@ =~= if difference > 0 {
        over_text(comparison.betting_line.total.raw as int)
    } else {
        under_text(comparison.betting_line.total.raw as int)
    });
    let edge = Fixed {
        raw: if difference < 0 {
            -difference
        } else {
            difference
        },
    };
    ValueOpportunity::new(
        comparison.betting_line.game_id.clone(),
        OpportunityType::TotalValue,
        model_confidence,
        edge,
        recommendation,
        comparison.betting_line.id.clone(),
    )
}

/// Applies the spread rule and the total rule to a comparison. Each rule
/// that fires yields one opportunity, the spread one first; the model's
/// confidence is handed on unchanged. The home and the away team are named
/// as the recommendation is to name them.
pub fn detect_value_opportunities(
    comparison: &LineComparison,
    model_confidence: Fixed,
    home_team: &str,
    away_team: &str,
) -> (found: Vec<ValueOpportunity>)
    requires
        comparison.derived(),
        comparison.in_range(),
    ensures
        are_opportunities_of(
            found@,
            comparison.betting_line,
            comparison.prediction.spread_prediction.raw as int,
            comparison.prediction.total_prediction.raw as int,
            model_confidence,
            home_team@,
            away_team@,
        ),
{
    let mut found: Vec<ValueOpportunity> = Vec::new();
    if has_spread_value(comparison.spread_difference, model_confidence) {
        found.push(spread_opportunity(comparison, model_confidence, home_team, away_team));
    }
    if has_total_value(comparison.total_difference) {
        found.push(total_opportunity(comparison, model_confidence));
    }
    found
}

} // verus!
