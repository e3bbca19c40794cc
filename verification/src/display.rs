//! What a dashboard shows for a game: where the strength lies, which bet is
//! recommended, and how strongly.
use crate::betting::{side_text, BettingLine, OpportunityType, ValueOpportunity};
use crate::fixed::{magnitude, Fixed, QUOTE_LIMIT, SCALE};
use crate::game::Game;
use crate::logistic::{spread_to_probability, spread_to_probability_of};
use crate::matchup::GameWithPredictionAndLines;
use crate::text::{contains_text, decimal_text, lowercase_of, occurs_in, push_decimal, to_lowercase};
use vstd::prelude::*;
use vstd::string::*;

verus! {

/// One hundred percent.
pub const FULL_SHARE_PERCENT: i64 = 100_000_000;

/// The share shown for either side when there is no line, 50 percent.
pub const EVEN_SHARE_PERCENT: i64 = 50_000_000;

/// The smallest share ever shown for a side, 5 percent.
pub const LEAST_SHARE_PERCENT: i64 = 5_000_000;

/// The largest share ever shown for a side, 95 percent.
pub const MOST_SHARE_PERCENT: i64 = 95_000_000;

/// The value, in percent, that earns one star; every further multiple up
/// to the fifth earns another.
pub const PERCENT_PER_STAR: i64 = 3_000_000;

/// How many of five stars a value of `percent` earns: one for every three
/// percent of magnitude.
pub open spec fn star_count(percent: int) -> int {
    vstd::math::min(magnitude(percent) / (PERCENT_PER_STAR as int), 5)
}

/// Five stars, the first `filled` of them solid.
pub open spec fn star_text(filled: int) -> Seq<char> {
    if filled >= 5 {
        "★★★★★"@
    } else if filled == 4 {
        "★★★★☆"@
    } else if filled == 3 {
        "★★★☆☆"@
    } else if filled == 2 {
        "★★☆☆☆"@
    } else if filled == 1 {
        "★☆☆☆☆"@
    } else {
        "☆☆☆☆☆"@
    }
}

/// A share in percent kept between 5 and 95.
pub open spec fn shown_share(percent: int) -> int {
    vstd::math::max(vstd::math::min(percent, MOST_SHARE_PERCENT as int), LEAST_SHARE_PERCENT as int)
}

/// The home team's share of the market's belief, in percent: what the
/// logistic curve makes of the quoted spread.
pub open spec fn market_home_share(line_spread: int) -> int {
    spread_to_probability_of(-line_spread) * 100
}

/// The home team's share of the community's belief, in percent. Without an
/// opportunity it is the market's share. With one, the side the
/// recommendation names gains the magnitude of the expected value over the
/// market, within the bounds of what is shown.
pub open spec fn community_home_share(
    line_spread: int,
    first_opportunity: Option<ValueOpportunity>,
    home_abbreviation: Seq<char>,
) -> int {
    let market = market_home_share(line_spread);
    match first_opportunity {
        Some(opportunity) => {
            let gain = magnitude(opportunity.expected_value.raw * 100);
            if occurs_in(home_abbreviation, opportunity.recommendation@) {
                shown_share(market + gain)
            } else {
                FULL_SHARE_PERCENT - shown_share(FULL_SHARE_PERCENT - market + gain)
            }
        },
        None => market,
    }
}

/// The bet to show for a total opportunity whose recommendation reads
/// `lowered` in lower case: over the quoted total if it speaks of over,
/// under it otherwise.
pub open spec fn total_bet_text(lowered: Seq<char>, line_total: int) -> Seq<char> {
    if occurs_in("over"@, lowered) {
        "OVER "@ + decimal_text(line_total, 1)
    } else {
        "UNDER "@ + decimal_text(line_total, 1)
    }
}

/// The bet to show for an opportunity. With a line at hand, a spread
/// opportunity shows the team its recommendation names at the spread the
/// line quotes for it, and a total opportunity shows over or under the
/// quoted total; anything else shows the recommendation as it is.
pub open spec fn shown_bet(
    opportunity: ValueOpportunity,
    game: Game,
    primary_line: Option<BettingLine>,
) -> Seq<char> {
    match primary_line {
        Some(line) => match opportunity.opportunity_type {
            OpportunityType::SpreadValue => if occurs_in(
                game.home_team.abbreviation@,
                opportunity.recommendation@,
            ) {
                side_text(game.home_team.abbreviation@, line.spread.raw as int)
            } else {
                side_text(game.away_team.abbreviation@, -line.spread.raw)
            },
            OpportunityType::TotalValue => total_bet_text(
                lowercase_of(opportunity.recommendation@),
                line.total.raw as int,
            ),
            _ => opportunity.recommendation@,
        },
        None => opportunity.recommendation@,
    }
}

/// A rating of one to five stars for a value given in percent.
pub fn calculate_confidence_score(value_percentage: Fixed) -> (stars: String)
    ensures
        stars@ == star_text(star_count(value_percentage.raw as int)),
{
    let v: i128 = value_percentage.raw as i128;
    let abs_value: i128 = if v < 0 {
        -v
    } else {
        v
    };
    if abs_value >= 15_000_000 {
        String::from_str("★★★★★")
    } else if abs_value >= 12_000_000 {
        String::from_str("★★★★☆")
    } else if abs_value >= 9_000_000 {
        String::from_str("★★★☆☆")
    } else if abs_value >= 6_000_000 {
        String::from_str("★★☆☆☆")
    } else if abs_value >= 3_000_000 {
        String::from_str("★☆☆☆☆")
    } else {
        String::from_str("☆☆☆☆☆")
    }
}

/// A team and the spread it is quoted at.
fn side_label(team: &str, spread: Fixed) -> (label: String)
    ensures
        label@ == side_text(team@, spread.raw as int),
{
    let mut label = String::from_str(team);
    if spread.raw > 0 {
        label.append(" +");
        push_decimal(&mut label, spread, 1);
    } else if spread.raw < 0 {
        label.append(" ");
        push_decimal(&mut label, spread, 1);
    } else {
        label.append(" EVEN");
    }
    assert(label@ =~= side_text(team@, spread.raw as int));
    label
}

/// The bet to show for a total opportunity, given its recommendation in
/// lower case and the quoted total.
pub fn shown_total_bet(lowered: &str, line_total: Fixed) -> (bet: String)
    ensures
        bet@ == total_bet_text(lowered@, line_total.raw as int),
{
    let mut bet = if contains_text(lowered, "over") {
        String::from_str("OVER ")
    } else {
        String::from_str("UNDER ")
    };
    push_decimal(&mut bet, line_total, 1);
    bet
}

/// The bet to show for an opportunity, and its expected value in percent.
pub fn format_betting_recommendation(
    opportunity: &ValueOpportunity,
    game: &Game,
    primary_line: Option<&BettingLine>,
) -> (shown: (String, Fixed))
    requires
        opportunity.expected_value.within(QUOTE_LIMIT as int),
        primary_line matches Some(line) ==> line.spread.raw > i64::MIN,
    ensures
        shown.0@ == shown_bet(
            *opportunity,
            *game,
            match primary_line {
                Some(line) => Some(*line),
                None => None,
            },
        ),
        shown.1.raw == opportunity.expected_value.raw * 100,
{
    let value_percentage = Fixed { raw: opportunity.expected_value.raw * 100 };
    match primary_line {
        Some(line) => {
            match opportunity.opportunity_type {
                OpportunityType::SpreadValue => {
                    let bet_line = if contains_text(
                        opportunity.recommendation.as_str(),
                        game.home_team.abbreviation.as_str(),
                    ) {
                        side_label(game.home_team.abbreviation.as_str(), line.spread)
                    } else {
                        side_label(
                            game.away_team.abbreviation.as_str(),
                            Fixed { raw: -line.spread.raw },
                        )
                    };
                    (bet_line, value_percentage)
                },
                OpportunityType::TotalValue => {
                    let lowered = to_lowercase(opportunity.recommendation.as_str());
                    (shown_total_bet(lowered.as_str(), line.total), value_percentage)
                },
                _ => (opportunity.recommendation.clone(), value_percentage),
            }
        },
        None => (opportunity.recommendation.clone(), value_percentage),
    }
}

/// The shown share for `base + gain`, all in percent.
fn bounded_share(base: i64, gain: i128) -> (share: i64)
    requires
        0 <= gain <= 1_000_000_000_000_000_000_000,
    ensures
        share == shown_share(base + gain),
{
    let sum: i128 = base as i128 + gain;
    if sum > MOST_SHARE_PERCENT as i128 {
        MOST_SHARE_PERCENT
    } else if sum < LEAST_SHARE_PERCENT as i128 {
        LEAST_SHARE_PERCENT
    } else {
        sum as i64
    }
}

/// The two teams' shares of a game, as the community sees them, and the
/// positions of the community's and the market's markers, all in percent
/// and from the home team's side. Without a line the game is shown even
/// and without markers.
pub fn calculate_matchup_visualization(game_data: &GameWithPredictionAndLines) -> (shares: (
    Fixed,
    Fixed,
    Option<Fixed>,
    Option<Fixed>,
))
    ensures
        game_data.betting_lines@.len() == 0 ==> shares == (
            Fixed { raw: EVEN_SHARE_PERCENT },
            Fixed { raw: EVEN_SHARE_PERCENT },
            None::<Fixed>,
            None::<Fixed>,
        ),
        game_data.betting_lines@.len() > 0 ==> ({
            let line = game_data.betting_lines@[0];
            let first = if game_data.value_opportunities@.len() > 0 {
                Some(game_data.value_opportunities@[0])
            } else {
                None
            };
            let community = community_home_share(
                line.spread.raw as int,
                first,
                game_data.game.home_team.abbreviation@,
            );
            &&& shares.0.raw == community
            &&& shares.1.raw == FULL_SHARE_PERCENT - community
            &&& shares.2 == Some(shares.0)
            &&& shares.3 matches Some(market)
            &&& market.raw == market_home_share(line.spread.raw as int)
        }),
{
    if game_data.betting_lines.len() == 0 {
        return (Fixed { raw: EVEN_SHARE_PERCENT }, Fixed { raw: EVEN_SHARE_PERCENT }, None, None);
    }
    let line = &game_data.betting_lines[0];
    let market_home: i64 = line.implied_probability_home_spread().raw * 100;
    let market_away: i64 = FULL_SHARE_PERCENT - market_home;
    let community_home: i64 = if game_data.value_opportunities.len() > 0 {
        let opportunity = &game_data.value_opportunities[0];
        let value_diff: i128 = opportunity.expected_value.raw as i128 * 100;
        let gain: i128 = if value_diff < 0 {
            -value_diff
        } else {
            value_diff
        };
        if contains_text(
            opportunity.recommendation.as_str(),
            game_data.game.home_team.abbreviation.as_str(),
        ) {
            bounded_share(market_home, gain)
        } else {
            FULL_SHARE_PERCENT - bounded_share(market_away, gain)
        }
    } else {
        market_home
    };
    (
        Fixed { raw: community_home },
        Fixed { raw: FULL_SHARE_PERCENT - community_home },
        Some(Fixed { raw: community_home }),
        Some(Fixed { raw: market_home }),
    )
}

} // verus!
