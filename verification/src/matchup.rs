//! A game seen end to end: from two projected scores and a quoted line to
//! the prediction and the value opportunities that follow from them.
use crate::betting::{BettingLine, LineComparison, OpportunityType, ValueOpportunity};
use crate::clock::{Timestamp, MICROS_PER_DAY};
use crate::detection::{are_opportunities_of, detect_value_opportunities};
use crate::distribution::{admissible, ProbabilityDistribution};
use crate::fixed::{magnitude, Fixed, QUOTE_LIMIT, SAMPLE_LIMIT};
use crate::game::{Game, GameStatus};
use crate::prediction::{ConfidenceInterval, GamePrediction, CONFIDENCE_LEVEL_95};
use crate::rounding::{div_round, div_round_i128, lemma_div_round_between};
use crate::team::{Team, TeamStats};
use std::collections::HashMap;
use vstd::prelude::*;
use vstd::string::*;

verus! {

/// How many samples stand for one projected score.
pub const LADDER_RUNGS: usize = 100;

/// The distance between two neighbouring samples, 0.2 points.
pub const LADDER_STEP: i64 = 200_000;

/// The rung that sits on the projected score itself.
pub const LADDER_CENTRE: i64 = 50;

/// The distance from the projected score to the furthest sample, 10 points.
pub const LADDER_REACH: i64 = 10_000_000;

/// The moneyline given to both sides of a line quoted without one.
pub const STANDARD_MONEYLINE: i32 = -110;

/// How many days ahead a game is scheduled.
pub const DAYS_TO_KICKOFF: i64 = 7;

/// The offensive rating of a team with no wins.
pub const BASE_OFFENSIVE_RATING: i64 = 69_000_000;

/// What each win adds to the offensive rating, 2 points.
pub const OFFENSIVE_RATING_PER_WIN: i64 = 2_000_000;

/// The defensive rating of a team with no wins.
pub const BASE_DEFENSIVE_RATING: i64 = 68_000_000;

/// What each win adds to the defensive rating, 1.5 points.
pub const DEFENSIVE_RATING_PER_WIN: i64 = 1_500_000;

/// The samples that stand for a projected score: a hundred values 0.2
/// points apart, from ten points below the score to 9.8 points above it.
pub open spec fn sample_ladder(centre: int) -> Seq<Fixed> {
    Seq::new(
        LADDER_RUNGS as nat,
        |i: int| Fixed { raw: (centre + (i - LADDER_CENTRE) * LADDER_STEP) as i64 },
    )
}

/// The offensive rating of a team with `wins` wins: 85 for eight wins, two
/// points more or less for each win above or below.
pub open spec fn offensive_rating_of(wins: int) -> int {
    BASE_OFFENSIVE_RATING + wins * OFFENSIVE_RATING_PER_WIN
}

/// The defensive rating of a team with `wins` wins: 80 for eight wins, a
/// point and a half more or less for each win above or below.
pub open spec fn defensive_rating_of(wins: int) -> int {
    BASE_DEFENSIVE_RATING + wins * DEFENSIVE_RATING_PER_WIN
}

/// A game with everything known about it.
#[derive(Clone, Debug, PartialEq)]
pub struct GameWithPredictionAndLines {
    pub game: Game,
    pub prediction: Option<GamePrediction>,
    pub betting_lines: Vec<BettingLine>,
    pub value_opportunities: Vec<ValueOpportunity>,
}

/// `team` is a new team with the given names and record, rated by its wins.
pub open spec fn is_rated_team(
    team: Team,
    name: Seq<char>,
    abbreviation: Seq<char>,
    wins: u8,
    losses: u8,
) -> bool {
    &&& team.name@ == name
    &&& team.abbreviation@ == abbreviation
    &&& team.conference is None
    &&& team.division is None
    &&& team.stats.wins == wins
    &&& team.stats.losses == losses
    &&& team.stats.ties == 0
    &&& team.stats.games_played == wins + losses
    &&& team.stats.offensive_rating.raw == offensive_rating_of(wins as int)
    &&& team.stats.defensive_rating.raw == defensive_rating_of(wins as int)
    &&& team.stats.recent_form@.len() == 0
    &&& team.stats.injury_report@.len() == 0
}

/// What goes into a mock game: the two teams with their records, the week
/// and season, the two projected scores, the model's confidence and the
/// quote.
pub struct MockGameInputs {
    pub home_team_name: Seq<char>,
    pub home_team_abbr: Seq<char>,
    pub away_team_name: Seq<char>,
    pub away_team_abbr: Seq<char>,
    pub home_wins: u8,
    pub home_losses: u8,
    pub away_wins: u8,
    pub away_losses: u8,
    pub game_week: u8,
    pub game_season: u16,
    pub predicted_home_score: Fixed,
    pub predicted_away_score: Fixed,
    pub prediction_confidence: Fixed,
    pub betting_spread: Fixed,
    pub betting_total: Fixed,
    pub betting_provider: Seq<char>,
}

impl MockGameInputs {
    /// The records fit the counters of a team and the numbers are small
    /// enough to be worked with.
    pub open spec fn in_range(self) -> bool {
        &&& self.home_wins + self.home_losses <= u8::MAX
        &&& self.away_wins + self.away_losses <= u8::MAX
        &&& self.predicted_home_score.within(SAMPLE_LIMIT - LADDER_REACH)
        &&& self.predicted_away_score.within(SAMPLE_LIMIT - LADDER_REACH)
        &&& self.betting_spread.within(QUOTE_LIMIT as int)
        &&& self.betting_total.within(QUOTE_LIMIT as int)
    }
}

/// `data` is the mock game that `inputs` describe: a scheduled game between
/// the two rated teams, a prediction derived from the summaries of the two
/// sample ladders, one active line with the quote and both moneylines at
/// -110, and the opportunities that the detection rules yield for the pair.
pub open spec fn is_mock_game(data: GameWithPredictionAndLines, inputs: MockGameInputs) -> bool {
    &&& is_rated_team(
        data.game.home_team,
        inputs.home_team_name,
        inputs.home_team_abbr,
        inputs.home_wins,
        inputs.home_losses,
    )
    &&& is_rated_team(
        data.game.away_team,
        inputs.away_team_name,
        inputs.away_team_abbr,
        inputs.away_wins,
        inputs.away_losses,
    )
    &&& data.game.week == inputs.game_week
    &&& data.game.season == inputs.game_season
    &&& data.game.status == GameStatus::Scheduled
    &&& data.game.home_score is None
    &&& data.game.away_score is None
    &&& data.prediction is Some
    &&& data.prediction->0.game_id@ == data.game.id@
    &&& data.prediction->0.home_score_distribution.samples@ == sample_ladder(
        inputs.predicted_home_score.raw as int,
    )
    &&& data.prediction->0.away_score_distribution.samples@ == sample_ladder(
        inputs.predicted_away_score.raw as int,
    )
    &&& data.prediction->0.home_score_distribution.summarizes()
    &&& data.prediction->0.away_score_distribution.summarizes()
    &&& data.prediction->0.derived()
    &&& data.betting_lines@.len() == 1
    &&& data.betting_lines@[0].game_id@ == data.game.id@
    &&& data.betting_lines@[0].provider@ == inputs.betting_provider
    &&& data.betting_lines@[0].spread == inputs.betting_spread
    &&& data.betting_lines@[0].total == inputs.betting_total
    &&& data.betting_lines@[0].moneyline_home == STANDARD_MONEYLINE
    &&& data.betting_lines@[0].moneyline_away == STANDARD_MONEYLINE
    &&& data.betting_lines@[0].is_active
    &&& are_opportunities_of(
        data.value_opportunities@,
        data.betting_lines@[0],
        data.prediction->0.spread_prediction.raw as int,
        data.prediction->0.total_prediction.raw as int,
        inputs.prediction_confidence,
        inputs.home_team_abbr,
        inputs.away_team_abbr,
    )
}

/// A new team with the given record, rated by its wins.
fn rated_team(name: String, abbreviation: String, wins: u8, losses: u8) -> (team: Team)
    requires
        wins + losses <= u8::MAX,
    ensures
        is_rated_team(team, name@, abbreviation@, wins, losses),
{
    let mut team = Team::new(name, abbreviation);
    team.stats.wins = wins;
    team.stats.losses = losses;
    team.stats.games_played = wins + losses;
    team.stats.offensive_rating = Fixed {
        raw: BASE_OFFENSIVE_RATING + wins as i64 * OFFENSIVE_RATING_PER_WIN,
    };
    team.stats.defensive_rating = Fixed {
        raw: BASE_DEFENSIVE_RATING + wins as i64 * DEFENSIVE_RATING_PER_WIN,
    };
    team
}

/// The samples that stand for a projected score.
pub fn build_sample_ladder(centre: Fixed) -> (samples: Vec<Fixed>)
    requires
        centre.within(SAMPLE_LIMIT - LADDER_REACH),
    ensures
        samples@ == sample_ladder(centre.raw as int),
        admissible(samples@),
{
    let mut samples: Vec<Fixed> = Vec::new();
    let mut i: usize = 0;
    while i < LADDER_RUNGS
        invariant
            i <= LADDER_RUNGS,
            centre.within(SAMPLE_LIMIT - LADDER_REACH),
            samples@.len() == i,
            forall|k: int|
                0 <= k < i ==> (#[trigger] samples@[k]).raw == centre.raw + (k - LADDER_CENTRE)
                    * LADDER_STEP,
        decreases LADDER_RUNGS - i,
    {
        let offset: i64 = (i as i64 - LADDER_CENTRE) * LADDER_STEP;
        samples.push(Fixed { raw: centre.raw + offset });
        i = i + 1;
    }
    assert(samples@ =~= sample_ladder(centre.raw as int));
    samples
}

/// Builds a game between two teams from their win-loss records, the two
/// projected scores, the model's confidence and a quoted spread and total.
///
/// The game is scheduled a week from now. Each projected score is spread
/// into a ladder of samples, the two ladders are summarized and combined
/// into the prediction, the quote becomes a line with both moneylines at
/// -110, and the two detection rules are applied to the pair.
pub fn create_mock_game_data(
    home_team_name: String,
    home_team_abbr: String,
    away_team_name: String,
    away_team_abbr: String,
    home_wins: u8,
    home_losses: u8,
    away_wins: u8,
    away_losses: u8,
    game_week: u8,
    game_season: u16,
    predicted_home_score: Fixed,
    predicted_away_score: Fixed,
    prediction_confidence: Fixed,
    betting_spread: Fixed,
    betting_total: Fixed,
    betting_provider: String,
) -> (data: GameWithPredictionAndLines)
    requires
        (MockGameInputs {
            home_team_name: home_team_name@,
            home_team_abbr: home_team_abbr@,
            away_team_name: away_team_name@,
            away_team_abbr: away_team_abbr@,
            home_wins,
            home_losses,
            away_wins,
            away_losses,
            game_week,
            game_season,
            predicted_home_score,
            predicted_away_score,
            prediction_confidence,
            betting_spread,
            betting_total,
            betting_provider: betting_provider@,
        }).in_range(),
    ensures
        is_mock_game(
            data,
            (MockGameInputs {
                home_team_name: home_team_name@,
                home_team_abbr: home_team_abbr@,
                away_team_name: away_team_name@,
                away_team_abbr: away_team_abbr@,
                home_wins,
                home_losses,
                away_wins,
                away_losses,
                game_week,
                game_season,
                predicted_home_score,
                predicted_away_score,
                prediction_confidence,
                betting_spread,
                betting_total,
                betting_provider: betting_provider@,
            }),
        ),
{
    let home_team = rated_team(home_team_name, home_team_abbr, home_wins, home_losses);
    let away_team = rated_team(away_team_name, away_team_abbr, away_wins, away_losses);
    let game_time = Timestamp::now().later_by(DAYS_TO_KICKOFF * MICROS_PER_DAY);
    let game = Game::new(home_team, away_team, game_time, game_week, game_season);

    let home_distribution = ProbabilityDistribution::new(build_sample_ladder(predicted_home_score));
    let away_distribution = ProbabilityDistribution::new(build_sample_ladder(predicted_away_score));
    let prediction = GamePrediction::new(game.id.clone(), home_distribution, away_distribution);
    let betting_line = BettingLine::new(
        game.id.clone(),
        betting_provider,
        betting_spread,
        betting_total,
        STANDARD_MONEYLINE,
        STANDARD_MONEYLINE,
    );

    let comparison = LineComparison::new(betting_line, prediction);
    let value_opportunities = detect_value_opportunities(
        &comparison,
        prediction_confidence,
        game.home_team.abbreviation.as_str(),
        game.away_team.abbreviation.as_str(),
    );
    let LineComparison { betting_line, prediction, .. } = comparison;

    let mut betting_lines: Vec<BettingLine> = Vec::new();
    betting_lines.push(betting_line);
    GameWithPredictionAndLines {
        game,
        prediction: Some(prediction),
        betting_lines,
        value_opportunities,
    }
}

/// The week that listed games belong to.
pub const LISTING_WEEK: u8 = 3;

/// The season that listed games belong to.
pub const LISTING_SEASON: u16 = 2025;

/// The value, in percent, from which a listed game carries an opportunity,
/// 5.0.
pub const LISTED_VALUE_EDGE: i64 = 5_000_000;

/// The least confidence given to the opportunity of a listed game, 0.6.
pub const LISTED_CONFIDENCE_FLOOR: i64 = 600_000;

/// How far the outer samples of a listed score lie from it, 3 points.
pub const LISTED_SAMPLE_SPREAD: i64 = 3_000_000;

/// The standard deviation assumed for a listed score, 7 points.
pub const LISTED_STD_DEV: i64 = 7_000_000;

/// Half the width of the interval given to a listed game, 5 points.
pub const LISTED_INTERVAL_MARGIN: i64 = 5_000_000;

/// One line of a weekly listing: the two teams, their projected scores, the
/// model's confidence, the quoted spread and total, and the recommended bet
/// with its value in percent.
#[derive(Clone, Debug, PartialEq)]
pub struct GameListing {
    pub away_name: String,
    pub away_abbr: String,
    pub home_name: String,
    pub home_abbr: String,
    pub away_score: Fixed,
    pub home_score: Fixed,
    pub confidence: Fixed,
    pub spread: Fixed,
    pub total: Fixed,
    pub bet_rec: String,
    pub value_pct: Fixed,
}

/// The identifier of a listed game.
pub open spec fn listing_game_id(away_abbr: Seq<char>, home_abbr: Seq<char>) -> Seq<char> {
    "nfl_week3_"@ + away_abbr + "_"@ + home_abbr
}

/// Whether a listed value is large enough to be shown as an opportunity.
pub open spec fn listing_has_value(value_pct: int) -> bool {
    magnitude(value_pct) >= LISTED_VALUE_EDGE
}

/// The distribution assumed for a listed score: three samples around it
/// and a standard deviation of seven points, without tabulated percentiles.
pub open spec fn is_listed_distribution(dist: ProbabilityDistribution, score: Fixed) -> bool {
    &&& dist.mean == score
    &&& dist.std_dev.raw == LISTED_STD_DEV
    &&& dist.samples@ == seq![
        Fixed { raw: (score.raw - LISTED_SAMPLE_SPREAD) as i64 },
        score,
        Fixed { raw: (score.raw + LISTED_SAMPLE_SPREAD) as i64 },
    ]
    &&& dist.percentiles@ == Map::<u8, Fixed>::empty()
}

/// The team of a listed game.
pub open spec fn is_listed_team(
    team: Team,
    name: String,
    abbreviation: String,
    conference: Seq<char>,
    ratings: (int, int, int, int, int, int, int),
) -> bool {
    &&& team.id@ == "team_"@ + abbreviation@
    &&& team.name@ == name@
    &&& team.abbreviation@ == abbreviation@
    &&& team.conference matches Some(c) && c@ == conference
    &&& team.division matches Some(d) && d@ == "North"@
    &&& team.stats.offensive_rating.raw == ratings.0
    &&& team.stats.defensive_rating.raw == ratings.1
    &&& team.stats.points_per_game.raw == ratings.2
    &&& team.stats.points_allowed_per_game.raw == ratings.3
    &&& team.stats.yards_per_game.raw == ratings.4
    &&& team.stats.yards_allowed_per_game.raw == ratings.5
    &&& team.stats.turnover_differential == ratings.6
    &&& team.stats.recent_form@.len() == 0
    &&& team.stats.injury_report@.len() == 0
    &&& team.stats.season == LISTING_SEASON
    &&& team.stats.games_played == 2
    &&& team.stats.wins == 1
    &&& team.stats.losses == 1
    &&& team.stats.ties == 0
}

/// The ratings every listed home team is shown with.
pub open spec fn listed_home_ratings() -> (int, int, int, int, int, int, int) {
    (80_000_000, 75_000_000, 24_000_000, 20_000_000, 350_000_000, 320_000_000, 2)
}

/// The ratings every listed away team is shown with.
pub open spec fn listed_away_ratings() -> (int, int, int, int, int, int, int) {
    (78_000_000, 77_000_000, 22_000_000, 21_000_000, 340_000_000, 330_000_000, 0)
}

/// The team of a listed game, with the ratings every such team is shown with.
fn listed_team(
    name: &String,
    abbreviation: &String,
    conference: &str,
    ratings: (i64, i64, i64, i64, i64, i64, i32),
    now: Timestamp,
) -> (team: Team)
    ensures
        is_listed_team(
            team,
            *name,
            *abbreviation,
            conference@,
            (
                ratings.0 as int,
                ratings.1 as int,
                ratings.2 as int,
                ratings.3 as int,
                ratings.4 as int,
                ratings.5 as int,
                ratings.6 as int,
            ),
        ),
{
    let mut id = String::from_str("team_");
    id.append(abbreviation.as_str());
    Team {
        id,
        name: name.clone(),
        abbreviation: abbreviation.clone(),
        conference: Some(String::from_str(conference)),
        division: Some(String::from_str("North")),
        stats: TeamStats {
            offensive_rating: Fixed { raw: ratings.0 },
            defensive_rating: Fixed { raw: ratings.1 },
            points_per_game: Fixed { raw: ratings.2 },
            points_allowed_per_game: Fixed { raw: ratings.3 },
            yards_per_game: Fixed { raw: ratings.4 },
            yards_allowed_per_game: Fixed { raw: ratings.5 },
            turnover_differential: ratings.6,
            recent_form: Vec::new(),
            injury_report: Vec::new(),
            season: LISTING_SEASON,
            games_played: 2,
            wins: 1,
            losses: 1,
            ties: 0,
            last_updated: now,
        },
        created_at: now,
        updated_at: now,
    }
}

/// The distribution assumed for a listed score.
fn listed_distribution(score: Fixed) -> (dist: ProbabilityDistribution)
    requires
        score.within(SAMPLE_LIMIT as int),
    ensures
        is_listed_distribution(dist, score),
{
    let mut samples: Vec<Fixed> = Vec::new();
    samples.push(Fixed { raw: score.raw - LISTED_SAMPLE_SPREAD });
    samples.push(score);
    samples.push(Fixed { raw: score.raw + LISTED_SAMPLE_SPREAD });
    let percentiles: HashMap<u8, Fixed> = HashMap::new();
    assert(samples@ =~= seq![
        Fixed { raw: (score.raw - LISTED_SAMPLE_SPREAD) as i64 },
        score,
        Fixed { raw: (score.raw + LISTED_SAMPLE_SPREAD) as i64 },
    ]);
    ProbabilityDistribution {
        mean: score,
        std_dev: Fixed { raw: LISTED_STD_DEV },
        samples,
        percentiles,
    }
}

/// Turns one line of a weekly listing into a game with its prediction, its
/// line and, if the listed value is at least five percent either way, its
/// opportunity.
///
/// The game is played tomorrow. The prediction is taken from the listed
/// scores as they are; the opportunity carries the listed recommendation,
/// the listed value as a plain decimal, and the listed confidence raised to
/// 0.6 where it is lower.
pub fn game_from_listing(listing: GameListing) -> (data: GameWithPredictionAndLines)
    requires
        listing.home_score.within(SAMPLE_LIMIT as int),
        listing.away_score.within(SAMPLE_LIMIT as int),
    ensures
        data.game.id@ == listing_game_id(listing.away_abbr@, listing.home_abbr@),
        data.game.week == LISTING_WEEK,
        data.game.season == LISTING_SEASON,
        data.game.status == GameStatus::Scheduled,
        data.game.home_score is None,
        data.game.away_score is None,
        is_listed_team(
            data.game.home_team,
            listing.home_name,
            listing.home_abbr,
            "NFC"@,
            listed_home_ratings(),
        ),
        is_listed_team(
            data.game.away_team,
            listing.away_name,
            listing.away_abbr,
            "AFC"@,
            listed_away_ratings(),
        ),
        data.prediction matches Some(p) && {
            &&& p.id@ == "pred_"@ + data.game.id@
            &&& p.game_id@ == data.game.id@
            &&& is_listed_distribution(p.home_score_distribution, listing.home_score)
            &&& is_listed_distribution(p.away_score_distribution, listing.away_score)
            &&& p.spread_prediction.raw == listing.home_score.raw - listing.away_score.raw
            &&& p.total_prediction.raw == listing.home_score.raw + listing.away_score.raw
            &&& p.confidence_interval.lower_bound.raw == p.total_prediction.raw
                - LISTED_INTERVAL_MARGIN
            &&& p.confidence_interval.upper_bound.raw == p.total_prediction.raw
                + LISTED_INTERVAL_MARGIN
            &&& p.confidence_interval.confidence_level.raw == CONFIDENCE_LEVEL_95
        },
        data.betting_lines@.len() == 1,
        data.betting_lines@[0].game_id@ == data.game.id@,
        data.betting_lines@[0].provider@ == "Probability Analysis"@,
        data.betting_lines@[0].spread == listing.spread,
        data.betting_lines@[0].total == listing.total,
        data.betting_lines@[0].moneyline_home == STANDARD_MONEYLINE,
        data.betting_lines@[0].moneyline_away == STANDARD_MONEYLINE,
        data.betting_lines@[0].is_active,
        data.value_opportunities@.len() == if listing_has_value(listing.value_pct.raw as int) {
            1int
        } else {
            0int
        },
        listing_has_value(listing.value_pct.raw as int) ==> ({
            let found = data.value_opportunities@[0];
            &&& found.game_id@ == data.game.id@
            &&& found.opportunity_type == OpportunityType::SpreadValue
            &&& found.confidence.raw == vstd::math::max(
                listing.confidence.raw as int,
                LISTED_CONFIDENCE_FLOOR as int,
            )
            &&& found.expected_value.raw == div_round(listing.value_pct.raw as int, 100)
            &&& found.recommendation == listing.bet_rec
            &&& found.betting_line_id@ == "line_"@ + data.game.id@
            &&& found.expires_at is None
        }),
{
    let mut game_id = String::from_str("nfl_week3_");
    game_id.append(listing.away_abbr.as_str());
    game_id.append("_");
    game_id.append(listing.home_abbr.as_str());
    assert(game_id@ =~= listing_game_id(listing.away_abbr@, listing.home_abbr@));
    let mut line_id = String::from_str("line_");
    line_id.append(game_id.as_str());
    let mut prediction_id = String::from_str("pred_");
    prediction_id.append(game_id.as_str());

    let value: i128 = listing.value_pct.raw as i128;
    let value_size: i128 = if value < 0 {
        -value
    } else {
        value
    };
    let mut value_opportunities: Vec<ValueOpportunity> = Vec::new();
    if value_size >= LISTED_VALUE_EDGE as i128 {
        let confidence = if listing.confidence.raw >= LISTED_CONFIDENCE_FLOOR {
            listing.confidence
        } else {
            Fixed { raw: LISTED_CONFIDENCE_FLOOR }
        };
        proof {
            lemma_div_round_between(value as int, 100, i64::MIN as int, i64::MAX as int);
        }
        let expected_value = Fixed { raw: div_round_i128(value, 100) as i64 };
        value_opportunities.push(
            ValueOpportunity::new(
                game_id.clone(),
                OpportunityType::SpreadValue,
                confidence,
                expected_value,
                listing.bet_rec,
                line_id,
            ),
        );
    }
    let now = Timestamp::now();
    let home_team = listed_team(
        &listing.home_name,
        &listing.home_abbr,
        "NFC",
        (80_000_000, 75_000_000, 24_000_000, 20_000_000, 350_000_000, 320_000_000, 2),
        now,
    );
    let away_team = listed_team(
        &listing.away_name,
        &listing.away_abbr,
        "AFC",
        (78_000_000, 77_000_000, 22_000_000, 21_000_000, 340_000_000, 330_000_000, 0),
        now,
    );
    let total: i64 = listing.home_score.raw + listing.away_score.raw;
    let prediction = GamePrediction {
        id: prediction_id,
        game_id: game_id.clone(),
        home_score_distribution: listed_distribution(listing.home_score),
        away_score_distribution: listed_distribution(listing.away_score),
        spread_prediction: Fixed { raw: listing.home_score.raw - listing.away_score.raw },
        total_prediction: Fixed { raw: total },
        confidence_interval: ConfidenceInterval {
            lower_bound: Fixed { raw: total - LISTED_INTERVAL_MARGIN },
            upper_bound: Fixed { raw: total + LISTED_INTERVAL_MARGIN },
            confidence_level: Fixed { raw: CONFIDENCE_LEVEL_95 },
        },
        generated_at: now,
    };
    let betting_line = BettingLine::new(
        game_id.clone(),
        String::from_str("Probability Analysis"),
        listing.spread,
        listing.total,
        STANDARD_MONEYLINE,
        STANDARD_MONEYLINE,
    );
    let mut betting_lines: Vec<BettingLine> = Vec::new();
    betting_lines.push(betting_line);
    GameWithPredictionAndLines {
        game: Game {
            id: game_id,
            home_team,
            away_team,
            game_time: now.later_by(MICROS_PER_DAY),
            week: LISTING_WEEK,
            season: LISTING_SEASON,
            status: GameStatus::Scheduled,
            home_score: None,
            away_score: None,
            created_at: now,
            updated_at: now,
        },
        prediction: Some(prediction),
        betting_lines,
        value_opportunities,
    }
}

} // verus!
