use prediction_engine::betting::{BettingLine, OpportunityType, ValueOpportunity};
use prediction_engine::clock::Timestamp;
use prediction_engine::display::{
    calculate_confidence_score, calculate_matchup_visualization, format_betting_recommendation,
};
use prediction_engine::fixed::Fixed;
use prediction_engine::game::{Game, GameStatus};
use prediction_engine::matchup::{
    build_sample_ladder, create_mock_game_data, game_from_listing, GameListing,
    GameWithPredictionAndLines,
};
use prediction_engine::migration::{DataSeeder, MigrationManager, MigrationStatus};
use prediction_engine::team::{get_team_name, Team};
use prediction_engine::text::{chars_of, contains_text, same_text};

fn mock_game(home_score: i64, away_score: i64, confidence: i64, spread: i64, total: i64) -> GameWithPredictionAndLines {
    create_mock_game_data(
        "Kansas City Chiefs".to_string(),
        "KC".to_string(),
        "Buffalo Bills".to_string(),
        "BUF".to_string(),
        8,
        3,
        7,
        4,
        3,
        2025,
        Fixed::from_raw(home_score),
        Fixed::from_raw(away_score),
        Fixed::from_raw(confidence),
        Fixed::from_raw(spread),
        Fixed::from_raw(total),
        "CSV Data".to_string(),
    )
}

fn listing(value_pct: i64, confidence: i64, spread: i64, bet_rec: &str) -> GameListing {
    GameListing {
        away_name: "Atlanta Falcons".to_string(),
        away_abbr: "ATL".to_string(),
        home_name: "Carolina Panthers".to_string(),
        home_abbr: "CAR".to_string(),
        away_score: Fixed::from_raw(26_400_000),
        home_score: Fixed::from_raw(21_600_000),
        confidence: Fixed::from_raw(confidence),
        spread: Fixed::from_raw(spread),
        total: Fixed::from_raw(45_000_000),
        bet_rec: bet_rec.to_string(),
        value_pct: Fixed::from_raw(value_pct),
    }
}

fn plain_game(home: &str, away: &str) -> Game {
    Game::new(
        Team::new("Home".to_string(), home.to_string()),
        Team::new("Away".to_string(), away.to_string()),
        Timestamp::from_micros(0),
        1,
        2025,
    )
}

fn opportunity(kind: OpportunityType, expected_value: i64, recommendation: &str) -> ValueOpportunity {
    ValueOpportunity::new(
        "game-1".to_string(),
        kind,
        Fixed::from_raw(600_000),
        Fixed::from_raw(expected_value),
        recommendation.to_string(),
        "line-1".to_string(),
    )
}

fn quoted(spread: i64, total: i64) -> BettingLine {
    BettingLine::new(
        "game-1".to_string(),
        "DraftKings".to_string(),
        Fixed::from_raw(spread),
        Fixed::from_raw(total),
        -110,
        -110,
    )
}

#[test]
fn sample_ladder_has_a_hundred_rungs() {
    let ladder = build_sample_ladder(Fixed::from_raw(27_000_000));
    assert_eq!(ladder.len(), 100);
    assert_eq!(ladder[0].to_raw(), 17_000_000);
    assert_eq!(ladder[50].to_raw(), 27_000_000);
    assert_eq!(ladder[51].to_raw(), 27_200_000);
    assert_eq!(ladder[99].to_raw(), 36_800_000);
}

#[test]
fn mock_game_runs_the_whole_pipeline() {
    let data = mock_game(27_000_000, 20_000_000, 500_000, -3_000_000, 43_000_000);

    assert_eq!(data.game.home_team.name, "Kansas City Chiefs");
    assert_eq!(data.game.home_team.abbreviation, "KC");
    assert_eq!(data.game.home_team.stats.wins, 8);
    assert_eq!(data.game.home_team.stats.losses, 3);
    assert_eq!(data.game.home_team.stats.games_played, 11);
    assert_eq!(data.game.home_team.stats.offensive_rating.to_raw(), 85_000_000);
    assert_eq!(data.game.home_team.stats.defensive_rating.to_raw(), 80_000_000);
    assert_eq!(data.game.away_team.stats.offensive_rating.to_raw(), 83_000_000);
    assert_eq!(data.game.away_team.stats.defensive_rating.to_raw(), 78_500_000);
    assert_eq!(data.game.week, 3);
    assert_eq!(data.game.season, 2025);
    assert_eq!(data.game.status, GameStatus::Scheduled);
    assert!(data.game.game_time > Timestamp::now());

    let prediction = data.prediction.unwrap();
    assert_eq!(prediction.game_id, data.game.id);
    assert_eq!(prediction.home_score_distribution.mean.to_raw(), 26_900_000);
    assert_eq!(prediction.home_score_distribution.std_dev.to_raw(), 5_773_214);
    assert_eq!(prediction.away_score_distribution.mean.to_raw(), 19_900_000);
    assert_eq!(prediction.spread_prediction.to_raw(), 7_000_000);
    assert_eq!(prediction.total_prediction.to_raw(), 46_800_000);
    assert_eq!(prediction.confidence_interval.lower_bound.to_raw(), -9_002_532);
    assert_eq!(prediction.confidence_interval.upper_bound.to_raw(), 23_002_532);
    assert_eq!(
        prediction.home_score_distribution.get_percentile(5),
        Some(Fixed::from_raw(18_000_000))
    );
    assert_eq!(
        prediction.home_score_distribution.get_percentile(50),
        Some(Fixed::from_raw(26_900_000))
    );
    assert_eq!(
        prediction.home_score_distribution.get_percentile(95),
        Some(Fixed::from_raw(35_800_000))
    );

    assert_eq!(data.betting_lines.len(), 1);
    let line = &data.betting_lines[0];
    assert_eq!(line.game_id, data.game.id);
    assert_eq!(line.provider, "CSV Data");
    assert_eq!(line.moneyline_home, -110);
    assert_eq!(line.moneyline_away, -110);

    assert_eq!(data.value_opportunities.len(), 2);
    let spread = &data.value_opportunities[0];
    assert_eq!(spread.opportunity_type, OpportunityType::SpreadValue);
    assert_eq!(spread.recommendation, "KC: -3.0");
    assert_eq!(spread.expected_value.to_raw(), 10_000_000);
    assert_eq!(spread.confidence.to_raw(), 500_000);
    assert_eq!(spread.game_id, data.game.id);
    assert_eq!(spread.betting_line_id, line.id);
    let total = &data.value_opportunities[1];
    assert_eq!(total.opportunity_type, OpportunityType::TotalValue);
    assert_eq!(total.recommendation, "Consider betting OVER 43.0");
    assert_eq!(total.expected_value.to_raw(), 3_800_000);
}

#[test]
fn mock_game_without_disagreement_has_no_opportunity() {
    let data = mock_game(24_000_000, 21_000_000, 900_000, 3_500_000, 45_000_000);
    assert!(data.value_opportunities.is_empty());
    assert!(data.prediction.is_some());
    assert_eq!(data.betting_lines.len(), 1);
}

#[test]
fn listed_game_carries_its_listed_value() {
    let data = game_from_listing(listing(12_600_000, 340_000, 4_500_000, "CAR +4.5"));
    assert_eq!(data.game.id, "nfl_week3_ATL_CAR");
    assert_eq!(data.game.week, 3);
    assert_eq!(data.game.season, 2025);
    assert_eq!(data.game.home_team.id, "team_CAR");
    assert_eq!(data.game.home_team.name, "Carolina Panthers");
    assert_eq!(data.game.home_team.conference, Some("NFC".to_string()));
    assert_eq!(data.game.home_team.division, Some("North".to_string()));
    assert_eq!(data.game.home_team.stats.offensive_rating.to_raw(), 80_000_000);
    assert_eq!(data.game.home_team.stats.turnover_differential, 2);
    assert_eq!(data.game.away_team.id, "team_ATL");
    assert_eq!(data.game.away_team.conference, Some("AFC".to_string()));
    assert_eq!(data.game.away_team.stats.yards_allowed_per_game.to_raw(), 330_000_000);
    assert_eq!(data.game.away_team.stats.games_played, 2);

    let prediction = data.prediction.unwrap();
    assert_eq!(prediction.id, "pred_nfl_week3_ATL_CAR");
    assert_eq!(prediction.game_id, "nfl_week3_ATL_CAR");
    assert_eq!(prediction.spread_prediction.to_raw(), -4_800_000);
    assert_eq!(prediction.total_prediction.to_raw(), 48_000_000);
    assert_eq!(prediction.confidence_interval.lower_bound.to_raw(), 43_000_000);
    assert_eq!(prediction.confidence_interval.upper_bound.to_raw(), 53_000_000);
    assert_eq!(prediction.home_score_distribution.std_dev.to_raw(), 7_000_000);
    assert_eq!(
        prediction.home_score_distribution.samples,
        vec![
            Fixed::from_raw(18_600_000),
            Fixed::from_raw(21_600_000),
            Fixed::from_raw(24_600_000)
        ]
    );
    assert!(prediction.home_score_distribution.percentiles.is_empty());

    assert_eq!(data.betting_lines.len(), 1);
    assert_eq!(data.betting_lines[0].provider, "Probability Analysis");
    assert_eq!(data.betting_lines[0].spread.to_raw(), 4_500_000);

    assert_eq!(data.value_opportunities.len(), 1);
    let found = &data.value_opportunities[0];
    assert_eq!(found.opportunity_type, OpportunityType::SpreadValue);
    assert_eq!(found.confidence.to_raw(), 600_000);
    assert_eq!(found.expected_value.to_raw(), 126_000);
    assert_eq!(found.recommendation, "CAR +4.5");
    assert_eq!(found.betting_line_id, "line_nfl_week3_ATL_CAR");
}

#[test]
fn listed_game_below_five_percent_has_no_opportunity() {
    assert!(game_from_listing(listing(4_999_999, 900_000, 0, "SF EVEN")).value_opportunities.is_empty());
    assert!(game_from_listing(listing(-4_999_999, 900_000, 0, "SF EVEN")).value_opportunities.is_empty());
    let negative = game_from_listing(listing(-8_200_000, 620_000, -1_500_000, "JAX -1.5"));
    assert_eq!(negative.value_opportunities.len(), 1);
    assert_eq!(negative.value_opportunities[0].expected_value.to_raw(), -82_000);
    assert_eq!(negative.value_opportunities[0].confidence.to_raw(), 620_000);
}

#[test]
fn stars_follow_the_value() {
    let cases = [
        (15_000_000, "★★★★★"),
        (-19_100_000, "★★★★★"),
        (14_999_999, "★★★★☆"),
        (12_000_000, "★★★★☆"),
        (9_000_000, "★★★☆☆"),
        (-8_200_000, "★★☆☆☆"),
        (6_000_000, "★★☆☆☆"),
        (3_000_000, "★☆☆☆☆"),
        (2_999_999, "☆☆☆☆☆"),
        (0, "☆☆☆☆☆"),
    ];
    for (value, stars) in cases {
        assert_eq!(calculate_confidence_score(Fixed::from_raw(value)), stars);
    }
}

#[test]
fn shown_bet_follows_the_line() {
    let game = plain_game("CAR", "ATL");
    let underdog = quoted(4_500_000, 45_000_000);
    let on_home = opportunity(OpportunityType::SpreadValue, 126_000, "CAR +5.5");
    assert_eq!(
        format_betting_recommendation(&on_home, &game, Some(&underdog)),
        ("CAR +4.5".to_string(), Fixed::from_raw(12_600_000))
    );
    let on_away = opportunity(OpportunityType::SpreadValue, -82_000, "ATL -5.5");
    assert_eq!(
        format_betting_recommendation(&on_away, &game, Some(&underdog)),
        ("ATL -4.5".to_string(), Fixed::from_raw(-8_200_000))
    );
    let even = quoted(0, 45_000_000);
    assert_eq!(format_betting_recommendation(&on_home, &game, Some(&even)).0, "CAR EVEN");
    assert_eq!(format_betting_recommendation(&on_away, &game, Some(&even)).0, "ATL EVEN");
    let favored = quoted(-3_000_000, 45_000_000);
    assert_eq!(format_betting_recommendation(&on_home, &game, Some(&favored)).0, "CAR -3.0");
    assert_eq!(format_betting_recommendation(&on_away, &game, Some(&favored)).0, "ATL +3.0");

    let over = opportunity(OpportunityType::TotalValue, 50_000, "Consider betting OVER 40.0");
    assert_eq!(format_betting_recommendation(&over, &game, Some(&underdog)).0, "OVER 45.0");
    let under = opportunity(OpportunityType::TotalValue, 50_000, "Consider betting UNDER 40.0");
    assert_eq!(format_betting_recommendation(&under, &game, Some(&underdog)).0, "UNDER 45.0");

    let other = opportunity(OpportunityType::MoneylineValue, 50_000, "Take the moneyline");
    assert_eq!(
        format_betting_recommendation(&other, &game, Some(&underdog)).0,
        "Take the moneyline"
    );
    assert_eq!(format_betting_recommendation(&on_home, &game, None).0, "CAR +5.5");
}

#[test]
fn matchup_shares_follow_the_market_and_the_value() {
    let mut data = GameWithPredictionAndLines {
        game: plain_game("CAR", "ATL"),
        prediction: None,
        betting_lines: Vec::new(),
        value_opportunities: Vec::new(),
    };
    assert_eq!(
        calculate_matchup_visualization(&data),
        (Fixed::from_raw(50_000_000), Fixed::from_raw(50_000_000), None, None)
    );

    data.betting_lines.push(quoted(3_500_000, 45_000_000));
    assert_eq!(
        calculate_matchup_visualization(&data),
        (
            Fixed::from_raw(25_719_400),
            Fixed::from_raw(74_280_600),
            Some(Fixed::from_raw(25_719_400)),
            Some(Fixed::from_raw(25_719_400))
        )
    );

    data.value_opportunities.push(opportunity(OpportunityType::SpreadValue, -126_000, "CAR +3.5"));
    assert_eq!(
        calculate_matchup_visualization(&data),
        (
            Fixed::from_raw(38_319_400),
            Fixed::from_raw(61_680_600),
            Some(Fixed::from_raw(38_319_400)),
            Some(Fixed::from_raw(25_719_400))
        )
    );

    data.value_opportunities[0] = opportunity(OpportunityType::SpreadValue, 126_000, "ATL -3.5");
    assert_eq!(
        calculate_matchup_visualization(&data),
        (
            Fixed::from_raw(13_119_400),
            Fixed::from_raw(86_880_600),
            Some(Fixed::from_raw(13_119_400)),
            Some(Fixed::from_raw(25_719_400))
        )
    );

    data.value_opportunities[0] = opportunity(OpportunityType::SpreadValue, 900_000, "ATL -3.5");
    assert_eq!(calculate_matchup_visualization(&data).0.to_raw(), 5_000_000);
    data.value_opportunities[0] = opportunity(OpportunityType::SpreadValue, 900_000, "CAR +3.5");
    assert_eq!(calculate_matchup_visualization(&data).0.to_raw(), 95_000_000);
}

#[test]
fn team_names_are_looked_up_by_abbreviation() {
    assert_eq!(get_team_name("KC"), "Kansas City Chiefs");
    assert_eq!(get_team_name("ARI"), "Arizona Cardinals");
    assert_eq!(get_team_name("LA"), "Los Angeles Rams");
    assert_eq!(get_team_name("LAC"), "Los Angeles Chargers");
    assert_eq!(get_team_name("WAS"), "Washington Commanders");
    assert_eq!(get_team_name("XYZ"), "Unknown Team (XYZ)");
    assert_eq!(get_team_name("kc"), "Unknown Team (kc)");
    assert_eq!(get_team_name(""), "Unknown Team ()");
}

#[test]
fn sample_teams_are_six() {
    let teams = DataSeeder::sample_teams();
    assert!(DataSeeder::has_teams(&teams));
    assert_eq!(DataSeeder::team_count(&teams), 6);
    assert!(!DataSeeder::has_teams(&Vec::new()));
    let listed: Vec<(&str, &str, Option<&str>, Option<&str>)> = teams
        .iter()
        .map(|t| (t.name.as_str(), t.abbreviation.as_str(), t.conference.as_deref(), t.division.as_deref()))
        .collect();
    assert_eq!(
        listed,
        vec![
            ("Buffalo Bills", "BUF", Some("AFC"), Some("East")),
            ("Miami Dolphins", "MIA", Some("AFC"), Some("East")),
            ("New England Patriots", "NE", Some("AFC"), Some("East")),
            ("New York Jets", "NYJ", Some("AFC"), Some("East")),
            ("Atlanta Falcons", "ATL", Some("NFC"), Some("South")),
            ("Carolina Panthers", "CAR", Some("NFC"), Some("South")),
        ]
    );
}

#[test]
fn migration_status_follows_the_team_count() {
    assert_eq!(MigrationManager::get_status(Err(())), MigrationStatus::NotMigrated);
    assert_eq!(MigrationManager::get_status(Ok(None)), MigrationStatus::SchemaOnly);
    assert_eq!(MigrationManager::get_status(Ok(Some(0))), MigrationStatus::SchemaOnly);
    assert_eq!(MigrationManager::get_status(Ok(Some(1))), MigrationStatus::Partial);
    assert_eq!(MigrationManager::get_status(Ok(Some(31))), MigrationStatus::Partial);
    assert_eq!(MigrationManager::get_status(Ok(Some(32))), MigrationStatus::Complete);
    assert_eq!(MigrationManager::get_status(Ok(Some(40))), MigrationStatus::Complete);
    assert_eq!(MigrationStatus::NotMigrated.describe(), "Not migrated");
    assert_eq!(MigrationStatus::SchemaOnly.describe(), "Schema created, no data");
    assert_eq!(MigrationStatus::Partial.describe(), "Partially migrated");
    assert_eq!(MigrationStatus::Complete.describe(), "Migration complete");
    assert!(MigrationManager::needs_migration(None));
    assert!(MigrationManager::needs_migration(Some(0)));
    assert!(MigrationManager::needs_migration(Some(31)));
    assert!(!MigrationManager::needs_migration(Some(32)));
}

#[test]
fn text_search_finds_runs_of_characters() {
    assert!(contains_text("Consider betting OVER 40.0", "OVER"));
    assert!(!contains_text("Consider betting OVER 40.0", "over"));
    assert!(contains_text("CAR +4.5", "CAR"));
    assert!(contains_text("CAR +4.5", ""));
    assert!(contains_text("", ""));
    assert!(!contains_text("", "a"));
    assert!(!contains_text("CA", "CAR"));
    assert!(contains_text("xxCAR", "CAR"));
    assert!(contains_text("naïve ★ rating", "★ r"));
    assert!(same_text("KC", "KC"));
    assert!(!same_text("KC", "kc"));
    assert_eq!(chars_of("a★b"), vec!['a', '★', 'b']);
}
