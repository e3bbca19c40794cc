use chrono::Utc;
use prediction_engine::clock::Timestamp;
use prediction_engine::fixed::Fixed;
use prediction_engine::game::{Game, GameOutcome, GameResult, GameStatus};
use prediction_engine::team::{InjuryStatus, PlayerInjury, Team, TeamStats};

fn fx(value: f64) -> Fixed {
    Fixed::from_raw((value * 1_000_000.0).round() as i64)
}

fn stamp(time: chrono::DateTime<Utc>) -> Timestamp {
    Timestamp::from_micros(time.timestamp_micros())
}

fn create_test_team(name: &str, abbreviation: &str) -> Team {
    Team::new(name.to_string(), abbreviation.to_string())
}

#[test]
fn test_team_creation() {
    let team = Team::new("Kansas City Chiefs".to_string(), "KC".to_string());

    assert_eq!(team.name, "Kansas City Chiefs");
    assert_eq!(team.abbreviation, "KC");
    assert!(team.conference.is_none());
    assert!(team.division.is_none());
    assert!(!team.id.is_empty());
    assert_eq!(team.stats.games_played, 0);
}

#[test]
fn test_team_with_conference_division() {
    let team = Team::with_conference_division(
        "Kansas City Chiefs".to_string(),
        "KC".to_string(),
        "AFC".to_string(),
        "West".to_string(),
    );

    assert_eq!(team.conference, Some("AFC".to_string()));
    assert_eq!(team.division, Some("West".to_string()));
}

#[test]
fn test_team_stats_default() {
    let stats = TeamStats::default();

    assert_eq!(stats.offensive_rating, fx(0.0));
    assert_eq!(stats.defensive_rating, fx(0.0));
    assert_eq!(stats.games_played, 0);
    assert_eq!(stats.wins, 0);
    assert_eq!(stats.losses, 0);
    assert_eq!(stats.ties, 0);
    assert_eq!(stats.season, 2024);
}

#[test]
fn test_team_stats_update_record() {
    let mut stats = TeamStats::new(2024);

    stats.update_record(GameOutcome::Win);
    assert_eq!(stats.wins, 1);
    assert_eq!(stats.games_played, 1);

    stats.update_record(GameOutcome::Loss);
    assert_eq!(stats.losses, 1);
    assert_eq!(stats.games_played, 2);

    stats.update_record(GameOutcome::Tie);
    assert_eq!(stats.ties, 1);
    assert_eq!(stats.games_played, 3);
}

#[test]
fn test_win_percentage() {
    let mut team = Team::new("Test Team".to_string(), "TT".to_string());

    // No games played
    assert_eq!(team.get_win_percentage(), fx(0.0));

    // Update stats with some wins and losses
    team.stats.wins = 3;
    team.stats.losses = 1;
    team.stats.games_played = 4;

    assert_eq!(team.get_win_percentage(), fx(0.75));
}

#[test]
fn test_injury_management() {
    let mut team = Team::new("Test Team".to_string(), "TT".to_string());

    let injury = PlayerInjury {
        player_id: "player-1".to_string(),
        player_name: "John Doe".to_string(),
        position: "QB".to_string(),
        injury_type: "Ankle".to_string(),
        status: InjuryStatus::Questionable,
        estimated_return: None,
        impact_rating: fx(0.8),
        reported_at: stamp(Utc::now()),
    };

    team.add_injury(injury.clone());

    assert_eq!(team.stats.injury_report.len(), 1);
    assert_eq!(team.get_active_injuries().len(), 1);

    // Add a healthy player (should not count as active injury)
    let healthy_injury = PlayerInjury {
        status: InjuryStatus::Healthy,
        ..injury
    };

    team.add_injury(healthy_injury);
    assert_eq!(team.stats.injury_report.len(), 2);
    assert_eq!(team.get_active_injuries().len(), 1); // Still only 1 active
}

#[test]
fn test_recent_form_wins() {
    let mut team = Team::new("Test Team".to_string(), "TT".to_string());

    // Add some recent game results
    let game_results = vec![
        GameResult {
            game_id: "1".to_string(),
            team_id: team.id.clone(),
            opponent_id: "opp1".to_string(),
            points_scored: 24,
            points_allowed: 21,
            is_home: true,
            result: GameOutcome::Win,
            game_date: stamp(Utc::now()),
        },
        GameResult {
            game_id: "2".to_string(),
            team_id: team.id.clone(),
            opponent_id: "opp2".to_string(),
            points_scored: 14,
            points_allowed: 28,
            is_home: false,
            result: GameOutcome::Loss,
            game_date: stamp(Utc::now()),
        },
        GameResult {
            game_id: "3".to_string(),
            team_id: team.id.clone(),
            opponent_id: "opp3".to_string(),
            points_scored: 31,
            points_allowed: 17,
            is_home: true,
            result: GameOutcome::Win,
            game_date: stamp(Utc::now()),
        },
    ];

    team.stats.recent_form = game_results;

    assert_eq!(team.get_recent_form_wins(3), 2); // 2 wins in last 3 games
    assert_eq!(team.get_recent_form_wins(2), 1); // 1 win in last 2 games
}

#[test]
fn test_game_creation() {
    let home_team = create_test_team("Kansas City Chiefs", "KC");
    let away_team = create_test_team("Buffalo Bills", "BUF");
    let game_time = stamp(Utc::now());

    let game = Game::new(home_team.clone(), away_team.clone(), game_time, 1, 2024);

    assert_eq!(game.home_team, home_team);
    assert_eq!(game.away_team, away_team);
    assert_eq!(game.game_time, game_time);
    assert_eq!(game.week, 1);
    assert_eq!(game.season, 2024);
    assert_eq!(game.status, GameStatus::Scheduled);
    assert!(game.home_score.is_none());
    assert!(game.away_score.is_none());
    assert!(!game.id.is_empty());
}

#[test]
fn test_game_status_checks() {
    let home_team = create_test_team("Kansas City Chiefs", "KC");
    let away_team = create_test_team("Buffalo Bills", "BUF");
    let future_time = stamp(Utc::now() + chrono::Duration::hours(1));

    let mut game = Game::new(home_team, away_team, future_time, 1, 2024);

    assert!(game.is_upcoming());
    assert!(!game.is_completed());

    game.set_status(GameStatus::Completed);
    assert!(game.is_completed());
    assert!(!game.is_upcoming());
}

#[test]
fn test_game_score_update() {
    let home_team = create_test_team("Kansas City Chiefs", "KC");
    let away_team = create_test_team("Buffalo Bills", "BUF");
    let game_time = stamp(Utc::now());

    let mut game = Game::new(home_team, away_team, game_time, 1, 2024);
    let initial_updated_at = game.updated_at;

    // Let the clock move on so that the two readings differ
    while Timestamp::now() == initial_updated_at {}

    game.update_score(24, 21);

    assert_eq!(game.home_score, Some(24));
    assert_eq!(game.away_score, Some(21));
    assert!(game.updated_at > initial_updated_at);
}

#[test]
fn test_game_result_creation() {
    let game_result = GameResult {
        game_id: "test-game-id".to_string(),
        team_id: "team-1".to_string(),
        opponent_id: "team-2".to_string(),
        points_scored: 24,
        points_allowed: 21,
        is_home: true,
        result: GameOutcome::Win,
        game_date: stamp(Utc::now()),
    };

    assert_eq!(game_result.result, GameOutcome::Win);
    assert!(game_result.is_home);
    assert_eq!(game_result.points_scored, 24);
    assert_eq!(game_result.points_allowed, 21);
}

#[test]
fn game_at_the_first_instant_is_never_upcoming() {
    let home_team = create_test_team("Kansas City Chiefs", "KC");
    let away_team = create_test_team("Buffalo Bills", "BUF");
    let mut game = Game::new(home_team, away_team, Timestamp::from_micros(i64::MIN), 1, 2024);
    assert!(!game.is_upcoming());
    game.game_time = Timestamp::from_micros(i64::MAX);
    assert!(game.is_upcoming());
    assert!(game.is_upcoming_at(Timestamp::from_micros(i64::MAX - 1)));
    assert!(!game.is_upcoming_at(Timestamp::from_micros(i64::MAX)));
    game.set_status(GameStatus::Postponed);
    assert!(!game.is_upcoming());
}
