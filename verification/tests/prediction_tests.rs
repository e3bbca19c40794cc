use chrono::Utc;
use prediction_engine::clock::Timestamp;
use prediction_engine::distribution::ProbabilityDistribution;
use prediction_engine::fixed::Fixed;
use prediction_engine::prediction::{
    ConfidenceInterval, GamePrediction, GameWithPrediction, McmcDiagnostics, McmcParameters,
};

fn fx(value: f64) -> Fixed {
    Fixed::from_raw((value * 1_000_000.0).round() as i64)
}

fn as_f64(value: Fixed) -> f64 {
    value.to_raw() as f64 / 1_000_000.0
}

fn fixed_all(values: &[f64]) -> Vec<Fixed> {
    values.iter().map(|v| fx(*v)).collect()
}

fn stamp(time: chrono::DateTime<Utc>) -> Timestamp {
    Timestamp::from_micros(time.timestamp_micros())
}

fn create_test_samples() -> Vec<Fixed> {
    fixed_all(&[18.0, 19.0, 20.0, 21.0, 22.0, 23.0, 24.0, 25.0, 26.0, 27.0])
}

#[test]
fn test_probability_distribution_creation() {
    let samples = create_test_samples();
    let dist = ProbabilityDistribution::new(samples.clone());

    assert_eq!(dist.mean, fx(22.5));
    assert!((as_f64(dist.std_dev) - 2.872).abs() < 0.01);
    assert_eq!(dist.samples, samples);
    assert!(dist.percentiles.contains_key(&50));
}

#[test]
fn test_probability_distribution_percentiles() {
    let samples = create_test_samples();
    let dist = ProbabilityDistribution::new(samples);

    assert_eq!(dist.get_percentile(50), Some(fx(22.5))); // Median (average of 22.0 and 23.0)
    assert_eq!(dist.get_percentile(5), Some(fx(18.0))); // 5th percentile
    assert_eq!(dist.get_percentile(95), Some(fx(27.0))); // 95th percentile
}

#[test]
fn test_probability_distribution_probability_calculations() {
    let samples = create_test_samples();
    let dist = ProbabilityDistribution::new(samples);

    assert_eq!(dist.probability_above(fx(25.0)), fx(0.2)); // 26.0, 27.0
    assert_eq!(dist.probability_below(fx(20.0)), fx(0.2)); // 18.0, 19.0
    assert_eq!(dist.probability_between(fx(20.0), fx(25.0)), fx(0.6)); // 20.0 to 25.0
}

#[test]
fn test_game_prediction_creation() {
    let home_samples = fixed_all(&[22.0, 23.0, 24.0, 25.0, 26.0]);
    let away_samples = fixed_all(&[18.0, 19.0, 20.0, 21.0, 22.0]);

    let home_dist = ProbabilityDistribution::new(home_samples);
    let away_dist = ProbabilityDistribution::new(away_samples);

    let prediction = GamePrediction::new("game-1".to_string(), home_dist, away_dist);

    assert_eq!(prediction.game_id, "game-1");
    assert_eq!(prediction.spread_prediction, fx(4.0)); // 24.0 - 20.0
    assert_eq!(prediction.total_prediction, fx(44.0)); // 24.0 + 20.0
    assert!(prediction.home_win_probability() > fx(0.5));
    assert!(!prediction.id.is_empty());
}

#[test]
fn test_game_prediction_win_probabilities() {
    let home_samples = fixed_all(&[28.0, 29.0, 30.0, 31.0, 32.0]); // Higher scoring
    let away_samples = fixed_all(&[18.0, 19.0, 20.0, 21.0, 22.0]); // Lower scoring

    let home_dist = ProbabilityDistribution::new(home_samples);
    let away_dist = ProbabilityDistribution::new(away_samples);

    let prediction = GamePrediction::new("game-1".to_string(), home_dist, away_dist);

    let home_prob = as_f64(prediction.home_win_probability());
    let away_prob = as_f64(prediction.away_win_probability());

    assert!(home_prob > 0.7); // Home team heavily favored
    assert!(away_prob < 0.3); // Away team underdog
    assert!((home_prob + away_prob - 1.0).abs() < 0.001); // Should sum to 1.0
}

#[test]
fn test_confidence_interval() {
    let ci = ConfidenceInterval::new(fx(-2.0), fx(6.0), fx(0.95));

    assert_eq!(ci.width(), fx(8.0));
    assert_eq!(ci.midpoint(), fx(2.0));
    assert!(ci.contains(fx(0.0)));
    assert!(ci.contains(fx(5.0)));
    assert!(!ci.contains(fx(-3.0)));
    assert!(!ci.contains(fx(7.0)));
}

#[test]
fn test_mcmc_parameters() {
    let params = McmcParameters::new()
        .with_samples(5000)
        .with_burn_in(1000)
        .with_chains(2);

    assert_eq!(params.num_samples, 5000);
    assert_eq!(params.burn_in, 1000);
    assert_eq!(params.chains, 2);
    assert_eq!(params.total_samples(), 10000);
    assert_eq!(params.effective_samples(), 8000);
}

#[test]
fn test_mcmc_diagnostics() {
    let diagnostics = McmcDiagnostics::new(fx(1.05), fx(500.0), fx(0.44), 4, 10000);

    assert!(diagnostics.is_converged());
    assert!(!diagnostics.needs_more_samples());
    assert!(diagnostics.acceptance_rate_ok());

    let summary = diagnostics.get_diagnostics_summary();
    assert!(summary.contains("R-hat: 1.050"));
    assert!(summary.contains("ESS: 500"));
    assert!(summary.contains("Converged: true"));
}

#[test]
fn test_mcmc_diagnostics_not_converged() {
    let diagnostics = McmcDiagnostics::new(fx(1.5), fx(200.0), fx(0.1), 4, 10000);

    assert!(!diagnostics.is_converged());
    assert!(diagnostics.needs_more_samples());
    assert!(!diagnostics.acceptance_rate_ok());
}

#[test]
fn test_game_with_prediction() {
    let game_time = Utc::now() + chrono::Duration::hours(2);
    let mut game_with_pred = GameWithPrediction::new(
        "game-1".to_string(),
        "Chiefs".to_string(),
        "Bills".to_string(),
        stamp(game_time),
    );

    assert!(!game_with_pred.has_prediction());
    assert_eq!(game_with_pred.confidence_score, fx(0.0));

    let home_dist = ProbabilityDistribution::new(fixed_all(&[22.0, 23.0, 24.0, 25.0, 26.0]));
    let away_dist = ProbabilityDistribution::new(fixed_all(&[18.0, 19.0, 20.0, 21.0, 22.0]));
    let prediction = GamePrediction::new("game-1".to_string(), home_dist, away_dist);

    game_with_pred = game_with_pred.with_prediction(prediction);

    assert!(game_with_pred.has_prediction());
    assert!(game_with_pred.confidence_score > fx(0.0));
    assert!(!game_with_pred.is_prediction_stale(24));
}

#[test]
fn test_prediction_staleness() {
    let game_time = Utc::now() + chrono::Duration::hours(2);
    let mut game_with_pred = GameWithPrediction::new(
        "game-1".to_string(),
        "Chiefs".to_string(),
        "Bills".to_string(),
        stamp(game_time),
    );

    // Manually set last_updated to past
    game_with_pred.last_updated = stamp(Utc::now() - chrono::Duration::hours(25));

    assert!(game_with_pred.is_prediction_stale(24));
    assert!(!game_with_pred.is_prediction_stale(48));
}

#[test]
fn test_high_confidence_prediction() {
    let home_samples = fixed_all(&[24.0, 24.1, 24.2, 24.3, 24.4]); // Very tight distribution
    let away_samples = fixed_all(&[20.0, 20.1, 20.2, 20.3, 20.4]); // Very tight distribution

    let home_dist = ProbabilityDistribution::new(home_samples);
    let away_dist = ProbabilityDistribution::new(away_samples);

    let prediction = GamePrediction::new("game-1".to_string(), home_dist, away_dist);

    assert!(prediction.is_high_confidence(fx(2.0))); // Narrow confidence interval

    let summary = prediction.get_prediction_summary();
    assert!(summary.contains("Predicted spread"));
    assert!(summary.contains("Total"));
    assert!(summary.contains("Home win probability"));
}
