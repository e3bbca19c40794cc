use chrono::Utc;
use prediction_engine::betting::{
    BettingLine, BettingProvider, LineComparison, OpportunityType, ValueOpportunity,
};
use prediction_engine::clock::Timestamp;
use prediction_engine::distribution::ProbabilityDistribution;
use prediction_engine::fixed::Fixed;
use prediction_engine::prediction::{ConfidenceInterval, GamePrediction};
use std::collections::HashMap;

fn fx(value: f64) -> Fixed {
    Fixed::from_raw((value * 1_000_000.0).round() as i64)
}

fn as_f64(value: Fixed) -> f64 {
    value.to_raw() as f64 / 1_000_000.0
}

fn stamp(time: chrono::DateTime<Utc>) -> Timestamp {
    Timestamp::from_micros(time.timestamp_micros())
}

fn create_test_prediction() -> GamePrediction {
    GamePrediction {
        id: "test-prediction".to_string(),
        game_id: "test-game".to_string(),
        home_score_distribution: ProbabilityDistribution {
            mean: fx(24.0),
            std_dev: fx(7.0),
            samples: vec![fx(20.0), fx(22.0), fx(24.0), fx(26.0), fx(28.0)],
            percentiles: HashMap::new(),
        },
        away_score_distribution: ProbabilityDistribution {
            mean: fx(21.0),
            std_dev: fx(6.0),
            samples: vec![fx(18.0), fx(19.0), fx(21.0), fx(23.0), fx(24.0)],
            percentiles: HashMap::new(),
        },
        spread_prediction: fx(-3.0),
        total_prediction: fx(45.0),
        confidence_interval: ConfidenceInterval {
            lower_bound: fx(40.0),
            upper_bound: fx(50.0),
            confidence_level: fx(0.95),
        },
        generated_at: stamp(Utc::now()),
    }
}

#[test]
fn test_betting_line_creation() {
    let line = BettingLine::new(
        "game-1".to_string(),
        "DraftKings".to_string(),
        fx(-3.5),
        fx(47.5),
        -110,
        -110,
    );

    assert_eq!(line.game_id, "game-1");
    assert_eq!(line.provider, "DraftKings");
    assert_eq!(line.spread, fx(-3.5));
    assert_eq!(line.total, fx(47.5));
    assert!(line.is_active);
    assert!(!line.id.is_empty());
}

#[test]
fn test_implied_probability_calculations() {
    let line = BettingLine::new(
        "game-1".to_string(),
        "DraftKings".to_string(),
        fx(-3.5),
        fx(47.5),
        -110,
        -110,
    );

    let home_prob = as_f64(line.implied_probability_home());
    let away_prob = as_f64(line.implied_probability_away());

    // -110 should imply approximately 52.38% probability
    assert!((home_prob - 0.5238).abs() < 0.01);
    assert!((away_prob - 0.5238).abs() < 0.01);

    let total_prob = as_f64(line.total_implied_probability());
    assert!(total_prob > 1.0); // Should be > 1.0 due to vig

    let vig = as_f64(line.vig_percentage());
    assert!(vig > 0.0); // Should have positive vig
}

#[test]
fn test_positive_moneyline_probability() {
    let line = BettingLine::new(
        "game-1".to_string(),
        "DraftKings".to_string(),
        fx(-3.5),
        fx(47.5),
        150,  // Positive moneyline
        -180, // Negative moneyline
    );

    let home_prob = as_f64(line.implied_probability_home());
    let away_prob = as_f64(line.implied_probability_away());

    // +150 should imply 40% probability
    assert!((home_prob - 0.4).abs() < 0.01);
    // -180 should imply approximately 64.29% probability
    assert!((away_prob - 0.6429).abs() < 0.01);
}

#[test]
fn test_line_comparison_creation() {
    let betting_line = BettingLine::new(
        "game-1".to_string(),
        "DraftKings".to_string(),
        fx(-3.5),
        fx(47.5),
        -110,
        -110,
    );
    let prediction = create_test_prediction();

    let comparison = LineComparison::new(betting_line.clone(), prediction.clone());

    assert_eq!(comparison.game_id, "game-1");
    assert_eq!(
        comparison.spread_difference.to_raw(),
        prediction.spread_prediction.to_raw() - betting_line.spread.to_raw()
    );
    assert_eq!(
        comparison.total_difference.to_raw(),
        prediction.total_prediction.to_raw() - betting_line.total.to_raw()
    );
    assert!(comparison.value_score > fx(0.0));
}

#[test]
fn test_line_comparison_recommendations() {
    let betting_line = BettingLine::new(
        "game-1".to_string(),
        "DraftKings".to_string(),
        fx(-6.0), // Line has home team favored by 6
        fx(40.0), // Total of 40
        -110,
        -110,
    );
    let prediction = create_test_prediction(); // Prediction has -3.0 spread, 45.0 total

    let comparison = LineComparison::new(betting_line, prediction);

    // Spread difference: -3.0 - (-6.0) = 3.0 (prediction thinks line is too high)
    assert!(comparison.has_spread_value(fx(1.0)));
    let spread_rec = comparison.get_spread_recommendation();
    assert!(spread_rec.is_some());
    assert!(spread_rec.unwrap().contains("underdog"));

    // Total difference: 45.0 - 40.0 = 5.0 (prediction thinks total should be higher)
    assert!(comparison.has_total_value(fx(3.0)));
    let total_rec = comparison.get_total_recommendation();
    assert!(total_rec.is_some());
    assert!(total_rec.unwrap().contains("OVER"));
}

#[test]
fn test_value_opportunity_creation() {
    let opportunity = ValueOpportunity::new(
        "game-1".to_string(),
        OpportunityType::SpreadValue,
        fx(0.85),
        fx(2.5),
        "Bet the underdog".to_string(),
        "line-1".to_string(),
    );

    assert_eq!(opportunity.game_id, "game-1");
    assert_eq!(opportunity.opportunity_type, OpportunityType::SpreadValue);
    assert_eq!(opportunity.confidence, fx(0.85));
    assert_eq!(opportunity.expected_value, fx(2.5));
    assert!(opportunity.is_high_confidence(fx(0.8)));
    assert!(opportunity.is_positive_expected_value());
    assert!(!opportunity.is_expired());
}

#[test]
fn test_value_opportunity_expiry() {
    let past_time = Utc::now() - chrono::Duration::hours(1);
    let future_time = Utc::now() + chrono::Duration::hours(1);

    let expired_opportunity = ValueOpportunity::new(
        "game-1".to_string(),
        OpportunityType::SpreadValue,
        fx(0.85),
        fx(2.5),
        "Bet the underdog".to_string(),
        "line-1".to_string(),
    )
    .with_expiry(stamp(past_time));

    let active_opportunity = ValueOpportunity::new(
        "game-1".to_string(),
        OpportunityType::SpreadValue,
        fx(0.85),
        fx(2.5),
        "Bet the underdog".to_string(),
        "line-1".to_string(),
    )
    .with_expiry(stamp(future_time));

    assert!(expired_opportunity.is_expired());
    assert!(!active_opportunity.is_expired());
}

#[test]
fn test_betting_provider_rate_limiting() {
    let mut provider = BettingProvider::new(
        "Test Provider".to_string(),
        "https://api.test.com".to_string(),
        60, // 60 requests per minute = 1 per second
    );

    assert!(provider.can_make_request());

    provider.record_request();

    assert_eq!(provider.name, "Test Provider");
    assert!(provider.is_active);
}

#[test]
fn test_betting_line_expiry() {
    let mut line = BettingLine::new(
        "game-1".to_string(),
        "DraftKings".to_string(),
        fx(-3.5),
        fx(47.5),
        -110,
        -110,
    );

    // Should not be expired immediately
    assert!(!line.is_expired(60));

    // Manually set timestamp to past
    line.timestamp = stamp(Utc::now() - chrono::Duration::hours(2));
    assert!(line.is_expired(60)); // 60 minute expiry

    line.deactivate();
    assert!(!line.is_active);
}
