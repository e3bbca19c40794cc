//! The fixed-point engine against the same formulas in floating point.

use prediction_engine::betting::implied_probability_moneyline;
use prediction_engine::clock::Timestamp;
use prediction_engine::distribution::ProbabilityDistribution;
use prediction_engine::fixed::Fixed;
use prediction_engine::logistic::spread_to_probability;
use prediction_engine::prediction::{ConfidenceInterval, GamePrediction};
use std::collections::HashMap;

const ONE_MILLIONTH: f64 = 1.0e-6;

fn approx(fixed: Fixed, float: f64, slack: f64) -> bool {
    (fixed.to_raw() as f64 / 1.0e6 - float).abs() <= slack
}

/// A small linear congruential generator, so that the runs repeat.
struct Sequence(u64);

impl Sequence {
    fn next(&mut self) -> u64 {
        self.0 = self.0.wrapping_mul(6364136223846793005).wrapping_add(1442695040888963407);
        self.0 >> 33
    }

    /// A score between -20.000 and 79.999, in thousandths.
    fn score(&mut self) -> i64 {
        (self.next() % 100_000) as i64 * 1_000 - 20_000_000
    }
}

fn float_percentile(sorted: &[f64], p: u8) -> f64 {
    if p == 50 && sorted.len() % 2 == 0 {
        (sorted[sorted.len() / 2 - 1] + sorted[sorted.len() / 2]) / 2.0
    } else {
        // the rank times (n - 1) over a hundred, a half rounding up
        let index = (p as usize * (sorted.len() - 1) + 50) / 100;
        sorted[index]
    }
}

#[test]
fn distributions_agree_with_floating_point() {
    let mut sequence = Sequence(7);
    for round in 0..200 {
        let n = 1 + (sequence.next() % 60) as usize + if round % 50 == 0 { 500 } else { 0 };
        let raws: Vec<i64> = (0..n).map(|_| sequence.score()).collect();
        let floats: Vec<f64> = raws.iter().map(|r| *r as f64 / 1.0e6).collect();
        let dist = ProbabilityDistribution::new(raws.iter().map(|r| Fixed::from_raw(*r)).collect());

        let mean = floats.iter().sum::<f64>() / n as f64;
        let variance = floats.iter().map(|x| (x - mean).powi(2)).sum::<f64>() / n as f64;
        assert!(approx(dist.mean, mean, ONE_MILLIONTH));
        assert!(approx(dist.std_dev, variance.sqrt(), 2.0 * ONE_MILLIONTH));

        let mut sorted = floats.clone();
        sorted.sort_by(|a, b| a.partial_cmp(b).unwrap());
        for p in [5u8, 10, 25, 50, 75, 90, 95] {
            let tabulated = dist.get_percentile(p).unwrap();
            assert!(approx(tabulated, float_percentile(&sorted, p), ONE_MILLIONTH));
        }

        let threshold = sequence.score();
        let t = threshold as f64 / 1.0e6;
        let above = floats.iter().filter(|x| **x > t).count() as f64 / n as f64;
        let below = floats.iter().filter(|x| **x < t).count() as f64 / n as f64;
        let between = floats.iter().filter(|x| **x >= t - 5.0 && **x <= t + 5.0).count() as f64 / n as f64;
        assert!(approx(dist.probability_above(Fixed::from_raw(threshold)), above, ONE_MILLIONTH));
        assert!(approx(dist.probability_below(Fixed::from_raw(threshold)), below, ONE_MILLIONTH));
        assert!(approx(
            dist.probability_between(
                Fixed::from_raw(threshold - 5_000_000),
                Fixed::from_raw(threshold + 5_000_000)
            ),
            between,
            ONE_MILLIONTH
        ));
        let tails = dist.probability_above(Fixed::from_raw(threshold)).to_raw()
            + dist.probability_below(Fixed::from_raw(threshold)).to_raw();
        assert!(tails <= 1_000_000);
        if !raws.contains(&threshold) {
            assert_eq!(tails, 1_000_000);
        }
    }
}

#[test]
fn predictions_agree_with_floating_point() {
    let mut sequence = Sequence(11);
    for _ in 0..200 {
        let n = 2 + (sequence.next() % 40) as usize;
        let home: Vec<i64> = (0..n).map(|_| sequence.score()).collect();
        let away: Vec<i64> = (0..n).map(|_| sequence.score()).collect();
        let stats = |raws: &[i64]| {
            let floats: Vec<f64> = raws.iter().map(|r| *r as f64 / 1.0e6).collect();
            let mean = floats.iter().sum::<f64>() / floats.len() as f64;
            let variance =
                floats.iter().map(|x| (x - mean).powi(2)).sum::<f64>() / floats.len() as f64;
            (mean, variance)
        };
        let (home_mean, home_variance) = stats(&home);
        let (away_mean, away_variance) = stats(&away);
        let prediction = GamePrediction::new(
            "game".to_string(),
            ProbabilityDistribution::new(home.iter().map(|r| Fixed::from_raw(*r)).collect()),
            ProbabilityDistribution::new(away.iter().map(|r| Fixed::from_raw(*r)).collect()),
        );
        let spread = home_mean - away_mean;
        let margin = 1.96 * (home_variance + away_variance).sqrt();
        assert!(approx(prediction.spread_prediction, spread, 2.0 * ONE_MILLIONTH));
        assert!(approx(prediction.total_prediction, home_mean + away_mean, 2.0 * ONE_MILLIONTH));
        assert!(approx(prediction.confidence_interval.lower_bound, spread - margin, 1.0e-5));
        assert!(approx(prediction.confidence_interval.upper_bound, spread + margin, 1.0e-5));

        let win = if spread > 0.0 {
            0.5 + (spread / 14.0).min(0.45)
        } else {
            0.5 - (spread.abs() / 14.0).min(0.45)
        };
        assert!(approx(prediction.home_win_probability(), win, 2.0 * ONE_MILLIONTH));
        assert!(approx(prediction.away_win_probability(), 1.0 - win, 2.0 * ONE_MILLIONTH));
    }
}

#[test]
fn logistic_curve_agrees_with_floating_point() {
    let mut worst: f64 = 0.0;
    let mut previous = 0;
    let mut spread = -70_000_000i64;
    while spread <= 70_000_000 {
        let fixed = spread_to_probability(Fixed::from_raw(spread));
        let float = if spread == 0 {
            0.5
        } else {
            1.0 / (1.0 + (-(spread as f64 / 1.0e6) / 3.3).exp())
        };
        worst = worst.max((fixed.to_raw() as f64 / 1.0e6 - float).abs());
        assert!(fixed.to_raw() >= previous);
        let mirrored = spread_to_probability(Fixed::from_raw(-spread));
        assert_eq!(fixed.to_raw() + mirrored.to_raw(), 1_000_000);
        previous = fixed.to_raw();
        spread += 1_009;
    }
    // never further off than half a millionth, but for the rounding of the
    // floating-point value itself
    assert!(worst <= 0.5000001e-6);
}

#[test]
fn moneylines_agree_with_floating_point() {
    let mut odds = -100_000i32;
    while odds <= 100_000 {
        if odds != 0 {
            let float = if odds > 0 {
                100.0 / (odds as f64 + 100.0)
            } else {
                (-odds as f64) / (-odds as f64 + 100.0)
            };
            assert!(approx(implied_probability_moneyline(odds), float, ONE_MILLIONTH));
        }
        odds += 7;
    }
}

#[test]
fn hand_made_predictions_are_taken_as_they_are() {
    let prediction = GamePrediction {
        id: "prediction".to_string(),
        game_id: "game".to_string(),
        home_score_distribution: ProbabilityDistribution {
            mean: Fixed::from_int(24),
            std_dev: Fixed::from_int(7),
            samples: vec![Fixed::from_int(24)],
            percentiles: HashMap::new(),
        },
        away_score_distribution: ProbabilityDistribution {
            mean: Fixed::from_int(21),
            std_dev: Fixed::from_int(6),
            samples: vec![Fixed::from_int(21)],
            percentiles: HashMap::new(),
        },
        spread_prediction: Fixed::from_int(-3),
        total_prediction: Fixed::from_int(45),
        confidence_interval: ConfidenceInterval::new(
            Fixed::from_int(40),
            Fixed::from_int(50),
            Fixed::from_raw(950_000),
        ),
        generated_at: Timestamp::from_micros(0),
    };
    assert_eq!(prediction.home_score_distribution.variance(), Fixed::from_int(49));
    assert_eq!(prediction.away_score_distribution.variance(), Fixed::from_int(36));
    assert_eq!(prediction.home_score_distribution.get_percentile(50), None);
    assert!(!prediction.is_high_confidence(Fixed::from_int(10)));
    assert!(prediction.is_high_confidence(Fixed::from_raw(10_000_001)));
    assert_eq!(prediction.home_win_probability().to_raw(), 285_714);
}
