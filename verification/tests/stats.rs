use rust_nps::stats::{build_stats, calculate_nps, percentage_tenths, ScoreBand, ScoreRange};

/// The score as computed with floating point and `f64::round`.
fn float_nps(promoters: u64, detractors: u64, total: u64) -> i32 {
    if total == 0 {
        0
    } else {
        let p_pct = (promoters as f64 / total as f64) * 100.0;
        let d_pct = (detractors as f64 / total as f64) * 100.0;
        (p_pct - d_pct).round() as i32
    }
}

/// The share as computed with floating point, in percent with one decimal.
fn float_percentage(count: u64, total: u64) -> f64 {
    if total == 0 {
        return 0.0;
    }
    ((count as f64 / total as f64) * 1000.0).round() / 10.0
}

#[test]
fn nps_exact_values() {
    assert_eq!(calculate_nps(0, 0, 0), 0);
    assert_eq!(calculate_nps(5, 5, 15), 0);
    assert_eq!(calculate_nps(5, 0, 5), 100);
    assert_eq!(calculate_nps(0, 5, 5), -100);
    assert_eq!(calculate_nps(2, 1, 3), 33);
    assert_eq!(calculate_nps(1, 2, 3), -33);
    assert_eq!(calculate_nps(1, 0, 8), 13);
    assert_eq!(calculate_nps(0, 1, 8), -13);
    assert_eq!(calculate_nps(7, 4, 14), 21);
    assert_eq!(calculate_nps(5, 0, 10), 50);
}

#[test]
fn nps_saturates_like_a_float_cast() {
    assert_eq!(calculate_nps(u64::MAX, 0, 1), i32::MAX);
    assert_eq!(calculate_nps(0, u64::MAX, 1), i32::MIN);
    assert_eq!(calculate_nps(3, 0, 0), 0);
}

#[test]
fn nps_agrees_with_float_formula_except_at_exact_halves() {
    for total in 1..=150u64 {
        for promoters in 0..=total {
            for detractors in 0..=(total - promoters) {
                let exact = calculate_nps(promoters, detractors, total);
                let float = float_nps(promoters, detractors, total);
                let twice = 200 * (promoters as i64 - detractors as i64);
                let at_half = twice % (total as i64) == 0 && (twice / total as i64) % 2 != 0;
                if at_half {
                    // exactly k + 1/2: the exact rounding goes away from zero, while the
                    // float formula may land a hair short of the half
                    assert_eq!(exact as i64 * 2, twice / total as i64 + twice.signum());
                    assert!((exact - float).abs() <= 1);
                } else {
                    assert_eq!(exact, float, "p={} d={} t={}", promoters, detractors, total);
                }
            }
        }
    }
}

#[test]
fn nps_rounds_exact_halves_away_from_zero() {
    // -12.5 and 12.5 exactly
    assert_eq!(calculate_nps(1, 4, 24), -13);
    assert_eq!(calculate_nps(4, 1, 24), 13);
}

#[test]
fn nps_stays_within_bounds_and_is_antisymmetric() {
    for total in 0..=40u64 {
        for p in 0..=total {
            for d in 0..=total {
                let n = calculate_nps(p, d, total);
                assert!((-100..=100).contains(&n));
                assert_eq!(calculate_nps(d, p, total), -n);
                if p < total {
                    assert!(calculate_nps(p + 1, d, total) >= n);
                }
            }
        }
    }
}

#[test]
fn percentage_exact_values() {
    assert_eq!(percentage_tenths(0, 0), 0);
    assert_eq!(percentage_tenths(1, 3), 333);
    assert_eq!(percentage_tenths(2, 3), 667);
    assert_eq!(percentage_tenths(5, 15), 333);
    assert_eq!(percentage_tenths(1, 2000), 1);
    assert_eq!(percentage_tenths(7, 7), 1000);
    assert_eq!(percentage_tenths(u64::MAX, 1), 1000 * u64::MAX as u128);
}

#[test]
fn percentage_agrees_with_float_formula() {
    for total in 1..=300u64 {
        for count in 0..=total {
            assert_eq!(
                percentage_tenths(count, total) as f64 / 10.0,
                float_percentage(count, total),
                "c={} t={}",
                count,
                total
            );
        }
    }
}

#[test]
fn score_bands_partition_the_scores() {
    let bands = [ScoreBand::Promoter, ScoreBand::Passive, ScoreBand::Detractor];
    assert_eq!(ScoreBand::Promoter.range(), ScoreRange { min: Some(9), max: None });
    assert_eq!(ScoreBand::Passive.range(), ScoreRange { min: Some(7), max: Some(8) });
    assert_eq!(ScoreBand::Detractor.range(), ScoreRange { min: None, max: Some(6) });
    for score in -5..=15 {
        let holding: Vec<ScoreBand> = bands
            .iter()
            .copied()
            .filter(|b| {
                let r = b.range();
                r.min.map_or(true, |lo| lo <= score) && r.max.map_or(true, |hi| score <= hi)
            })
            .collect();
        assert_eq!(holding.len(), 1);
    }
}

#[test]
fn stats_of_a_known_distribution() {
    let s = build_stats(15, 5, 5, 5);
    assert_eq!(s.total, 15);
    assert_eq!(s.promoters, 5);
    assert_eq!(s.passives, 5);
    assert_eq!(s.detractors, 5);
    assert_eq!(s.nps, 0);
    assert_eq!(s.promoter_pct_tenths, 333);
    assert_eq!(s.passive_pct_tenths, 333);
    assert_eq!(s.detractor_pct_tenths, 333);
}

#[test]
fn stats_without_answers_are_zero() {
    let s = build_stats(0, 0, 0, 0);
    assert_eq!(s.total, 0);
    assert_eq!(s.nps, 0);
    assert_eq!(s.promoter_pct_tenths, 0);
    assert_eq!(s.passive_pct_tenths, 0);
    assert_eq!(s.detractor_pct_tenths, 0);
}

#[test]
fn stats_of_ten_days_of_answers() {
    // five tens and five sevens
    let s = build_stats(10, 5, 5, 0);
    assert_eq!(s.nps, 50);
    assert_eq!(s.promoter_pct_tenths, 500);
    assert_eq!(s.detractor_pct_tenths, 0);
}

#[test]
fn counts_by_band_add_up_to_the_total() {
    let scores = [10, 10, 9, 9, 9, 8, 7, 8, 7, 8, 6, 5, 4, 3, 2];
    let count = |band: ScoreBand| {
        let r = band.range();
        scores
            .iter()
            .filter(|s| r.min.map_or(true, |lo| lo <= **s) && r.max.map_or(true, |hi| **s <= hi))
            .count() as u64
    };
    let promoters = count(ScoreBand::Promoter);
    let passives = count(ScoreBand::Passive);
    let detractors = count(ScoreBand::Detractor);
    assert_eq!((promoters, passives, detractors), (5, 5, 5));
    assert_eq!(promoters + passives + detractors, scores.len() as u64);
    let s = build_stats(scores.len() as u64, promoters, passives, detractors);
    assert_eq!(s.nps, 0);
}

#[test]
fn nps_depends_only_on_proportions() {
    for k in 1..=7u64 {
        assert_eq!(calculate_nps(2 * k, k, 3 * k), calculate_nps(2, 1, 3));
        assert_eq!(calculate_nps(k, 4 * k, 24 * k), -13);
        assert_eq!(calculate_nps(5 * k, 5 * k, 15 * k), 0);
    }
}
