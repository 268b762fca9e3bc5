use drift_monitor::threshold::{
    evaluate, AlertMetric, BreachDirection, Evaluation, MonitorThreshold, MonitorThresholdMode,
};

fn percentage_band() -> MonitorThreshold {
    MonitorThreshold {
        metric: AlertMetric::Accuracy,
        mode: MonitorThresholdMode::Percentage,
        variance_lower: Some(-100_000),
        variance_upper: Some(100_000),
    }
}

fn absolute_floor() -> MonitorThreshold {
    MonitorThreshold {
        metric: AlertMetric::Accuracy,
        mode: MonitorThresholdMode::Absolute,
        variance_lower: Some(-50_000),
        variance_upper: None,
    }
}

#[test]
fn percentage_breach_low() {
    let r = evaluate(85_000_000, 100_000_000, &percentage_band());
    assert_eq!(r, Evaluation::Breach { direction: BreachDirection::Low, variance: -150_000 });
}

#[test]
fn percentage_within_band() {
    let r = evaluate(105_000_000, 100_000_000, &percentage_band());
    assert_eq!(r, Evaluation::NoBreach);
}

#[test]
fn percentage_breach_high() {
    let r = evaluate(111_000_000, 100_000_000, &percentage_band());
    assert_eq!(r, Evaluation::Breach { direction: BreachDirection::High, variance: 110_000 });
}

#[test]
fn percentage_on_the_bound_is_no_breach() {
    assert_eq!(evaluate(110_000_000, 100_000_000, &percentage_band()), Evaluation::NoBreach);
    assert_eq!(evaluate(90_000_000, 100_000_000, &percentage_band()), Evaluation::NoBreach);
}

#[test]
fn percentage_decides_before_rounding() {
    // 3 / 29_999_999 lies just over 0.1 and rounds to it
    let band = percentage_band();
    let r = evaluate(29_999_999 + 3_000_000, 29_999_999, &band);
    assert_eq!(r, Evaluation::Breach { direction: BreachDirection::High, variance: 100_000 });
}

#[test]
fn absolute_breach_low() {
    let r = evaluate(700_000, 800_000, &absolute_floor());
    assert_eq!(r, Evaluation::Breach { direction: BreachDirection::Low, variance: -100_000 });
}

#[test]
fn absolute_within_floor() {
    assert_eq!(evaluate(770_000, 800_000, &absolute_floor()), Evaluation::NoBreach);
}

#[test]
fn absolute_without_upper_bound_never_breaches_high() {
    assert_eq!(evaluate(i64::MAX, i64::MIN, &absolute_floor()), Evaluation::NoBreach);
}

#[test]
fn absolute_with_zero_baseline_is_defined() {
    let r = evaluate(-60_000, 0, &absolute_floor());
    assert_eq!(r, Evaluation::Breach { direction: BreachDirection::Low, variance: -60_000 });
}

#[test]
fn percentage_zero_baseline_is_indeterminate() {
    for current in [i64::MIN, -1, 0, 1, 85_000_000, i64::MAX] {
        assert_eq!(evaluate(current, 0, &percentage_band()), Evaluation::Indeterminate);
    }
}

#[test]
fn percentage_negative_baseline() {
    // from -100 to -85 is a variance of -0.15
    let r = evaluate(-85_000_000, -100_000_000, &percentage_band());
    assert_eq!(r, Evaluation::Breach { direction: BreachDirection::Low, variance: -150_000 });
    let r = evaluate(-111_000_000, -100_000_000, &percentage_band());
    assert_eq!(r, Evaluation::Breach { direction: BreachDirection::High, variance: 110_000 });
}

#[test]
fn no_bounds_never_breach() {
    let open = MonitorThreshold {
        metric: AlertMetric::Recall,
        mode: MonitorThresholdMode::Absolute,
        variance_lower: None,
        variance_upper: None,
    };
    assert_eq!(evaluate(i64::MIN, i64::MAX, &open), Evaluation::NoBreach);
}

#[test]
fn low_side_wins_where_both_bounds_are_crossed() {
    let crossed = MonitorThreshold {
        metric: AlertMetric::Recall,
        mode: MonitorThresholdMode::Absolute,
        variance_lower: Some(10),
        variance_upper: Some(-10),
    };
    let r = evaluate(0, 0, &crossed);
    assert_eq!(r, Evaluation::Breach { direction: BreachDirection::Low, variance: 0 });
}

#[test]
fn extreme_values_do_not_overflow() {
    let r = evaluate(i64::MAX, i64::MIN, &percentage_band());
    // (MAX - MIN) / MIN lies just under -2
    assert_eq!(r, Evaluation::Breach { direction: BreachDirection::Low, variance: -1_999_999 });
    let wide = MonitorThreshold {
        metric: AlertMetric::Accuracy,
        mode: MonitorThresholdMode::Percentage,
        variance_lower: None,
        variance_upper: Some(i64::MAX),
    };
    let r = evaluate(i64::MAX, 1, &wide);
    assert_eq!(
        r,
        Evaluation::Breach {
            direction: BreachDirection::High,
            variance: (i64::MAX as i128 - 1) * 1_000_000,
        }
    );
}
