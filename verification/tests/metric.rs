use drift_monitor::evaluation::Reading;
use drift_monitor::metric::{
    accuracy, auc_roc, compute_metric, count, count_pairs, f1, integer_root, mean_squared_error,
    precision, recall, root_mean_squared_error, share, Pairing, Sample, Tally,
};
use drift_monitor::threshold::AlertMetric;

fn class(timestamp: i64, predicted: i64, score: i64, actual: Option<i64>) -> Sample {
    Sample { timestamp, predicted, score, actual }
}

fn number(timestamp: i64, predicted: i64, actual: Option<i64>) -> Sample {
    Sample { timestamp, predicted, score: 0, actual }
}

fn classified() -> Vec<Sample> {
    vec![
        class(10, 1, 900_000, Some(1)),
        class(11, 1, 800_000, Some(0)),
        class(12, 0, 300_000, Some(1)),
        class(13, 0, 200_000, Some(0)),
        class(14, 1, 700_000, Some(1)),
        // truth unknown: left out
        class(15, 1, 990_000, None),
        // outside the window: left out
        class(9, 1, 990_000, Some(0)),
        class(20, 0, 10_000, Some(1)),
    ]
}

#[test]
fn tallies_of_a_window() {
    let samples = classified();
    assert_eq!(count(&samples, Tally::Usable, 10, 20), 5);
    assert_eq!(count(&samples, Tally::Correct, 10, 20), 3);
    assert_eq!(count(&samples, Tally::TruePositive, 10, 20), 2);
    assert_eq!(count(&samples, Tally::FalsePositive, 10, 20), 1);
    assert_eq!(count(&samples, Tally::FalseNegative, 10, 20), 1);
    assert_eq!(count(&samples, Tally::ActualPositive, 10, 20), 3);
    assert_eq!(count(&samples, Tally::ActualNegative, 10, 20), 2);
    assert_eq!(count(&samples, Tally::Usable, 0, 100), 7);
    assert_eq!(count(&samples, Tally::Usable, 20, 10), 0);
}

#[test]
fn classification_metrics() {
    let samples = classified();
    assert_eq!(accuracy(&samples, 10, 20), Reading::Value(600_000));
    // 2 of 3 predicted positives
    assert_eq!(precision(&samples, 10, 20), Reading::Value(666_666));
    // 2 of 3 actual positives
    assert_eq!(recall(&samples, 10, 20), Reading::Value(666_666));
    // 4 / (4 + 1 + 1)
    assert_eq!(f1(&samples, 10, 20), Reading::Value(666_666));
}

#[test]
fn auc_counts_wins_and_half_ties() {
    let samples = classified();
    // positives 0.9, 0.3, 0.7 against negatives 0.8, 0.2: wins 0.9>0.8, 0.9>0.2, 0.3>0.2,
    // 0.7>0.2
    assert_eq!(count_pairs(&samples, Pairing::Win, 10, 20), 4);
    assert_eq!(count_pairs(&samples, Pairing::Tie, 10, 20), 0);
    assert_eq!(auc_roc(&samples, 10, 20), Reading::Value(666_666));
    let tied = vec![
        class(1, 1, 500_000, Some(1)),
        class(1, 1, 500_000, Some(0)),
        class(1, 1, 400_000, Some(0)),
    ];
    assert_eq!(count_pairs(&tied, Pairing::Win, 0, 10), 1);
    assert_eq!(count_pairs(&tied, Pairing::Tie, 0, 10), 1);
    assert_eq!(auc_roc(&tied, 0, 10), Reading::Value(750_000));
    let perfect = vec![class(1, 1, 2, Some(1)), class(1, 0, 1, Some(0))];
    assert_eq!(auc_roc(&perfect, 0, 10), Reading::Value(1_000_000));
    let inverted = vec![class(1, 1, 1, Some(1)), class(1, 0, 2, Some(0))];
    assert_eq!(auc_roc(&inverted, 0, 10), Reading::Value(0));
}

#[test]
fn no_data_where_nothing_can_be_scored() {
    let empty: Vec<Sample> = Vec::new();
    let unknown = vec![class(1, 1, 5, None), class(2, 0, 5, None)];
    let outside = vec![class(100, 1, 5, Some(1))];
    for samples in [&empty, &unknown, &outside] {
        assert_eq!(accuracy(samples, 0, 10), Reading::NoData);
        assert_eq!(precision(samples, 0, 10), Reading::NoData);
        assert_eq!(recall(samples, 0, 10), Reading::NoData);
        assert_eq!(f1(samples, 0, 10), Reading::NoData);
        assert_eq!(auc_roc(samples, 0, 10), Reading::NoData);
        assert_eq!(mean_squared_error(samples, 0, 10), Reading::NoData);
        assert_eq!(root_mean_squared_error(samples, 0, 10), Reading::NoData);
    }
    // no predicted positive: precision has nothing to divide by
    let negatives = vec![class(1, 0, 5, Some(1))];
    assert_eq!(precision(&negatives, 0, 10), Reading::NoData);
    assert_eq!(recall(&negatives, 0, 10), Reading::Value(0));
    // one class only: no pairs
    assert_eq!(auc_roc(&negatives, 0, 10), Reading::NoData);
}

#[test]
fn window_bounds_are_half_open() {
    let samples = vec![class(10, 1, 0, Some(1)), class(20, 0, 0, Some(1))];
    assert_eq!(accuracy(&samples, 10, 20), Reading::Value(1_000_000));
    assert_eq!(accuracy(&samples, 11, 21), Reading::Value(0));
    assert_eq!(accuracy(&samples, 10, 21), Reading::Value(500_000));
    assert_eq!(accuracy(&samples, 11, 20), Reading::NoData);
}

#[test]
fn squared_errors() {
    // errors of 1.0, 2.0 and 3.0: squares 1, 4, 9; mean 14/3
    let samples = vec![
        number(1, 3_000_000, Some(2_000_000)),
        number(2, 1_000_000, Some(3_000_000)),
        number(3, -1_000_000, Some(2_000_000)),
        number(4, 9_000_000, None),
        number(50, 9_000_000, Some(0)),
    ];
    assert_eq!(mean_squared_error(&samples, 0, 10), Reading::Value(4_666_666));
    // the root of 14/3 is 2.160246...
    assert_eq!(root_mean_squared_error(&samples, 0, 10), Reading::Value(2_160_246));
    let exact = vec![number(1, 500_000, Some(0))];
    assert_eq!(mean_squared_error(&exact, 0, 10), Reading::Value(250_000));
    assert_eq!(root_mean_squared_error(&exact, 0, 10), Reading::Value(500_000));
    let none = vec![number(1, 7, Some(7))];
    assert_eq!(mean_squared_error(&none, 0, 10), Reading::Value(0));
    assert_eq!(root_mean_squared_error(&none, 0, 10), Reading::Value(0));
}

#[test]
fn squared_errors_are_capped() {
    let far = vec![number(1, i64::MAX, Some(i64::MIN)), number(2, i64::MIN, Some(i64::MAX))];
    assert_eq!(mean_squared_error(&far, 0, 10), Reading::Value(i64::MAX));
    assert_eq!(root_mean_squared_error(&far, 0, 10), Reading::Value(i64::MAX));
    let large = vec![number(1, i64::MAX, Some(0))];
    assert_eq!(root_mean_squared_error(&large, 0, 10), Reading::Value(i64::MAX));
    let below = vec![number(1, i64::MAX - 1, Some(0))];
    assert_eq!(root_mean_squared_error(&below, 0, 10), Reading::Value(i64::MAX - 1));
}

#[test]
fn roots() {
    assert_eq!(integer_root(0), 0);
    assert_eq!(integer_root(1), 1);
    assert_eq!(integer_root(3), 1);
    assert_eq!(integer_root(4), 2);
    assert_eq!(integer_root(99), 9);
    assert_eq!(integer_root(100), 10);
    assert_eq!(integer_root(1 << 126), 1 << 63);
    assert_eq!(integer_root((1 << 126) - 1), (1 << 63) - 1);
}

#[test]
fn shares() {
    assert_eq!(share(0, 0), Reading::NoData);
    assert_eq!(share(0, 7), Reading::Value(0));
    assert_eq!(share(7, 7), Reading::Value(1_000_000));
    assert_eq!(share(1, 3), Reading::Value(333_333));
    assert_eq!(share(2, 3), Reading::Value(666_666));
}

#[test]
fn metric_by_name() {
    let samples = classified();
    assert_eq!(compute_metric(AlertMetric::Accuracy, &samples, 10, 20), Reading::Value(600_000));
    assert_eq!(compute_metric(AlertMetric::AucRoc, &samples, 10, 20), Reading::Value(666_666));
    assert_eq!(compute_metric(AlertMetric::Precision, &samples, 10, 20), Reading::Value(666_666));
    assert_eq!(compute_metric(AlertMetric::Recall, &samples, 10, 20), Reading::Value(666_666));
    assert_eq!(compute_metric(AlertMetric::F1, &samples, 10, 20), Reading::Value(666_666));
    let numbers = vec![number(1, 3_000_000, Some(1_000_000))];
    assert_eq!(
        compute_metric(AlertMetric::MeanSquaredError, &numbers, 0, 10),
        Reading::Value(4_000_000)
    );
    assert_eq!(
        compute_metric(AlertMetric::RootMeanSquaredError, &numbers, 0, 10),
        Reading::Value(2_000_000)
    );
}
