use drift_monitor::calendar::{
    day_start, floor_div_rem, month_index_at, month_index_from_date, month_start_at,
};
use drift_monitor::evaluation::{commit, conclude, tick_monitor, Reading, TickOutcome};
use drift_monitor::metric::Sample;
use drift_monitor::monitor::{AlertCadence, AlertMethod, Id, Monitor};
use drift_monitor::schedule::{
    due_window, initial_window_end, monthly_window_between, retry_floor, Due,
};
use drift_monitor::store::MonitorStore;
use drift_monitor::threshold::{
    AlertMetric, BreachDirection, Evaluation, MonitorThreshold, MonitorThresholdMode,
};

const H: i64 = 3_600;
const D: i64 = 86_400;
// 2021-03-01 00:00:00 UTC
const MARCH_2021: i64 = 1_614_556_800;
// 2021-02-01 00:00:00 UTC
const FEBRUARY_2021: i64 = 1_612_137_600;
// 2021-01-01 00:00:00 UTC
const JANUARY_2021: i64 = 1_609_459_200;

fn band() -> MonitorThreshold {
    MonitorThreshold {
        metric: AlertMetric::Accuracy,
        mode: MonitorThresholdMode::Absolute,
        variance_lower: Some(-50_000),
        variance_upper: None,
    }
}

#[test]
fn floor_division() {
    assert_eq!(floor_div_rem(7, 3), (2, 1));
    assert_eq!(floor_div_rem(-7, 3), (-3, 2));
    assert_eq!(floor_div_rem(-6, 3), (-2, 0));
    assert_eq!(floor_div_rem(0, 5), (0, 0));
    assert_eq!(floor_div_rem(-1, D), (-1, D - 1));
    assert_eq!(floor_div_rem(i64::MIN, 1), (i64::MIN, 0));
    assert_eq!(floor_div_rem(i64::MIN, i64::MAX), (-2, i64::MAX - 1));
    assert_eq!(floor_div_rem(i64::MAX, i64::MAX), (1, 0));
}

#[test]
fn months_of_the_calendar() {
    assert_eq!(month_index_at(0), Some(1970 * 12));
    assert_eq!(month_index_at(-1), Some(1969 * 12 + 11));
    assert_eq!(month_index_at(MARCH_2021), Some(2021 * 12 + 2));
    assert_eq!(month_index_at(MARCH_2021 - 1), Some(2021 * 12 + 1));
    assert_eq!(month_index_at(i64::MAX), None);
    assert_eq!(month_index_at(i64::MIN), None);
    assert_eq!(month_start_at(1970 * 12), Some(0));
    assert_eq!(month_start_at(1969 * 12 + 11), Some(-31 * D));
    assert_eq!(month_start_at(2021 * 12 + 2), Some(MARCH_2021));
    assert_eq!(month_start_at(2021 * 12 + 1), Some(FEBRUARY_2021));
    // 2020 was a leap year
    assert_eq!(month_start_at(2020 * 12 + 2), Some(month_start_at(2020 * 12 + 1).unwrap() + 29 * D));
    assert_eq!(month_start_at(i64::MAX), None);
    assert_eq!(month_start_at(i64::MIN), None);
}

#[test]
fn first_pointer_is_rounded_down() {
    assert_eq!(initial_window_end(AlertCadence::Hourly, 10 * H), Some(10 * H));
    assert_eq!(initial_window_end(AlertCadence::Hourly, 10 * H + 299), Some(10 * H));
    assert_eq!(initial_window_end(AlertCadence::Hourly, -1), Some(-H));
    assert_eq!(initial_window_end(AlertCadence::Daily, 10 * H), Some(0));
    assert_eq!(initial_window_end(AlertCadence::Daily, MARCH_2021 + 5), Some(MARCH_2021));
    // 1970-01-01 was a Thursday; weeks begin on Monday
    assert_eq!(initial_window_end(AlertCadence::Weekly, 0), Some(-3 * D));
    assert_eq!(initial_window_end(AlertCadence::Weekly, 4 * D), Some(4 * D));
    assert_eq!(initial_window_end(AlertCadence::Weekly, 11 * D - 1), Some(4 * D));
    // 2021-03-01 was a Monday
    assert_eq!(initial_window_end(AlertCadence::Weekly, MARCH_2021 + 6 * D), Some(MARCH_2021));
    assert_eq!(initial_window_end(AlertCadence::Monthly, MARCH_2021 + 14 * D), Some(MARCH_2021));
    assert_eq!(initial_window_end(AlertCadence::Monthly, MARCH_2021 - 1), Some(FEBRUARY_2021));
    assert_eq!(initial_window_end(AlertCadence::Monthly, i64::MAX), None);
    assert_eq!(initial_window_end(AlertCadence::Hourly, i64::MIN), None);
    assert_eq!(initial_window_end(AlertCadence::Hourly, i64::MAX), Some(i64::MAX - i64::MAX % H));
}

#[test]
fn nothing_due_before_a_boundary() {
    assert_eq!(due_window(AlertCadence::Hourly, 10 * H, 10 * H + 300), Due::NotDue);
    assert_eq!(due_window(AlertCadence::Hourly, 10 * H, 11 * H - 1), Due::NotDue);
    assert_eq!(due_window(AlertCadence::Hourly, 10 * H, 9 * H), Due::NotDue);
    assert_eq!(due_window(AlertCadence::Daily, 0, D - 1), Due::NotDue);
    assert_eq!(due_window(AlertCadence::Weekly, 4 * D, 11 * D - 1), Due::NotDue);
    assert_eq!(due_window(AlertCadence::Monthly, FEBRUARY_2021, MARCH_2021 - 1), Due::NotDue);
    assert_eq!(due_window(AlertCadence::Monthly, MARCH_2021, MARCH_2021 + D), Due::NotDue);
}

#[test]
fn one_window_due_at_the_boundary() {
    assert_eq!(
        due_window(AlertCadence::Hourly, 10 * H, 11 * H),
        Due::Window { start: 10 * H, end: 11 * H }
    );
    assert_eq!(
        due_window(AlertCadence::Hourly, 10 * H, 11 * H + 600),
        Due::Window { start: 10 * H, end: 11 * H }
    );
    assert_eq!(due_window(AlertCadence::Daily, 0, D), Due::Window { start: 0, end: D });
    assert_eq!(
        due_window(AlertCadence::Weekly, 4 * D, 11 * D),
        Due::Window { start: 4 * D, end: 11 * D }
    );
    assert_eq!(
        due_window(AlertCadence::Monthly, FEBRUARY_2021, MARCH_2021 + 5),
        Due::Window { start: FEBRUARY_2021, end: MARCH_2021 }
    );
}

#[test]
fn catch_up_takes_the_latest_window_only() {
    assert_eq!(
        due_window(AlertCadence::Hourly, 10 * H, 15 * H + 30),
        Due::Window { start: 14 * H, end: 15 * H }
    );
    assert_eq!(
        due_window(AlertCadence::Daily, 0, 400 * D + 5),
        Due::Window { start: 399 * D, end: 400 * D }
    );
    assert_eq!(
        due_window(AlertCadence::Monthly, JANUARY_2021, MARCH_2021 + 5 * D),
        Due::Window { start: FEBRUARY_2021, end: MARCH_2021 }
    );
    // windows are counted from the pointer, wherever it stands
    assert_eq!(
        due_window(AlertCadence::Hourly, 10 * H + 7, 12 * H + 10),
        Due::Window { start: 11 * H + 7, end: 12 * H + 7 }
    );
    // a pointer within the month before: the window begins at the pointer
    assert_eq!(
        due_window(AlertCadence::Monthly, FEBRUARY_2021 + 3 * D, MARCH_2021),
        Due::Window { start: FEBRUARY_2021 + 3 * D, end: MARCH_2021 }
    );
    assert_eq!(
        due_window(AlertCadence::Hourly, i64::MIN, i64::MAX),
        // two to the 64 leaves 16 when divided by 3600
        Due::Window { start: i64::MAX - 15 - H, end: i64::MAX - 15 }
    );
}

#[test]
fn calendar_out_of_range() {
    assert_eq!(due_window(AlertCadence::Monthly, 0, i64::MAX), Due::OutOfRange);
    assert_eq!(due_window(AlertCadence::Monthly, 0, i64::MIN), Due::OutOfRange);
}

#[test]
fn retry_floors() {
    assert_eq!(retry_floor(AlertCadence::Hourly, 15 * H, 3), Some(12 * H));
    assert_eq!(retry_floor(AlertCadence::Daily, 0, 2), Some(-2 * D));
    assert_eq!(retry_floor(AlertCadence::Weekly, 11 * D, 0), Some(11 * D));
    assert_eq!(retry_floor(AlertCadence::Monthly, MARCH_2021, 2), Some(JANUARY_2021));
    assert_eq!(retry_floor(AlertCadence::Monthly, MARCH_2021, 0), Some(MARCH_2021));
    assert_eq!(retry_floor(AlertCadence::Hourly, i64::MIN, 1), None);
    assert_eq!(retry_floor(AlertCadence::Monthly, i64::MAX, 1), None);
}

#[test]
fn hourly_monitor_without_data_then_with() {
    let id = Id(1);
    let created_at = 10 * H;
    let mut store = MonitorStore::new();
    let pointer = initial_window_end(AlertCadence::Hourly, created_at).unwrap();
    assert_eq!(pointer, 10 * H);
    let monitor = Monitor {
        cadence: AlertCadence::Hourly,
        id,
        methods: vec![AlertMethod::Stdout],
        model_id: Id(2),
        threshold: band(),
        title: "t".to_owned(),
    };
    store.create(monitor, pointer).unwrap();

    // 10:05: no boundary crossed
    let last = store.get(id).unwrap().last_evaluated_window_end;
    let due = due_window(AlertCadence::Hourly, last, 10 * H + 300);
    let outcome = conclude(AlertCadence::Hourly, last, due, Reading::NoData, 800_000, &band(), Some(3));
    assert_eq!(outcome, TickOutcome::NotDue);
    assert!(!commit(&mut store, id, last, &outcome));
    assert_eq!(store.get(id).unwrap().last_evaluated_window_end, 10 * H);

    // 11:01: the window is due, but holds no data yet
    let due = due_window(AlertCadence::Hourly, last, 11 * H + 60);
    assert_eq!(due, Due::Window { start: 10 * H, end: 11 * H });
    let outcome = conclude(AlertCadence::Hourly, last, due, Reading::NoData, 800_000, &band(), Some(3));
    assert_eq!(outcome, TickOutcome::Skipped { start: 10 * H, end: 11 * H, pointer: 10 * H });
    assert!(!outcome.alerts());
    assert!(!commit(&mut store, id, last, &outcome));
    assert_eq!(store.get(id).unwrap().last_evaluated_window_end, 10 * H);

    // 11:10: data is there
    let last = store.get(id).unwrap().last_evaluated_window_end;
    let due = due_window(AlertCadence::Hourly, last, 11 * H + 600);
    assert_eq!(due, Due::Window { start: 10 * H, end: 11 * H });
    let outcome =
        conclude(AlertCadence::Hourly, last, due, Reading::Value(700_000), 800_000, &band(), Some(3));
    assert_eq!(
        outcome,
        TickOutcome::Evaluated {
            start: 10 * H,
            end: 11 * H,
            evaluation: Evaluation::Breach { direction: BreachDirection::Low, variance: -100_000 },
        }
    );
    assert!(outcome.alerts());
    assert!(commit(&mut store, id, last, &outcome));
    assert_eq!(store.get(id).unwrap().last_evaluated_window_end, 11 * H);

    // 11:20: the same window is not due again
    let last = store.get(id).unwrap().last_evaluated_window_end;
    assert_eq!(due_window(AlertCadence::Hourly, last, 11 * H + 1_200), Due::NotDue);
}

#[test]
fn indeterminate_evaluation_advances_without_alert() {
    let threshold = MonitorThreshold {
        metric: AlertMetric::Accuracy,
        mode: MonitorThresholdMode::Percentage,
        variance_lower: Some(-100_000),
        variance_upper: Some(100_000),
    };
    let due = Due::Window { start: 0, end: H };
    let outcome =
        conclude(AlertCadence::Hourly, 0, due, Reading::Value(5), 0, &threshold, None);
    assert_eq!(
        outcome,
        TickOutcome::Evaluated { start: 0, end: H, evaluation: Evaluation::Indeterminate }
    );
    assert!(!outcome.alerts());
    assert_eq!(outcome.pointer(0), H);
}

#[test]
fn pointer_expires_beyond_the_horizon() {
    // ten windows behind, three allowed
    let due = due_window(AlertCadence::Hourly, 0, 10 * H);
    assert_eq!(due, Due::Window { start: 9 * H, end: 10 * H });
    let outcome = conclude(AlertCadence::Hourly, 0, due, Reading::NoData, 1, &band(), Some(3));
    assert_eq!(outcome, TickOutcome::Skipped { start: 9 * H, end: 10 * H, pointer: 7 * H });
    assert_eq!(outcome.pointer(0), 7 * H);
    // without a horizon the pointer stays
    let outcome = conclude(AlertCadence::Hourly, 0, due, Reading::NoData, 1, &band(), None);
    assert_eq!(outcome.pointer(0), 0);
    // three windows behind: within the horizon
    let due = due_window(AlertCadence::Hourly, 7 * H, 10 * H);
    let outcome = conclude(AlertCadence::Hourly, 7 * H, due, Reading::NoData, 1, &band(), Some(3));
    assert_eq!(outcome.pointer(7 * H), 7 * H);
    // months
    let due = due_window(AlertCadence::Monthly, 0, MARCH_2021);
    let outcome = conclude(AlertCadence::Monthly, 0, due, Reading::NoData, 1, &band(), Some(2));
    assert_eq!(outcome.pointer(0), JANUARY_2021);
    assert_eq!(TickOutcome::NotDue.pointer(5), 5);
    assert_eq!(TickOutcome::OutOfRange.pointer(5), 5);
}

#[test]
fn tick_of_one_monitor() {
    let id = Id(1);
    let mut store = MonitorStore::new();
    let monitor = Monitor {
        cadence: AlertCadence::Hourly,
        id,
        methods: vec![AlertMethod::Stdout],
        model_id: Id(2),
        threshold: band(),
        title: "t".to_owned(),
    };
    store.create(monitor, 10 * H).unwrap();
    let mut samples: Vec<Sample> = Vec::new();
    // 10:05: nothing is due
    assert_eq!(
        tick_monitor(&mut store, id, 10 * H + 300, &samples, 800_000, Some(3)),
        Some(TickOutcome::NotDue)
    );
    // 11:05: the window is due, without data
    assert_eq!(
        tick_monitor(&mut store, id, 11 * H + 300, &samples, 800_000, Some(3)),
        Some(TickOutcome::Skipped { start: 10 * H, end: 11 * H, pointer: 10 * H })
    );
    assert_eq!(store.get(id).unwrap().last_evaluated_window_end, 10 * H);
    // predictions arrive: 7 of 10 are right, one lies in the next window
    for i in 0..10 {
        samples.push(Sample {
            timestamp: 10 * H + 60 * i,
            predicted: 1,
            score: 0,
            actual: Some(if i < 7 { 1 } else { 0 }),
        });
    }
    samples.push(Sample { timestamp: 11 * H, predicted: 1, score: 0, actual: Some(0) });
    let outcome = tick_monitor(&mut store, id, 11 * H + 600, &samples, 800_000, Some(3)).unwrap();
    assert_eq!(
        outcome,
        TickOutcome::Evaluated {
            start: 10 * H,
            end: 11 * H,
            evaluation: Evaluation::Breach { direction: BreachDirection::Low, variance: -100_000 },
        }
    );
    assert_eq!(store.get(id).unwrap().last_evaluated_window_end, 11 * H);
    // the window is not evaluated again
    assert_eq!(
        tick_monitor(&mut store, id, 11 * H + 1_200, &samples, 800_000, Some(3)),
        Some(TickOutcome::NotDue)
    );
    // a monitor that is not kept gets no tick
    assert_eq!(tick_monitor(&mut store, Id(9), 11 * H, &samples, 800_000, Some(3)), None);
    store.delete(id).unwrap();
    assert_eq!(tick_monitor(&mut store, id, 20 * H, &samples, 800_000, Some(3)), None);
    assert_eq!(store.len(), 0);
}

#[test]
fn months_from_given_dates() {
    assert_eq!(month_index_from_date(Some((1970, 1, 1))), Some(1970 * 12));
    assert_eq!(month_index_from_date(Some((2021, 3, 15))), Some(2021 * 12 + 2));
    assert_eq!(month_index_from_date(Some((-1, 12, 31))), Some(-1));
    assert_eq!(month_index_from_date(Some((0, 1, 1))), Some(0));
    assert_eq!(month_index_from_date(Some((2021, 0, 1))), None);
    assert_eq!(month_index_from_date(Some((2021, 13, 1))), None);
    assert_eq!(month_index_from_date(None), None);
    assert_eq!(
        month_index_from_date(Some((i32::MAX, 12, 1))),
        Some(i32::MAX as i64 * 12 + 11)
    );
    assert_eq!(day_start(Some(0)), Some(0));
    assert_eq!(day_start(Some(1)), Some(D));
    assert_eq!(day_start(Some(-1)), Some(-D));
    assert_eq!(day_start(Some(i32::MAX)), Some(i32::MAX as i64 * D));
    assert_eq!(day_start(None), None);
}

#[test]
fn window_between_given_boundaries() {
    let window = |start, end| Due::Window { start, end };
    assert_eq!(monthly_window_between(0, 100, Some(90), Some(60)), window(60, 90));
    assert_eq!(monthly_window_between(70, 100, Some(90), Some(60)), window(70, 90));
    assert_eq!(monthly_window_between(60, 100, Some(90), Some(60)), window(60, 90));
    assert_eq!(monthly_window_between(90, 100, Some(90), Some(60)), Due::NotDue);
    assert_eq!(monthly_window_between(95, 100, Some(90), None), Due::NotDue);
    assert_eq!(monthly_window_between(0, 100, Some(100), Some(60)), window(60, 100));
    // a boundary that is missing or out of order
    assert_eq!(monthly_window_between(0, 100, None, Some(60)), Due::OutOfRange);
    assert_eq!(monthly_window_between(0, 100, Some(90), None), Due::OutOfRange);
    assert_eq!(monthly_window_between(0, 100, Some(101), Some(60)), Due::OutOfRange);
    assert_eq!(monthly_window_between(0, 100, Some(90), Some(90)), Due::OutOfRange);
    assert_eq!(monthly_window_between(0, 100, Some(90), Some(95)), Due::OutOfRange);
}
