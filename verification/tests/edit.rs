use drift_monitor::edit::{
    apply_action, create_from_action, edit_route, error_message, extract_threshold_bounds,
    methods_from, monitor_from_action, monitors_location, update_from_action,
    validate_threshold_bounds, Action, EditOutcome, UpdateMonitorAction,
};
use drift_monitor::monitor::{AlertCadence, AlertMethod, Id, ValidationError};
use drift_monitor::store::{MonitorError, MonitorStore};
use drift_monitor::threshold::{AlertMetric, AlertModelType, MonitorThresholdMode};

fn form(lower: &str, upper: &str) -> UpdateMonitorAction {
    UpdateMonitorAction {
        cadence: "daily".to_owned(),
        email: String::new(),
        metric: "accuracy".to_owned(),
        mode: "percentage".to_owned(),
        threshold_lower: lower.to_owned(),
        threshold_upper: upper.to_owned(),
        title: String::new(),
        webhook: String::new(),
    }
}

#[test]
fn bounds_need_one_field() {
    assert_eq!(validate_threshold_bounds(String::new(), String::new()), None);
    assert_eq!(
        validate_threshold_bounds("-0.1".to_owned(), String::new()),
        Some(("-0.1".to_owned(), String::new()))
    );
    assert_eq!(
        validate_threshold_bounds(String::new(), "x".to_owned()),
        Some((String::new(), "x".to_owned()))
    );
}

#[test]
fn bounds_are_read_as_decimals() {
    assert_eq!(
        extract_threshold_bounds(("-0.10".to_owned(), "0.10".to_owned())),
        Ok((Some(-100_000), Some(100_000)))
    );
    assert_eq!(
        extract_threshold_bounds((String::new(), "2".to_owned())),
        Ok((None, Some(2_000_000)))
    );
    assert_eq!(extract_threshold_bounds((String::new(), String::new())), Ok((None, None)));
    assert_eq!(
        extract_threshold_bounds(("ten".to_owned(), "0.1".to_owned())),
        Err(ValidationError::MalformedBound)
    );
    assert_eq!(
        extract_threshold_bounds(("0.1".to_owned(), "1e9".to_owned())),
        Err(ValidationError::MalformedBound)
    );
}

#[test]
fn methods_always_begin_with_stdout() {
    assert_eq!(methods_from(String::new(), String::new()), vec![AlertMethod::Stdout]);
    assert_eq!(
        methods_from("a@b.c".to_owned(), String::new()),
        vec![AlertMethod::Stdout, AlertMethod::Email("a@b.c".to_owned())]
    );
    assert_eq!(
        methods_from(String::new(), "https://hook".to_owned()),
        vec![AlertMethod::Stdout, AlertMethod::Webhook("https://hook".to_owned())]
    );
    assert_eq!(
        methods_from("a@b.c".to_owned(), "https://hook".to_owned()),
        vec![
            AlertMethod::Stdout,
            AlertMethod::Email("a@b.c".to_owned()),
            AlertMethod::Webhook("https://hook".to_owned())
        ]
    );
}

#[test]
fn valid_form_gives_monitor() {
    let mut action = form("-0.1", "");
    action.email = "ops@example.com".to_owned();
    let monitor =
        monitor_from_action(action, Id(7), Id(9), AlertModelType::BinaryClassifier).unwrap();
    assert_eq!(monitor.id, Id(7));
    assert_eq!(monitor.model_id, Id(9));
    assert_eq!(monitor.cadence, AlertCadence::Daily);
    assert_eq!(monitor.threshold.metric, AlertMetric::Accuracy);
    assert_eq!(monitor.threshold.mode, MonitorThresholdMode::Percentage);
    assert_eq!(monitor.threshold.variance_lower, Some(-100_000));
    assert_eq!(monitor.threshold.variance_upper, None);
    assert_eq!(monitor.title, "Daily Accuracy Monitor");
    assert_eq!(
        monitor.methods,
        vec![AlertMethod::Stdout, AlertMethod::Email("ops@example.com".to_owned())]
    );
}

#[test]
fn given_title_is_kept() {
    let mut action = form("", "1");
    action.title = "Mine".to_owned();
    let monitor =
        monitor_from_action(action, Id(7), Id(9), AlertModelType::BinaryClassifier).unwrap();
    assert_eq!(monitor.title, "Mine");
}

#[test]
fn each_validation_error() {
    let kind = AlertModelType::BinaryClassifier;
    let mut bad = form("1", "");
    bad.metric = "loss".to_owned();
    assert_eq!(monitor_from_action(bad, Id(1), Id(2), kind), Err(ValidationError::UnknownMetric));
    let mut bad = form("1", "");
    bad.metric = "rmse".to_owned();
    assert_eq!(
        monitor_from_action(bad, Id(1), Id(2), kind),
        Err(ValidationError::MetricNotAllowed)
    );
    assert_eq!(
        monitor_from_action(form("", ""), Id(1), Id(2), kind),
        Err(ValidationError::MissingBounds)
    );
    assert_eq!(
        monitor_from_action(form("x", ""), Id(1), Id(2), kind),
        Err(ValidationError::MalformedBound)
    );
    let mut bad = form("1", "");
    bad.cadence = "yearly".to_owned();
    assert_eq!(monitor_from_action(bad, Id(1), Id(2), kind), Err(ValidationError::UnknownCadence));
    let mut bad = form("1", "");
    bad.mode = "relative".to_owned();
    assert_eq!(monitor_from_action(bad, Id(1), Id(2), kind), Err(ValidationError::UnknownMode));
}

#[test]
fn metric_is_checked_before_bounds() {
    let mut bad = form("", "");
    bad.metric = "loss".to_owned();
    bad.cadence = "yearly".to_owned();
    assert_eq!(
        monitor_from_action(bad, Id(1), Id(2), AlertModelType::Regressor),
        Err(ValidationError::UnknownMetric)
    );
}

#[test]
fn messages_and_status() {
    assert_eq!(
        error_message(MonitorError::Validation(ValidationError::MissingBounds)),
        "Must provide at least one threshold bound."
    );
    assert_eq!(error_message(MonitorError::Duplicate), "Identical monitor already exists.");
    assert_eq!(error_message(MonitorError::Store), "There was an error editing your monitor.");
    assert_eq!(
        error_message(MonitorError::Validation(ValidationError::UnknownMode)),
        "There was an error editing your monitor."
    );
    assert_eq!(EditOutcome::Saved.status(), 303);
    assert_eq!(EditOutcome::Deleted.status(), 303);
    assert_eq!(EditOutcome::Rejected(MonitorError::Duplicate).status(), 400);
}

#[test]
fn location_of_the_list() {
    assert_eq!(
        monitors_location(Id(0xab), Id(0x1_0000_0000)),
        "/repos/000000000000000000000000000000ab/models/00000000000000000000000100000000/monitors/"
    );
}

#[test]
fn route_of_an_edit_request() {
    let path = vec!["repos", "r", "models", "m", "monitors", "x", "edit"];
    assert_eq!(edit_route(&path), Some(("r", "m", "x")));
    let path = vec!["repos", "r", "models", "m", "monitors", "x"];
    assert_eq!(edit_route(&path), None);
    let path = vec!["repos", "r", "models", "m", "monitors", "x", "new"];
    assert_eq!(edit_route(&path), None);
    let path = vec!["repo", "r", "models", "m", "monitors", "x", "edit"];
    assert_eq!(edit_route(&path), None);
    let path: Vec<&str> = Vec::new();
    assert_eq!(edit_route(&path), None);
}

#[test]
fn create_then_duplicate_with_other_title_and_methods() {
    let kind = AlertModelType::BinaryClassifier;
    let mut store = MonitorStore::new();
    let first = form("-0.1", "0.1");
    assert_eq!(create_from_action(&mut store, first, Id(1), Id(50), kind, 36_000), Ok(Id(1)));
    assert_eq!(store.len(), 1);
    assert_eq!(store.get(Id(1)).unwrap().last_evaluated_window_end, 0);
    let mut second = form("-0.1", "0.1");
    second.title = "Another name".to_owned();
    second.email = "ops@example.com".to_owned();
    second.webhook = "https://hook".to_owned();
    assert_eq!(
        create_from_action(&mut store, second, Id(2), Id(50), kind, 36_000),
        Err(MonitorError::Duplicate)
    );
    assert_eq!(store.len(), 1);
    // the same rule on another model is no duplicate
    let third = form("-0.1", "0.1");
    assert_eq!(create_from_action(&mut store, third, Id(3), Id(51), kind, 36_000), Ok(Id(3)));
    // -0.10 and -0.1 are the same bound
    let fourth = form("-0.10", "0.100");
    assert_eq!(
        create_from_action(&mut store, fourth, Id(4), Id(50), kind, 36_000),
        Err(MonitorError::Duplicate)
    );
}

#[test]
fn create_rejects_invalid_form_and_used_id() {
    let kind = AlertModelType::BinaryClassifier;
    let mut store = MonitorStore::new();
    assert_eq!(
        create_from_action(&mut store, form("", ""), Id(1), Id(50), kind, 0),
        Err(MonitorError::Validation(ValidationError::MissingBounds))
    );
    assert_eq!(store.len(), 0);
    assert_eq!(create_from_action(&mut store, form("1", ""), Id(1), Id(50), kind, 0), Ok(Id(1)));
    assert_eq!(
        create_from_action(&mut store, form("2", ""), Id(1), Id(50), kind, 0),
        Err(MonitorError::Store)
    );
    assert_eq!(store.len(), 1);
}

#[test]
fn update_replaces_whole_configuration() {
    let kind = AlertModelType::BinaryClassifier;
    let mut store = MonitorStore::new();
    create_from_action(&mut store, form("-0.1", ""), Id(1), Id(50), kind, 7_200).unwrap();
    create_from_action(&mut store, form("-0.2", ""), Id(2), Id(50), kind, 7_200).unwrap();
    let mut change = form("", "0.3");
    change.cadence = "hourly".to_owned();
    change.title = "Renamed".to_owned();
    assert_eq!(update_from_action(&mut store, change, Id(1), Id(50), kind), EditOutcome::Saved);
    let kept = store.get(Id(1)).unwrap();
    assert_eq!(kept.monitor.id, Id(1));
    assert_eq!(kept.monitor.title, "Renamed");
    assert_eq!(kept.monitor.cadence, AlertCadence::Hourly);
    assert_eq!(kept.monitor.threshold.variance_lower, None);
    assert_eq!(kept.monitor.threshold.variance_upper, Some(300_000));
    assert_eq!(kept.last_evaluated_window_end, 0);
    // a monitor may be saved again as it is
    let mut same = form("", "0.3");
    same.cadence = "hourly".to_owned();
    assert_eq!(update_from_action(&mut store, same, Id(1), Id(50), kind), EditOutcome::Saved);
    // but not turned into a copy of another
    assert_eq!(
        update_from_action(&mut store, form("-0.2", ""), Id(1), Id(50), kind),
        EditOutcome::Rejected(MonitorError::Duplicate)
    );
    assert_eq!(
        update_from_action(&mut store, form("", ""), Id(1), Id(50), kind),
        EditOutcome::Rejected(MonitorError::Validation(ValidationError::MissingBounds))
    );
    assert_eq!(
        update_from_action(&mut store, form("9", ""), Id(77), Id(50), kind),
        EditOutcome::Rejected(MonitorError::Store)
    );
    assert_eq!(store.get(Id(1)).unwrap().monitor.title, "Hourly Accuracy Monitor");
}

#[test]
fn delete_action_removes_the_monitor() {
    let kind = AlertModelType::BinaryClassifier;
    let mut store = MonitorStore::new();
    create_from_action(&mut store, form("-0.1", ""), Id(1), Id(50), kind, 0).unwrap();
    create_from_action(&mut store, form("-0.2", ""), Id(2), Id(50), kind, 0).unwrap();
    assert_eq!(apply_action(&mut store, Action::Delete, Id(1), Id(50), kind), EditOutcome::Deleted);
    assert!(store.get(Id(1)).is_none());
    assert!(store.get(Id(2)).is_some());
    assert_eq!(apply_action(&mut store, Action::Delete, Id(1), Id(50), kind), EditOutcome::Deleted);
    assert_eq!(store.len(), 1);
    assert_eq!(
        apply_action(&mut store, Action::UpdateMonitor(form("5", "")), Id(2), Id(50), kind),
        EditOutcome::Saved
    );
    assert_eq!(store.get(Id(2)).unwrap().monitor.threshold.variance_lower, Some(5_000_000));
}

#[test]
fn saved_update_is_kept_and_leaves_the_rest() {
    let kind = AlertModelType::BinaryClassifier;
    let mut store = MonitorStore::new();
    create_from_action(&mut store, form("-0.1", ""), Id(1), Id(50), kind, 7_200).unwrap();
    create_from_action(&mut store, form("-0.2", ""), Id(2), Id(50), kind, 90_000).unwrap();
    let mut change = form("-0.3", "0.3");
    change.webhook = "https://hook".to_owned();
    let outcome = apply_action(&mut store, Action::UpdateMonitor(change), Id(2), Id(50), kind);
    assert_eq!(outcome, EditOutcome::Saved);
    assert_eq!(store.len(), 2);
    let kept = store.get(Id(2)).unwrap();
    assert_eq!(kept.monitor.id, Id(2));
    assert_eq!(kept.monitor.model_id, Id(50));
    assert_eq!(kept.monitor.threshold.variance_lower, Some(-300_000));
    assert_eq!(kept.monitor.threshold.variance_upper, Some(300_000));
    assert_eq!(
        kept.monitor.methods,
        vec![AlertMethod::Stdout, AlertMethod::Webhook("https://hook".to_owned())]
    );
    assert_eq!(kept.monitor.title, "Daily Accuracy Monitor");
    assert_eq!(kept.last_evaluated_window_end, 86_400);
    let other = store.get(Id(1)).unwrap();
    assert_eq!(other.monitor.threshold.variance_lower, Some(-100_000));
    assert_eq!(other.last_evaluated_window_end, 0);
}

#[test]
fn empty_bounds_are_turned_down_with_their_message() {
    let kind = AlertModelType::BinaryClassifier;
    let mut store = MonitorStore::new();
    create_from_action(&mut store, form("-0.1", ""), Id(1), Id(50), kind, 0).unwrap();
    let outcome =
        apply_action(&mut store, Action::UpdateMonitor(form("", "")), Id(1), Id(50), kind);
    let expected = MonitorError::Validation(ValidationError::MissingBounds);
    assert_eq!(outcome, EditOutcome::Rejected(expected));
    assert_eq!(outcome.status(), 400);
    assert_eq!(error_message(expected), "Must provide at least one threshold bound.");
    assert_eq!(store.len(), 1);
    assert_eq!(store.get(Id(1)).unwrap().monitor.threshold.variance_lower, Some(-100_000));
    // with a metric that the task does not allow, the metric is reported first
    let mut bad = form("", "");
    bad.metric = "rmse".to_owned();
    let outcome = apply_action(&mut store, Action::UpdateMonitor(bad), Id(1), Id(50), kind);
    assert_eq!(
        outcome,
        EditOutcome::Rejected(MonitorError::Validation(ValidationError::MetricNotAllowed))
    );
    assert_eq!(outcome.status(), 400);
    assert_eq!(store.get(Id(1)).unwrap().monitor.threshold.variance_lower, Some(-100_000));
}
