//! From a submitted form to a monitor: the fields of the edit action, their
//! validation, and the monitor that a valid submission describes.

use vstd::prelude::*;
use vstd::string::StringExecFns;
use crate::decimal::{decimal_of, parse_decimal};
use crate::id::id_text;
use crate::schedule::{boundary_at, initial_window_end};
use crate::store::{
    consistent, create_outcome, has_bound, replaced_at, update_outcome, with_id, without_id,
    MonitorError, MonitorStore, StoredMonitorView,
};
use crate::text::same_text;
use crate::monitor::{
    cadence_named, default_title_of, metric_allowed, metric_named, mode_named, AlertCadence,
    AlertMethod, AlertMethodView, Id, Monitor, MonitorView, ValidationError,
};
use crate::threshold::{AlertMetric, AlertModelType, MonitorThreshold, MonitorThresholdMode};

verus! {

/// The fields of a submission that replaces a monitor's configuration.
#[derive(Clone, Debug, PartialEq, Eq)]
pub struct UpdateMonitorAction {
    pub cadence: String,
    pub email: String,
    pub metric: String,
    pub mode: String,
    pub threshold_lower: String,
    pub threshold_upper: String,
    pub title: String,
    pub webhook: String,
}

/// What a submission asks for.
#[derive(Clone, Debug, PartialEq, Eq)]
pub enum Action {
    UpdateMonitor(UpdateMonitorAction),
    Delete,
}

/// The bound that a field spells: none where it is empty.
pub open spec fn bound_of(field: Seq<char>) -> Result<Option<i64>, ValidationError> {
    if field.len() == 0 {
        Ok(None)
    } else {
        match decimal_of(field) {
            Some(units) => Ok(Some(units)),
            None => Err(ValidationError::MalformedBound),
        }
    }
}

/// The two bounds that a pair of fields spells; the lower one is read first.
pub open spec fn bounds_of(lower: Seq<char>, upper: Seq<char>) -> Result<
    (Option<i64>, Option<i64>),
    ValidationError,
> {
    match bound_of(lower) {
        Err(e) => Err(e),
        Ok(low) => match bound_of(upper) {
            Err(e) => Err(e),
            Ok(high) => Ok((low, high)),
        },
    }
}

/// The channels of a submission: stdout always, then the email address and
/// the webhook where they are not empty.
pub open spec fn methods_of(email: Seq<char>, webhook: Seq<char>) -> Seq<AlertMethodView> {
    seq![AlertMethodView::Stdout] + (if email.len() > 0 {
        seq![AlertMethodView::Email(email)]
    } else {
        seq![]
    }) + (if webhook.len() > 0 {
        seq![AlertMethodView::Webhook(webhook)]
    } else {
        seq![]
    })
}

/// The threshold and cadence that a submission describes, or the first
/// reason to turn it down: the metric, the two bounds, the cadence, the mode.
pub open spec fn rule_of(action: UpdateMonitorAction, model_type: AlertModelType) -> Result<
    (AlertCadence, MonitorThreshold),
    ValidationError,
> {
    if metric_named(action.metric@) is None {
        Err(ValidationError::UnknownMetric)
    } else if !metric_allowed(model_type, metric_named(action.metric@)->0) {
        Err(ValidationError::MetricNotAllowed)
    } else if action.threshold_lower@.len() == 0 && action.threshold_upper@.len() == 0 {
        Err(ValidationError::MissingBounds)
    } else {
        match bounds_of(action.threshold_lower@, action.threshold_upper@) {
            Err(e) => Err(e),
            Ok((variance_lower, variance_upper)) => if cadence_named(action.cadence@) is None {
                Err(ValidationError::UnknownCadence)
            } else if mode_named(action.mode@) is None {
                Err(ValidationError::UnknownMode)
            } else {
                Ok(
                    (
                        cadence_named(action.cadence@)->0,
                        MonitorThreshold {
                            metric: metric_named(action.metric@)->0,
                            mode: mode_named(action.mode@)->0,
                            variance_lower,
                            variance_upper,
                        },
                    ),
                )
            },
        }
    }
}

/// The title of the monitor: the submitted one, or the default where it is
/// empty.
pub open spec fn title_of(title: Seq<char>, cadence: AlertCadence, metric: AlertMetric) -> Seq<
    char,
> {
    if title.len() == 0 {
        default_title_of(cadence, metric)
    } else {
        title
    }
}

/// A submission that passes validation describes a threshold with at least
/// one bound.
pub proof fn lemma_valid_rule_has_bound(action: UpdateMonitorAction, model_type: AlertModelType)
    requires
        rule_of(action, model_type) is Ok,
    ensures
        crate::store::has_bound(rule_of(action, model_type)->Ok_0.1),
{
}

/// A submission whose two bound fields are both empty is turned down with
/// status 400, by an update and by a creation alike, and leaves the records
/// as they were. Where its metric is one that the model's task allows, the
/// reason is the missing bounds, and the form shows the message for them;
/// an unknown or disallowed metric is reported first.
pub proof fn lemma_empty_bounds_are_rejected(
    records: Seq<StoredMonitorView>,
    action: UpdateMonitorAction,
    id: Id,
    model_id: Id,
    model_type: AlertModelType,
    created_at: i64,
)
    requires
        action.threshold_lower@.len() == 0,
        action.threshold_upper@.len() == 0,
    ensures
        update_answer(records, action, id, model_id, model_type) is Rejected,
        status_of(update_answer(records, action, id, model_id, model_type)) == 400,
        records_after_update(records, action, id, model_id, model_type) == records,
        create_answer(records, action, id, model_id, model_type, created_at) is Err,
        metric_named(action.metric@) is Some && metric_allowed(
            model_type,
            metric_named(action.metric@)->0,
        ) ==> {
            &&& update_answer(records, action, id, model_id, model_type) == EditOutcome::Rejected(
                MonitorError::Validation(ValidationError::MissingBounds),
            )
            &&& message_of(MonitorError::Validation(ValidationError::MissingBounds))
                == "Must provide at least one threshold bound."@
            &&& create_answer(records, action, id, model_id, model_type, created_at) == Err::<
                Id,
                MonitorError,
            >(MonitorError::Validation(ValidationError::MissingBounds))
        },
{
}

/// Every monitor that a submission saves or creates has at least one bound,
/// and so has every monitor that the store keeps afterwards.
pub proof fn lemma_saved_monitor_has_bound(
    records: Seq<StoredMonitorView>,
    action: UpdateMonitorAction,
    id: Id,
    model_id: Id,
    model_type: AlertModelType,
    created_at: i64,
)
    requires
        consistent(records),
    ensures
        update_answer(records, action, id, model_id, model_type) is Saved ==> has_bound(
            described(action, rule_of(action, model_type)->Ok_0, id, model_id).threshold,
        ),
        create_answer(records, action, id, model_id, model_type, created_at) is Ok ==> has_bound(
            described(action, rule_of(action, model_type)->Ok_0, id, model_id).threshold,
        ),
        forall|i: int|
            0 <= i < records_after_update(records, action, id, model_id, model_type).len()
                ==> has_bound(
                (#[trigger] records_after_update(
                    records,
                    action,
                    id,
                    model_id,
                    model_type,
                )[i]).monitor.threshold,
            ),
{
    if rule_of(action, model_type) is Ok {
        lemma_valid_rule_has_bound(action, model_type);
    }
    let after = records_after_update(records, action, id, model_id, model_type);
    assert forall|i: int| 0 <= i < after.len() implies has_bound(
        (#[trigger] after[i]).monitor.threshold,
    ) by {
        assert(has_bound(records[i].monitor.threshold));
    }
}

/// Keeps the two bound fields where at least one of them is filled in.
pub fn validate_threshold_bounds(lower: String, upper: String) -> (r: Option<(String, String)>)
    ensures
        r is None <==> lower@.len() == 0 && upper@.len() == 0,
        r is Some ==> r == Some((lower, upper)),
{
    if lower.as_str().is_empty() && upper.as_str().is_empty() {
        None
    } else {
        Some((lower, upper))
    }
}

fn extract_bound(field: &str) -> (r: Result<Option<i64>, ValidationError>)
    ensures
        r == bound_of(field@),
{
    if field.is_empty() {
        Ok(None)
    } else {
        match parse_decimal(field) {
            Some(units) => Ok(Some(units)),
            None => Err(ValidationError::MalformedBound),
        }
    }
}

/// Reads the two bound fields into fixed-point units. An empty field is an
/// absent bound; any other field must be a decimal number.
pub fn extract_threshold_bounds(bounds: (String, String)) -> (r: Result<
    (Option<i64>, Option<i64>),
    ValidationError,
>)
    ensures
        r == bounds_of(bounds.0@, bounds.1@),
{
    let low = match extract_bound(bounds.0.as_str()) {
        Ok(low) => low,
        Err(e) => {
            return Err(e);
        },
    };
    match extract_bound(bounds.1.as_str()) {
        Ok(high) => Ok((low, high)),
        Err(e) => Err(e),
    }
}

/// The channels of a submission.
pub fn methods_from(email: String, webhook: String) -> (r: Vec<AlertMethod>)
    ensures
        r@.len() == methods_of(email@, webhook@).len(),
        forall|i: int| 0 <= i < r@.len() ==> (#[trigger] r@[i])@ == methods_of(email@, webhook@)[i],
{
    let mut methods: Vec<AlertMethod> = Vec::new();
    methods.push(AlertMethod::Stdout);
    if !email.as_str().is_empty() {
        methods.push(AlertMethod::Email(email));
    }
    if !webhook.as_str().is_empty() {
        methods.push(AlertMethod::Webhook(webhook));
    }
    methods
}

/// Builds the monitor that a submission describes for the model `model_id`,
/// under the identifier `id`, or gives the first reason to turn it down.
pub fn monitor_from_action(
    action: UpdateMonitorAction,
    id: Id,
    model_id: Id,
    model_type: AlertModelType,
) -> (r: Result<Monitor, ValidationError>)
    ensures
        match rule_of(action, model_type) {
            Err(e) => r is Err && r->Err_0 == e,
            Ok(rule) => r is Ok && r->Ok_0@ == (MonitorView {
                cadence: rule.0,
                id,
                methods: methods_of(action.email@, action.webhook@),
                model_id,
                threshold: rule.1,
                title: title_of(action.title@, rule.0, rule.1.metric),
            }),
        },
{
    let UpdateMonitorAction {
        cadence,
        email,
        metric,
        mode,
        threshold_lower,
        threshold_upper,
        title,
        webhook,
    } = action;
    let metric = match AlertMetric::from_str(metric.as_str()) {
        Ok(metric) => metric,
        Err(e) => {
            return Err(e);
        },
    };
    if !metric.allowed_for(model_type) {
        return Err(ValidationError::MetricNotAllowed);
    }
    let methods = methods_from(email, webhook);
    let bounds = match validate_threshold_bounds(threshold_lower, threshold_upper) {
        Some(bounds) => bounds,
        None => {
            return Err(ValidationError::MissingBounds);
        },
    };
    let (variance_lower, variance_upper) = match extract_threshold_bounds(bounds) {
        Ok(pair) => pair,
        Err(e) => {
            return Err(e);
        },
    };
    let cadence = match AlertCadence::from_str(cadence.as_str()) {
        Ok(cadence) => cadence,
        Err(e) => {
            return Err(e);
        },
    };
    let mode = match MonitorThresholdMode::from_str(mode.as_str()) {
        Ok(mode) => mode,
        Err(e) => {
            return Err(e);
        },
    };
    let mut monitor = Monitor {
        cadence,
        id,
        methods,
        model_id,
        threshold: MonitorThreshold { metric, mode, variance_lower, variance_upper },
        title,
    };
    if monitor.title.as_str().is_empty() {
        monitor.title = monitor.default_title();
    }
    assert(monitor@.methods =~= methods_of(action.email@, action.webhook@));
    Ok(monitor)
}

/// What became of a submission.
#[derive(Clone, Copy, Debug, PartialEq, Eq, Structural, Hash)]
pub enum EditOutcome {
    /// The monitor was saved; the answer leads back to the list of monitors.
    Saved,
    /// The monitor was deleted; the answer leads back to the list.
    Deleted,
    /// The submission was turned down; the form is shown again with the
    /// message for the error.
    Rejected(MonitorError),
}

/// The message that the form shows for an error.
pub open spec fn message_of(error: MonitorError) -> Seq<char> {
    match error {
        MonitorError::Validation(ValidationError::MissingBounds) =>
            "Must provide at least one threshold bound."@,
        MonitorError::Duplicate => "Identical monitor already exists."@,
        _ => "There was an error editing your monitor."@,
    }
}

/// The status of the answer to a submission: 303 where it leads back to the
/// list, 400 where the form is shown again.
pub open spec fn status_of(outcome: EditOutcome) -> u16 {
    match outcome {
        EditOutcome::Rejected(_) => 400,
        _ => 303,
    }
}

/// The monitor that a valid submission describes.
pub open spec fn described(
    action: UpdateMonitorAction,
    rule: (AlertCadence, MonitorThreshold),
    id: Id,
    model_id: Id,
) -> MonitorView {
    MonitorView {
        cadence: rule.0,
        id,
        methods: methods_of(action.email@, action.webhook@),
        model_id,
        threshold: rule.1,
        title: title_of(action.title@, rule.0, rule.1.metric),
    }
}

/// What `update_from_action` answers.
pub open spec fn update_answer(
    records: Seq<StoredMonitorView>,
    action: UpdateMonitorAction,
    monitor_id: Id,
    model_id: Id,
    model_type: AlertModelType,
) -> EditOutcome {
    match rule_of(action, model_type) {
        Err(e) => EditOutcome::Rejected(MonitorError::Validation(e)),
        Ok(rule) => match update_outcome(
            records,
            monitor_id,
            described(action, rule, monitor_id, model_id),
        ) {
            Err(e) => EditOutcome::Rejected(e),
            Ok(_) => EditOutcome::Saved,
        },
    }
}

/// The records after `update_from_action`: where the answer is `Saved`, the
/// record of the monitor carries what the submission describes and the
/// pointer it had; in every other case nothing has changed.
pub open spec fn records_after_update(
    records: Seq<StoredMonitorView>,
    action: UpdateMonitorAction,
    monitor_id: Id,
    model_id: Id,
    model_type: AlertModelType,
) -> Seq<StoredMonitorView> {
    if update_answer(records, action, monitor_id, model_id, model_type) is Saved {
        replaced_at(
            records,
            monitor_id,
            described(action, rule_of(action, model_type)->Ok_0, monitor_id, model_id),
        )
    } else {
        records
    }
}

/// What `apply_action` answers: a deletion is always carried out, an update
/// is answered as `update_from_action` answers it.
pub open spec fn action_answer(
    records: Seq<StoredMonitorView>,
    action: Action,
    monitor_id: Id,
    model_id: Id,
    model_type: AlertModelType,
) -> EditOutcome {
    match action {
        Action::Delete => EditOutcome::Deleted,
        Action::UpdateMonitor(update) => update_answer(
            records,
            update,
            monitor_id,
            model_id,
            model_type,
        ),
    }
}

/// The records after `apply_action`: without the monitor after a deletion,
/// and as `update_from_action` leaves them after an update.
pub open spec fn records_after_action(
    records: Seq<StoredMonitorView>,
    action: Action,
    monitor_id: Id,
    model_id: Id,
    model_type: AlertModelType,
) -> Seq<StoredMonitorView> {
    match action {
        Action::Delete => without_id(records, monitor_id),
        Action::UpdateMonitor(update) => records_after_update(
            records,
            update,
            monitor_id,
            model_id,
            model_type,
        ),
    }
}

/// What `create_from_action` answers for a monitor that is created at
/// `created_at`.
pub open spec fn create_answer(
    records: Seq<StoredMonitorView>,
    action: UpdateMonitorAction,
    id: Id,
    model_id: Id,
    model_type: AlertModelType,
    created_at: i64,
) -> Result<Id, MonitorError> {
    match rule_of(action, model_type) {
        Err(e) => Err(MonitorError::Validation(e)),
        Ok(rule) => match boundary_at(rule.0, created_at as int) {
            None => Err(MonitorError::Store),
            Some(_) => create_outcome(records, described(action, rule, id, model_id)),
        },
    }
}

/// The message that the form shows for an error.
pub fn error_message(error: MonitorError) -> (r: &'static str)
    ensures
        r@ == message_of(error),
{
    match error {
        MonitorError::Validation(ValidationError::MissingBounds) => {
            "Must provide at least one threshold bound."
        },
        MonitorError::Duplicate => "Identical monitor already exists.",
        _ => "There was an error editing your monitor.",
    }
}

impl EditOutcome {
    /// The status of the answer.
    pub fn status(&self) -> (r: u16)
        ensures
            r == status_of(*self),
    {
        match self {
            EditOutcome::Rejected(_) => 400,
            _ => 303,
        }
    }
}

/// The place of the list of monitors of a model.
pub fn monitors_location(repo_id: Id, model_id: Id) -> (r: String)
    ensures
        r@ == "/repos/"@ + id_text(repo_id) + "/models/"@ + id_text(model_id) + "/monitors/"@,
{
    let mut out: String = "/repos/".to_owned();
    out.append(repo_id.to_text().as_str());
    out.append("/models/");
    out.append(model_id.to_text().as_str());
    out.append("/monitors/");
    out
}

/// The repository, model and monitor that the path of an edit request
/// names: `repos/<repo>/models/<model>/monitors/<monitor>/edit`.
pub open spec fn route_of(components: Seq<&str>) -> Option<(Seq<char>, Seq<char>, Seq<char>)> {
    if components.len() == 7 && components[0]@ == "repos"@ && components[2]@ == "models"@
        && components[4]@ == "monitors"@ && components[6]@ == "edit"@ {
        Some((components[1]@, components[3]@, components[5]@))
    } else {
        None
    }
}

/// Reads repository, model and monitor off the components of the path of an
/// edit request. `None` for any other path.
pub fn edit_route<'a>(components: &Vec<&'a str>) -> (r: Option<(&'a str, &'a str, &'a str)>)
    ensures
        match (route_of(components@), r) {
            (Some((repo, model, monitor)), Some((a, b, c))) => a@ == repo && b@ == model && c@
                == monitor,
            (None, None) => true,
            _ => false,
        },
{
    if components.len() == 7 && same_text(components[0], "repos") && same_text(
        components[2],
        "models",
    ) && same_text(components[4], "monitors") && same_text(components[6], "edit") {
        Some((components[1], components[3], components[5]))
    } else {
        None
    }
}

/// Replaces the configuration of the monitor `monitor_id` of the model
/// `model_id` by what the submission describes.
///
/// The submission is validated first; a valid one is handed to the store.
/// The store is unchanged unless the answer is `Saved`.
pub fn update_from_action(
    store: &mut MonitorStore,
    action: UpdateMonitorAction,
    monitor_id: Id,
    model_id: Id,
    model_type: AlertModelType,
) -> (r: EditOutcome)
    requires
        old(store).well_formed(),
    ensures
        final(store).well_formed(),
        r == update_answer(old(store)@, action, monitor_id, model_id, model_type),
        final(store)@ == records_after_update(
            old(store)@,
            action,
            monitor_id,
            model_id,
            model_type,
        ),
{
    let monitor = match monitor_from_action(action, monitor_id, model_id, model_type) {
        Ok(monitor) => monitor,
        Err(e) => {
            return EditOutcome::Rejected(MonitorError::Validation(e));
        },
    };
    assert(with_id(monitor@, monitor_id) == monitor@);
    match store.update(monitor_id, monitor) {
        Ok(_) => EditOutcome::Saved,
        Err(e) => EditOutcome::Rejected(e),
    }
}

/// Creates the monitor that the submission describes for the model
/// `model_id`, under the identifier `id`, at the time `created_at`. Its first
/// window begins at the latest boundary of its cadence before that time.
///
/// The store is unchanged unless the answer is `Ok`.
pub fn create_from_action(
    store: &mut MonitorStore,
    action: UpdateMonitorAction,
    id: Id,
    model_id: Id,
    model_type: AlertModelType,
    created_at: i64,
) -> (r: Result<Id, MonitorError>)
    requires
        old(store).well_formed(),
    ensures
        final(store).well_formed(),
        r == create_answer(old(store)@, action, id, model_id, model_type, created_at),
        r is Err ==> final(store)@ == old(store)@,
        r is Ok ==> final(store)@ == old(store)@.push(
            StoredMonitorView {
                monitor: described(action, rule_of(action, model_type)->Ok_0, id, model_id),
                last_evaluated_window_end: boundary_at(
                    rule_of(action, model_type)->Ok_0.0,
                    created_at as int,
                )->0 as i64,
            },
        ),
{
    let monitor = match monitor_from_action(action, id, model_id, model_type) {
        Ok(monitor) => monitor,
        Err(e) => {
            return Err(MonitorError::Validation(e));
        },
    };
    let window_end = match initial_window_end(monitor.cadence, created_at) {
        Some(at) => at,
        None => {
            return Err(MonitorError::Store);
        },
    };
    store.create(monitor, window_end)
}

/// Carries out a submission on the monitor `monitor_id` of the model
/// `model_id`: replaces its configuration, or deletes it.
///
/// After `Saved` the record of the monitor carries what the submission
/// describes, with the pointer it had; after `Deleted` the monitor is gone;
/// after `Rejected` the store is as it was.
pub fn apply_action(
    store: &mut MonitorStore,
    action: Action,
    monitor_id: Id,
    model_id: Id,
    model_type: AlertModelType,
) -> (r: EditOutcome)
    requires
        old(store).well_formed(),
    ensures
        final(store).well_formed(),
        r == action_answer(old(store)@, action, monitor_id, model_id, model_type),
        final(store)@ == records_after_action(
            old(store)@,
            action,
            monitor_id,
            model_id,
            model_type,
        ),
{
    match action {
        Action::Delete => {
            let _ = store.delete(monitor_id);
            EditOutcome::Deleted
        },
        Action::UpdateMonitor(update) => update_from_action(
            store,
            update,
            monitor_id,
            model_id,
            model_type,
        ),
    }
}

} // verus!
