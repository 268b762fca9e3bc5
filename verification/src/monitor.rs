//! Monitor configurations: the rule, its name, its notification channels, and
//! the names under which a form submits cadence, metric and mode.

use vstd::prelude::*;
use crate::text::{joined, same_text};
use crate::threshold::{AlertMetric, AlertModelType, MonitorThreshold, MonitorThresholdMode};

verus! {

/// An opaque identifier of a model or a monitor.
#[derive(Clone, Copy, Debug, PartialEq, Eq, Structural, Hash)]
pub struct Id(pub u128);

/// The size of the window over which a monitor evaluates its metric.
#[derive(Clone, Copy, Debug, PartialEq, Eq, Structural, Hash)]
pub enum AlertCadence {
    Hourly,
    Daily,
    Weekly,
    Monthly,
}

/// A channel on which a breach is announced.
#[derive(Clone, Debug, PartialEq, Eq, Hash)]
pub enum AlertMethod {
    Stdout,
    Email(String),
    Webhook(String),
}

/// The mathematical value of an [`AlertMethod`].
pub enum AlertMethodView {
    Stdout,
    Email(Seq<char>),
    Webhook(Seq<char>),
}

impl View for AlertMethod {
    type V = AlertMethodView;

    open spec fn view(&self) -> AlertMethodView {
        match self {
            AlertMethod::Stdout => AlertMethodView::Stdout,
            AlertMethod::Email(address) => AlertMethodView::Email(address@),
            AlertMethod::Webhook(url) => AlertMethodView::Webhook(url@),
        }
    }
}

/// A named drift-detection rule on one model.
#[derive(Clone, Debug, PartialEq, Eq, Hash)]
pub struct Monitor {
    pub cadence: AlertCadence,
    pub id: Id,
    pub methods: Vec<AlertMethod>,
    pub model_id: Id,
    pub threshold: MonitorThreshold,
    pub title: String,
}

/// The mathematical value of a [`Monitor`].
pub struct MonitorView {
    pub cadence: AlertCadence,
    pub id: Id,
    pub methods: Seq<AlertMethodView>,
    pub model_id: Id,
    pub threshold: MonitorThreshold,
    pub title: Seq<char>,
}

impl View for Monitor {
    type V = MonitorView;

    open spec fn view(&self) -> MonitorView {
        MonitorView {
            cadence: self.cadence,
            id: self.id,
            methods: Seq::new(self.methods@.len(), |i: int| self.methods@[i]@),
            model_id: self.model_id,
            threshold: self.threshold,
            title: self.title@,
        }
    }
}

/// The reason for which a configuration is turned down.
#[derive(Clone, Copy, Debug, PartialEq, Eq, Structural, Hash)]
pub enum ValidationError {
    /// Neither a lower nor an upper bound was given.
    MissingBounds,
    /// The cadence is none of the known names.
    UnknownCadence,
    /// The metric is none of the known names.
    UnknownMetric,
    /// The mode is none of the known names.
    UnknownMode,
    /// A bound is not a decimal number that fits the fixed-point range.
    MalformedBound,
    /// The metric is not defined for the model's task.
    MetricNotAllowed,
}

/// The cadence that a name stands for.
pub open spec fn cadence_named(name: Seq<char>) -> Option<AlertCadence> {
    if name == "hourly"@ {
        Some(AlertCadence::Hourly)
    } else if name == "daily"@ {
        Some(AlertCadence::Daily)
    } else if name == "weekly"@ {
        Some(AlertCadence::Weekly)
    } else if name == "monthly"@ {
        Some(AlertCadence::Monthly)
    } else {
        None
    }
}

/// The metric that a name stands for.
pub open spec fn metric_named(name: Seq<char>) -> Option<AlertMetric> {
    if name == "accuracy"@ {
        Some(AlertMetric::Accuracy)
    } else if name == "auc_roc"@ {
        Some(AlertMetric::AucRoc)
    } else if name == "precision"@ {
        Some(AlertMetric::Precision)
    } else if name == "recall"@ {
        Some(AlertMetric::Recall)
    } else if name == "f1"@ {
        Some(AlertMetric::F1)
    } else if name == "mse"@ {
        Some(AlertMetric::MeanSquaredError)
    } else if name == "rmse"@ {
        Some(AlertMetric::RootMeanSquaredError)
    } else {
        None
    }
}

/// The mode that a name stands for.
pub open spec fn mode_named(name: Seq<char>) -> Option<MonitorThresholdMode> {
    if name == "absolute"@ {
        Some(MonitorThresholdMode::Absolute)
    } else if name == "percentage"@ {
        Some(MonitorThresholdMode::Percentage)
    } else {
        None
    }
}

/// The word for a cadence in a title.
pub open spec fn cadence_title(cadence: AlertCadence) -> Seq<char> {
    match cadence {
        AlertCadence::Hourly => "Hourly"@,
        AlertCadence::Daily => "Daily"@,
        AlertCadence::Weekly => "Weekly"@,
        AlertCadence::Monthly => "Monthly"@,
    }
}

/// The words for a metric in a title.
pub open spec fn metric_title(metric: AlertMetric) -> Seq<char> {
    match metric {
        AlertMetric::Accuracy => "Accuracy"@,
        AlertMetric::AucRoc => "AUC ROC"@,
        AlertMetric::Precision => "Precision"@,
        AlertMetric::Recall => "Recall"@,
        AlertMetric::F1 => "F1"@,
        AlertMetric::MeanSquaredError => "Mean Squared Error"@,
        AlertMetric::RootMeanSquaredError => "Root Mean Squared Error"@,
    }
}

/// The title of a monitor that was given none: cadence, metric, "Monitor".
pub open spec fn default_title_of(cadence: AlertCadence, metric: AlertMetric) -> Seq<char> {
    cadence_title(cadence) + " "@ + metric_title(metric) + " Monitor"@
}

/// The metrics that are defined for a model's task.
pub open spec fn metric_allowed(model_type: AlertModelType, metric: AlertMetric) -> bool {
    match model_type {
        AlertModelType::Regressor => metric == AlertMetric::MeanSquaredError || metric
            == AlertMetric::RootMeanSquaredError,
        AlertModelType::BinaryClassifier => metric == AlertMetric::Accuracy || metric
            == AlertMetric::AucRoc || metric == AlertMetric::Precision || metric
            == AlertMetric::Recall || metric == AlertMetric::F1,
        AlertModelType::MulticlassClassifier => metric == AlertMetric::Accuracy,
    }
}

impl AlertCadence {
    /// Reads a cadence from the name that a form submits.
    pub fn from_str(name: &str) -> (r: Result<AlertCadence, ValidationError>)
        ensures
            match cadence_named(name@) {
                Some(cadence) => r == Ok::<AlertCadence, ValidationError>(cadence),
                None => r == Err::<AlertCadence, ValidationError>(ValidationError::UnknownCadence),
            },
    {
        if same_text(name, "hourly") {
            Ok(AlertCadence::Hourly)
        } else if same_text(name, "daily") {
            Ok(AlertCadence::Daily)
        } else if same_text(name, "weekly") {
            Ok(AlertCadence::Weekly)
        } else if same_text(name, "monthly") {
            Ok(AlertCadence::Monthly)
        } else {
            Err(ValidationError::UnknownCadence)
        }
    }

    /// The word for this cadence in a title.
    pub fn title(&self) -> (r: &'static str)
        ensures
            r@ == cadence_title(*self),
    {
        match self {
            AlertCadence::Hourly => "Hourly",
            AlertCadence::Daily => "Daily",
            AlertCadence::Weekly => "Weekly",
            AlertCadence::Monthly => "Monthly",
        }
    }
}

impl AlertMetric {
    /// Reads a metric from the name that a form submits.
    pub fn from_str(name: &str) -> (r: Result<AlertMetric, ValidationError>)
        ensures
            match metric_named(name@) {
                Some(metric) => r == Ok::<AlertMetric, ValidationError>(metric),
                None => r == Err::<AlertMetric, ValidationError>(ValidationError::UnknownMetric),
            },
    {
        if same_text(name, "accuracy") {
            Ok(AlertMetric::Accuracy)
        } else if same_text(name, "auc_roc") {
            Ok(AlertMetric::AucRoc)
        } else if same_text(name, "precision") {
            Ok(AlertMetric::Precision)
        } else if same_text(name, "recall") {
            Ok(AlertMetric::Recall)
        } else if same_text(name, "f1") {
            Ok(AlertMetric::F1)
        } else if same_text(name, "mse") {
            Ok(AlertMetric::MeanSquaredError)
        } else if same_text(name, "rmse") {
            Ok(AlertMetric::RootMeanSquaredError)
        } else {
            Err(ValidationError::UnknownMetric)
        }
    }

    /// The words for this metric in a title.
    pub fn title(&self) -> (r: &'static str)
        ensures
            r@ == metric_title(*self),
    {
        match self {
            AlertMetric::Accuracy => "Accuracy",
            AlertMetric::AucRoc => "AUC ROC",
            AlertMetric::Precision => "Precision",
            AlertMetric::Recall => "Recall",
            AlertMetric::F1 => "F1",
            AlertMetric::MeanSquaredError => "Mean Squared Error",
            AlertMetric::RootMeanSquaredError => "Root Mean Squared Error",
        }
    }

    /// Whether this metric is defined for models of the given task.
    pub fn allowed_for(&self, model_type: AlertModelType) -> (r: bool)
        ensures
            r == metric_allowed(model_type, *self),
    {
        match model_type {
            AlertModelType::Regressor => matches!(
                self,
                AlertMetric::MeanSquaredError | AlertMetric::RootMeanSquaredError
            ),
            AlertModelType::BinaryClassifier => matches!(
                self,
                AlertMetric::Accuracy | AlertMetric::AucRoc | AlertMetric::Precision
                    | AlertMetric::Recall | AlertMetric::F1
            ),
            AlertModelType::MulticlassClassifier => matches!(self, AlertMetric::Accuracy),
        }
    }
}

impl MonitorThresholdMode {
    /// Reads a mode from the name that a form submits.
    pub fn from_str(name: &str) -> (r: Result<MonitorThresholdMode, ValidationError>)
        ensures
            match mode_named(name@) {
                Some(mode) => r == Ok::<MonitorThresholdMode, ValidationError>(mode),
                None => r == Err::<MonitorThresholdMode, ValidationError>(
                    ValidationError::UnknownMode,
                ),
            },
    {
        if same_text(name, "absolute") {
            Ok(MonitorThresholdMode::Absolute)
        } else if same_text(name, "percentage") {
            Ok(MonitorThresholdMode::Percentage)
        } else {
            Err(ValidationError::UnknownMode)
        }
    }
}

impl Monitor {
    /// The title that this monitor gets when none was submitted, such as
    /// "Daily Accuracy Monitor".
    pub fn default_title(&self) -> (r: String)
        ensures
            r@ == default_title_of(self.cadence, self.threshold.metric),
    {
        let head = joined(self.cadence.title(), " ");
        let body = joined(head.as_str(), self.threshold.metric.title());
        joined(body.as_str(), " Monitor")
    }
}

} // verus!
