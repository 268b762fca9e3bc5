//! Drift monitoring for models in production.
//!
//! A monitor names a metric, a cadence and a threshold. On each tick the
//! scheduler decides which evaluation window is due, the threshold evaluator
//! compares the metric of that window with the value recorded at training
//! time, and the dispatcher walks the notification channels of a monitor that
//! was breached.
//!
//! Metric values and variances are fixed-point numbers: an `i64` counts
//! millionths, so `1_000_000` stands for one whole and `-150_000` for -0.15.

pub mod calendar;
pub mod content;
pub mod convert;
pub mod decimal;
pub mod dispatch;
pub mod edit;
pub mod evaluation;
pub mod id;
pub mod lease;
pub mod metric;
pub mod monitor;
pub mod predictions;
pub mod ranking;
pub mod schedule;
pub mod store;
pub mod text;
pub mod threshold;
pub mod training;
