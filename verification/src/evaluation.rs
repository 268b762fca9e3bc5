//! One tick for one monitor: from the window that is due and the metric read
//! over it to the outcome, and from the outcome to the store.

use vstd::prelude::*;
use crate::monitor::{AlertCadence, Id};
use crate::schedule::{
    due_at, due_window, lemma_due_window_bounds, retry_floor, retry_floor_of, Due,
};
use crate::metric::{compute_metric, metric_of, Sample};
use crate::store::{consistent, holds_id, recorded_at, MonitorStore, StoredMonitorView};
use crate::threshold::{evaluate, evaluation_of, Evaluation, MonitorThreshold};

verus! {

/// What the metric computer found in a window.
#[derive(Clone, Copy, Debug, PartialEq, Eq, Structural, Hash)]
pub enum Reading {
    /// The window holds no prediction that can be scored.
    NoData,
    /// The metric over the window, in fixed-point units.
    Value(i64),
}

/// What one tick did for one monitor.
#[derive(Clone, Copy, Debug, PartialEq, Eq, Structural, Hash)]
pub enum TickOutcome {
    /// No window boundary has been crossed.
    NotDue,
    /// The calendar cannot place the time.
    OutOfRange,
    /// The window was due but held no data. `pointer` is where the end of the
    /// last evaluated window stands from now on.
    Skipped { start: i64, end: i64, pointer: i64 },
    /// The window was evaluated; the end of the last evaluated window moves
    /// to `end`.
    Evaluated { start: i64, end: i64, evaluation: Evaluation },
}

/// Where the pointer of a monitor stands after a window without data: where
/// it stood, unless it would then lie more than `horizon` windows behind
/// `end`; in that case at the boundary `horizon` windows before `end`.
pub open spec fn pointer_without_data(
    cadence: AlertCadence,
    last: i64,
    end: i64,
    horizon: Option<u32>,
) -> i64 {
    match horizon {
        None => last,
        Some(windows) => match retry_floor_of(cadence, end as int, windows as int) {
            Some(floor) => if floor > last {
                floor as i64
            } else {
                last
            },
            None => last,
        },
    }
}

/// The outcome of a tick.
pub open spec fn outcome_of(
    cadence: AlertCadence,
    last: i64,
    due: Due,
    reading: Reading,
    baseline: i64,
    threshold: MonitorThreshold,
    horizon: Option<u32>,
) -> TickOutcome {
    match due {
        Due::NotDue => TickOutcome::NotDue,
        Due::OutOfRange => TickOutcome::OutOfRange,
        Due::Window { start, end } => match reading {
            Reading::NoData => TickOutcome::Skipped {
                start,
                end,
                pointer: pointer_without_data(cadence, last, end, horizon),
            },
            Reading::Value(current) => TickOutcome::Evaluated {
                start,
                end,
                evaluation: evaluation_of(
                    threshold.mode,
                    threshold.variance_lower,
                    threshold.variance_upper,
                    current as int,
                    baseline as int,
                ),
            },
        },
    }
}

/// Where the end of the last evaluated window stands after a tick.
pub open spec fn pointer_after(last: i64, outcome: TickOutcome) -> i64 {
    match outcome {
        TickOutcome::Evaluated { end, .. } => end,
        TickOutcome::Skipped { pointer, .. } => pointer,
        _ => last,
    }
}

/// Whether a tick calls for an alert: only a breach does.
pub open spec fn calls_for_alert(outcome: TickOutcome) -> bool {
    outcome matches TickOutcome::Evaluated { evaluation, .. } && evaluation is Breach
}

impl TickOutcome {
    /// Where the end of the last evaluated window stands after this tick.
    pub fn pointer(&self, last: i64) -> (r: i64)
        ensures
            r == pointer_after(last, *self),
    {
        match self {
            TickOutcome::Evaluated { end, .. } => *end,
            TickOutcome::Skipped { pointer, .. } => *pointer,
            _ => last,
        }
    }

    /// Whether this tick calls for an alert.
    pub fn alerts(&self) -> (r: bool)
        ensures
            r == calls_for_alert(*self),
    {
        match self {
            TickOutcome::Evaluated { evaluation, .. } => matches!(
                evaluation,
                Evaluation::Breach { .. }
            ),
            _ => false,
        }
    }
}

/// Concludes a tick for a monitor of the given cadence whose last evaluated
/// window ended at `last`.
///
/// `due` is what the scheduler found, `reading` what the metric computer
/// found in the window that is due, `baseline` the metric at training time.
/// `horizon` bounds how many windows the pointer may lie behind while data
/// is missing; `None` leaves it unbounded.
pub fn conclude(
    cadence: AlertCadence,
    last: i64,
    due: Due,
    reading: Reading,
    baseline: i64,
    threshold: &MonitorThreshold,
    horizon: Option<u32>,
) -> (r: TickOutcome)
    ensures
        r == outcome_of(cadence, last, due, reading, baseline, *threshold, horizon),
{
    match due {
        Due::NotDue => TickOutcome::NotDue,
        Due::OutOfRange => TickOutcome::OutOfRange,
        Due::Window { start, end } => match reading {
            Reading::NoData => {
                let pointer = match horizon {
                    None => last,
                    Some(windows) => match retry_floor(cadence, end, windows) {
                        Some(floor) => if floor > last {
                            floor
                        } else {
                            last
                        },
                        None => last,
                    },
                };
                TickOutcome::Skipped { start, end, pointer }
            },
            Reading::Value(current) => TickOutcome::Evaluated {
                start,
                end,
                evaluation: evaluate(current, baseline, threshold),
            },
        },
    }
}

/// Writes the outcome of a tick for the monitor `id` to the store: the
/// pointer moves to where the outcome puts it. Where the monitor is no longer
/// kept, the outcome is dropped and the store stays as it is.
pub fn commit(store: &mut MonitorStore, id: Id, last: i64, outcome: &TickOutcome) -> (recorded:
    bool)
    requires
        old(store).well_formed(),
    ensures
        final(store).well_formed(),
        recorded == (holds_id(old(store)@, id) && pointer_after(last, *outcome) != last),
        final(store)@ == if pointer_after(last, *outcome) != last {
            recorded_at(old(store)@, id, pointer_after(last, *outcome))
        } else {
            old(store)@
        },
{
    let pointer = outcome.pointer(last);
    if pointer == last {
        return false;
    }
    store.record_evaluation(id, pointer)
}

/// The record of the monitor `id`.
pub open spec fn record_of(records: Seq<StoredMonitorView>, id: Id) -> StoredMonitorView
    recommends
        holds_id(records, id),
{
    records[choose|i: int| 0 <= i < records.len() && (#[trigger] records[i]).monitor.id == id]
}

/// What a tick finds in a window: the metric of the monitor over the
/// predictions of the window that is due, and no data where none is due.
pub open spec fn reading_of(kept: StoredMonitorView, due: Due, samples: Seq<Sample>) -> Reading {
    match due {
        Due::Window { start, end } => metric_of(kept.monitor.threshold.metric, samples, start, end),
        _ => Reading::NoData,
    }
}

/// What a tick at the time `now` does for the monitor `id`, given the
/// predictions of its model and the metric at training time; nothing where
/// the monitor is not kept.
pub open spec fn tick_of(
    records: Seq<StoredMonitorView>,
    id: Id,
    now: i64,
    samples: Seq<Sample>,
    baseline: i64,
    horizon: Option<u32>,
) -> Option<TickOutcome> {
    if !holds_id(records, id) {
        None
    } else {
        let kept = record_of(records, id);
        let last = kept.last_evaluated_window_end;
        let due = due_at(kept.monitor.cadence, last as int, now as int);
        Some(
            outcome_of(
                kept.monitor.cadence,
                last,
                due,
                reading_of(kept, due, samples),
                baseline,
                kept.monitor.threshold,
                horizon,
            ),
        )
    }
}

/// The records after a tick: the pointer of the monitor stands where the
/// outcome puts it, and nothing else has changed.
pub open spec fn records_after_tick(
    records: Seq<StoredMonitorView>,
    id: Id,
    outcome: Option<TickOutcome>,
) -> Seq<StoredMonitorView> {
    match outcome {
        Some(outcome) => recorded_at(
            records,
            id,
            pointer_after(record_of(records, id).last_evaluated_window_end, outcome),
        ),
        None => records,
    }
}

/// Among consistent records the one with a given identifier is the only one.
pub proof fn lemma_record_of(records: Seq<StoredMonitorView>, id: Id, i: int)
    requires
        consistent(records),
        0 <= i < records.len(),
        records[i].monitor.id == id,
    ensures
        holds_id(records, id),
        record_of(records, id) == records[i],
{
    let j = choose|j: int| 0 <= j < records.len() && (#[trigger] records[j]).monitor.id == id;
    if i < j {
        assert(records[i].monitor.id != records[j].monitor.id);
    } else if j < i {
        assert(records[j].monitor.id != records[i].monitor.id);
    }
}

/// Runs one tick for the monitor `id` at the time `now`: finds the window
/// that is due, computes the metric over the predictions `samples` of the
/// monitor's model that lie in it, holds it against `baseline`, and moves the
/// pointer of the monitor.
///
/// `None` where the monitor is not kept; the store is then unchanged.
pub fn tick_monitor(
    store: &mut MonitorStore,
    id: Id,
    now: i64,
    samples: &Vec<Sample>,
    baseline: i64,
    horizon: Option<u32>,
) -> (r: Option<TickOutcome>)
    requires
        old(store).well_formed(),
    ensures
        final(store).well_formed(),
        r == tick_of(old(store)@, id, now, samples@, baseline, horizon),
        final(store)@ == records_after_tick(old(store)@, id, r),
{
    let ghost before = store@;
    let (cadence, threshold, last) = match store.get(id) {
        Some(kept) => {
            proof {
                let i = choose|i: int| 0 <= i < before.len() && before[i] == kept@;
                lemma_record_of(before, id, i);
            }
            (kept.monitor.cadence, kept.monitor.threshold, kept.last_evaluated_window_end)
        },
        None => {
            return None;
        },
    };
    let due = due_window(cadence, last, now);
    let reading = match due {
        Due::Window { start, end } => compute_metric(threshold.metric, samples, start, end),
        _ => Reading::NoData,
    };
    let outcome = conclude(cadence, last, due, reading, baseline, &threshold, horizon);
    let _ = commit(store, id, last, &outcome);
    proof {
        if pointer_after(last, outcome) == last {
            assert(recorded_at(before, id, last) =~= before) by {
                assert forall|k: int| 0 <= k < before.len() && before[k].monitor.id
                    == id implies before[k].last_evaluated_window_end == last by {
                    lemma_record_of(before, id, k);
                }
            }
        }
    }
    Some(outcome)
}

/// A window without data is skipped: no alert, and with no horizon set the
/// pointer stays where it was, so the window is tried again.
pub proof fn lemma_no_data_keeps_pointer(
    cadence: AlertCadence,
    last: i64,
    due: Due,
    baseline: i64,
    threshold: MonitorThreshold,
)
    ensures
        pointer_after(
            last,
            outcome_of(cadence, last, due, Reading::NoData, baseline, threshold, None),
        ) == last,
        !calls_for_alert(
            outcome_of(cadence, last, due, Reading::NoData, baseline, threshold, None),
        ),
{
}

/// Under a fixed cadence a window without data leaves the pointer where it
/// was as long as the pointer lies within the horizon.
pub proof fn lemma_no_data_within_horizon(
    cadence: AlertCadence,
    last: i64,
    start: i64,
    end: i64,
    baseline: i64,
    threshold: MonitorThreshold,
    horizon: u32,
)
    requires
        crate::schedule::span_of(cadence) is Some,
        end - last <= horizon * crate::schedule::span_of(cadence)->0,
    ensures
        pointer_after(
            last,
            outcome_of(
                cadence,
                last,
                Due::Window { start, end },
                Reading::NoData,
                baseline,
                threshold,
                Some(horizon),
            ),
        ) == last,
{
}

/// A window with data is evaluated once and for all: the pointer moves to
/// its end, an indeterminate evaluation included, and an alert is called for
/// exactly where the evaluation is a breach.
pub proof fn lemma_value_moves_pointer(
    cadence: AlertCadence,
    last: i64,
    start: i64,
    end: i64,
    current: i64,
    baseline: i64,
    threshold: MonitorThreshold,
    horizon: Option<u32>,
)
    ensures
        ({
            let outcome = outcome_of(
                cadence,
                last,
                Due::Window { start, end },
                Reading::Value(current),
                baseline,
                threshold,
                horizon,
            );
            &&& pointer_after(last, outcome) == end
            &&& calls_for_alert(outcome) <==> evaluation_of(
                threshold.mode,
                threshold.variance_lower,
                threshold.variance_upper,
                current as int,
                baseline as int,
            ) is Breach
        }),
{
}

/// The pointer never moves back, and never past the end of the window that
/// was due.
pub proof fn lemma_pointer_moves_forward(
    cadence: AlertCadence,
    last: i64,
    now: i64,
    reading: Reading,
    baseline: i64,
    threshold: MonitorThreshold,
    horizon: Option<u32>,
)
    ensures
        ({
            let due = due_at(cadence, last as int, now as int);
            let outcome = outcome_of(cadence, last, due, reading, baseline, threshold, horizon);
            &&& last <= pointer_after(last, outcome)
            &&& due is Window && reading is Value ==> pointer_after(last, outcome) == due->end <= now
            &&& !(due is Window) ==> pointer_after(last, outcome) == last
        }),
{
    lemma_due_window_bounds(cadence, last, now);
}

} // verus!
