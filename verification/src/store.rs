//! The monitor record store: the monitors of all models, each with the end
//! of the last window that was evaluated for it.

use vstd::prelude::*;
use crate::monitor::{Id, Monitor, MonitorView, ValidationError};
use crate::threshold::MonitorThreshold;

verus! {

/// Why the store turned a request down.
#[derive(Clone, Copy, Debug, PartialEq, Eq, Structural, Hash)]
pub enum MonitorError {
    /// The configuration is malformed or incomplete.
    Validation(ValidationError),
    /// An equivalent monitor exists for the same model under another id.
    Duplicate,
    /// The store cannot apply the request; nothing was changed.
    Store,
}

/// A monitor as the store keeps it.
#[derive(Clone, Debug, PartialEq, Eq)]
pub struct StoredMonitor {
    pub monitor: Monitor,
    pub last_evaluated_window_end: i64,
}

/// The mathematical value of a [`StoredMonitor`].
pub struct StoredMonitorView {
    pub monitor: MonitorView,
    pub last_evaluated_window_end: i64,
}

impl View for StoredMonitor {
    type V = StoredMonitorView;

    open spec fn view(&self) -> StoredMonitorView {
        StoredMonitorView {
            monitor: self.monitor@,
            last_evaluated_window_end: self.last_evaluated_window_end,
        }
    }
}

/// At least one of the two bounds is present.
pub open spec fn has_bound(threshold: MonitorThreshold) -> bool {
    threshold.variance_lower is Some || threshold.variance_upper is Some
}

/// Two monitors are the same rule: model, cadence, metric, mode and both
/// bounds agree. Title and channels do not count.
pub open spec fn same_rule(a: MonitorView, b: MonitorView) -> bool {
    a.model_id == b.model_id && a.cadence == b.cadence && a.threshold == b.threshold
}

/// Some record carries the identifier.
pub open spec fn holds_id(records: Seq<StoredMonitorView>, id: Id) -> bool {
    exists|i: int| 0 <= i < records.len() && (#[trigger] records[i]).monitor.id == id
}

/// Whether `kept` stands in the way of `monitor`: it is the same rule, and it
/// is not the record `except`, which the request is about to replace.
pub open spec fn conflicts(kept: MonitorView, monitor: MonitorView, except: Option<Id>) -> bool {
    same_rule(kept, monitor) && (except is None || kept.id != except->0)
}

/// Some record stands in the way of `monitor`.
pub open spec fn holds_duplicate(
    records: Seq<StoredMonitorView>,
    monitor: MonitorView,
    except: Option<Id>,
) -> bool {
    exists|i: int|
        0 <= i < records.len() && conflicts((#[trigger] records[i]).monitor, monitor, except)
}

/// The records of a store: identifiers are unique, every threshold has a
/// bound, and no rule is kept twice.
pub open spec fn consistent(records: Seq<StoredMonitorView>) -> bool {
    &&& forall|i: int| 0 <= i < records.len() ==> has_bound((#[trigger] records[i]).monitor.threshold)
    &&& forall|i: int, j: int|
        0 <= i < j < records.len() ==> (#[trigger] records[i]).monitor.id != (
        #[trigger] records[j]).monitor.id
    &&& forall|i: int, j: int|
        0 <= i < j < records.len() ==> !same_rule(
            (#[trigger] records[i]).monitor,
            (#[trigger] records[j]).monitor,
        )
}

/// What `create` answers: the configuration is validated first, then held
/// against the rules that are kept, then against the identifiers in use.
pub open spec fn create_outcome(records: Seq<StoredMonitorView>, monitor: MonitorView) -> Result<
    Id,
    MonitorError,
> {
    if !has_bound(monitor.threshold) {
        Err(MonitorError::Validation(ValidationError::MissingBounds))
    } else if holds_duplicate(records, monitor, None) {
        Err(MonitorError::Duplicate)
    } else if holds_id(records, monitor.id) {
        Err(MonitorError::Store)
    } else {
        Ok(monitor.id)
    }
}

/// What `update` answers for the record `id` and its new configuration.
pub open spec fn update_outcome(
    records: Seq<StoredMonitorView>,
    id: Id,
    monitor: MonitorView,
) -> Result<(), MonitorError> {
    if !has_bound(monitor.threshold) {
        Err(MonitorError::Validation(ValidationError::MissingBounds))
    } else if holds_duplicate(records, monitor, Some(id)) {
        Err(MonitorError::Duplicate)
    } else if !holds_id(records, id) {
        Err(MonitorError::Store)
    } else {
        Ok(())
    }
}

/// The configuration `monitor` under the identifier `id`.
pub open spec fn with_id(monitor: MonitorView, id: Id) -> MonitorView {
    MonitorView { id, ..monitor }
}

/// The records after the configuration of the monitor `id` was replaced by
/// `monitor`: its record carries the new configuration and the pointer it
/// had; every other record stays. Without such a monitor nothing changes.
pub open spec fn replaced_at(records: Seq<StoredMonitorView>, id: Id, monitor: MonitorView) -> Seq<
    StoredMonitorView,
> {
    Seq::new(
        records.len(),
        |i: int|
            if records[i].monitor.id == id {
                StoredMonitorView {
                    monitor,
                    last_evaluated_window_end: records[i].last_evaluated_window_end,
                }
            } else {
                records[i]
            },
    )
}

/// The records without the monitor `id`.
pub open spec fn without_id(records: Seq<StoredMonitorView>, id: Id) -> Seq<StoredMonitorView> {
    records.filter(|kept: StoredMonitorView| kept.monitor.id != id)
}

/// The records after `window_end` was recorded for the monitor `id`: its
/// pointer moves, everything else stays. Without such a monitor nothing
/// changes.
pub open spec fn recorded_at(records: Seq<StoredMonitorView>, id: Id, window_end: i64) -> Seq<
    StoredMonitorView,
> {
    Seq::new(
        records.len(),
        |i: int|
            if records[i].monitor.id == id {
                StoredMonitorView { last_evaluated_window_end: window_end, ..records[i] }
            } else {
                records[i]
            },
    )
}

/// Whether a record is listed for `model`: every record where no model is
/// named, else the records of that model.
pub open spec fn listed(kept: StoredMonitorView, model: Option<Id>) -> bool {
    model is None || kept.monitor.model_id == model->0
}

/// The identifiers of the monitors that are listed for `model`, in the
/// order in which they are kept.
pub open spec fn active_ids(records: Seq<StoredMonitorView>, model: Option<Id>) -> Seq<Id> {
    records.filter(|kept: StoredMonitorView| listed(kept, model)).map_values(
        |kept: StoredMonitorView| kept.monitor.id,
    )
}

/// The monitors of all models.
pub struct MonitorStore {
    records: Vec<StoredMonitor>,
}

impl View for MonitorStore {
    type V = Seq<StoredMonitorView>;

    closed spec fn view(&self) -> Seq<StoredMonitorView> {
        Seq::new(self.records@.len(), |i: int| self.records@[i]@)
    }
}

impl MonitorStore {
    /// The invariant of the store.
    pub open spec fn well_formed(&self) -> bool {
        consistent(self@)
    }

    /// A store without monitors.
    pub fn new() -> (store: MonitorStore)
        ensures
            store@ == Seq::<StoredMonitorView>::empty(),
            store.well_formed(),
    {
        let store = MonitorStore { records: Vec::new() };
        assert(store@ =~= Seq::<StoredMonitorView>::empty());
        store
    }

    /// The number of monitors.
    pub fn len(&self) -> (n: usize)
        ensures
            n == self@.len(),
    {
        self.records.len()
    }

    /// The index of the record with the identifier `id`.
    fn position(&self, id: Id) -> (r: Option<usize>)
        ensures
            match r {
                Some(i) => i < self@.len() && self@[i as int].monitor.id == id,
                None => !holds_id(self@, id),
            },
    {
        let mut i: usize = 0;
        while i < self.records.len()
            invariant
                i <= self.records@.len(),
                forall|j: int| 0 <= j < i ==> (#[trigger] self@[j]).monitor.id != id,
            decreases self.records@.len() - i,
        {
            if self.records[i].monitor.id == id {
                return Some(i);
            }
            i = i + 1;
        }
        None
    }

    /// Whether a record is the same rule as `monitor`. The record `except`,
    /// where one is named, is left out of the search.
    pub fn check_for_duplicate_monitor(&self, monitor: &Monitor, except: Option<Id>) -> (r: bool)
        ensures
            r == holds_duplicate(self@, monitor@, except),
    {
        let mut i: usize = 0;
        while i < self.records.len()
            invariant
                i <= self.records@.len(),
                forall|j: int|
                    0 <= j < i ==> !conflicts((#[trigger] self@[j]).monitor, monitor@, except),
            decreases self.records@.len() - i,
        {
            let kept = &self.records[i].monitor;
            let excepted = match except {
                Some(id) => kept.id == id,
                None => false,
            };
            if !excepted && kept.model_id == monitor.model_id && kept.cadence == monitor.cadence
                && kept.threshold == monitor.threshold {
                assert(self@[i as int].monitor == kept@);
                return true;
            }
            i = i + 1;
        }
        false
    }

    /// The record with the identifier `id`.
    pub fn get(&self, id: Id) -> (r: Option<&StoredMonitor>)
        ensures
            r is Some <==> holds_id(self@, id),
            r is Some ==> r->0@.monitor.id == id && exists|i: int|
                0 <= i < self@.len() && self@[i] == r->0@,
    {
        match self.position(id) {
            Some(i) => {
                assert(self@[i as int] == self.records@[i as int]@);
                Some(&self.records[i])
            },
            None => None,
        }
    }

    /// The identifiers of the monitors of one model, or of all models where
    /// none is named, in the order in which they were created.
    pub fn list_active(&self, model_id: Option<Id>) -> (ids: Vec<Id>)
        ensures
            ids@ == active_ids(self@, model_id),
    {
        let ghost wanted = |kept: StoredMonitorView| listed(kept, model_id);
        let ghost id_of = |kept: StoredMonitorView| kept.monitor.id;
        let mut ids: Vec<Id> = Vec::new();
        let mut i: usize = 0;
        assert(self@.take(0).filter(wanted) =~= Seq::<StoredMonitorView>::empty()) by {
            reveal(Seq::filter);
        }
        assert(ids@ =~= self@.take(0).filter(wanted).map_values(id_of));
        while i < self.records.len()
            invariant
                i <= self.records@.len(),
                wanted == |kept: StoredMonitorView| listed(kept, model_id),
                id_of == |kept: StoredMonitorView| kept.monitor.id,
                ids@ == self@.take(i as int).filter(wanted).map_values(id_of),
            decreases self.records@.len() - i,
        {
            let kept = &self.records[i];
            let take = match model_id {
                None => true,
                Some(model) => kept.monitor.model_id == model,
            };
            proof {
                reveal(Seq::filter);
                assert(self@.take(i + 1).drop_last() =~= self@.take(i as int));
                assert(self@.take(i + 1).last() == self@[i as int]);
                assert(self@[i as int] == kept@);
                let before = self@.take(i as int).filter(wanted);
                if take {
                    assert(self@.take(i + 1).filter(wanted) == before.push(kept@));
                    assert(before.push(kept@).map_values(id_of) =~= before.map_values(id_of).push(
                        kept@.monitor.id,
                    ));
                } else {
                    assert(self@.take(i + 1).filter(wanted) == before);
                }
            }
            if take {
                ids.push(kept.monitor.id);
            }
            i = i + 1;
        }
        assert(self@.take(i as int) =~= self@);
        ids
    }

    /// Keeps a new monitor under the identifier it carries, with
    /// `window_end` as the end of its last evaluated window.
    ///
    /// The store is unchanged where the request is turned down.
    pub fn create(&mut self, monitor: Monitor, window_end: i64) -> (r: Result<Id, MonitorError>)
        requires
            old(self).well_formed(),
        ensures
            final(self).well_formed(),
            r == create_outcome(old(self)@, monitor@),
            r is Ok ==> final(self)@ == old(self)@.push(
                StoredMonitorView { monitor: monitor@, last_evaluated_window_end: window_end },
            ),
            r is Err ==> final(self)@ == old(self)@,
    {
        if monitor.threshold.variance_lower.is_none() && monitor.threshold.variance_upper.is_none() {
            return Err(MonitorError::Validation(ValidationError::MissingBounds));
        }
        let id = monitor.id;
        if self.check_for_duplicate_monitor(&monitor, None) {
            return Err(MonitorError::Duplicate);
        }
        if self.position(id).is_some() {
            return Err(MonitorError::Store);
        }
        let ghost before = self@;
        let ghost added = StoredMonitorView {
            monitor: monitor@,
            last_evaluated_window_end: window_end,
        };
        self.records.push(StoredMonitor { monitor, last_evaluated_window_end: window_end });
        assert(self@ =~= before.push(added));
        assert(consistent(self@)) by {
            let now = self@;
            assert forall|i: int, j: int| 0 <= i < j < now.len() implies (#[trigger] now[i]).monitor.id
                != (#[trigger] now[j]).monitor.id && !same_rule(now[i].monitor, now[j].monitor) by {
                if j == before.len() {
                    assert(now[i] == before[i]);
                } else {
                    assert(now[i] == before[i] && now[j] == before[j]);
                }
            }
            assert forall|i: int| 0 <= i < now.len() implies has_bound(
                (#[trigger] now[i]).monitor.threshold,
            ) by {
                if i < before.len() {
                    assert(now[i] == before[i]);
                }
            }
        }
        Ok(id)
    }

    /// Replaces the configuration of the monitor `id` by `monitor`, whole.
    /// The identifier and the end of the last evaluated window stay.
    ///
    /// The store is unchanged where the request is turned down.
    pub fn update(&mut self, id: Id, monitor: Monitor) -> (r: Result<(), MonitorError>)
        requires
            old(self).well_formed(),
        ensures
            final(self).well_formed(),
            r == update_outcome(old(self)@, id, monitor@),
            r is Err ==> final(self)@ == old(self)@,
            r is Ok ==> final(self)@ == replaced_at(old(self)@, id, with_id(monitor@, id)),
    {
        if monitor.threshold.variance_lower.is_none() && monitor.threshold.variance_upper.is_none() {
            return Err(MonitorError::Validation(ValidationError::MissingBounds));
        }
        if self.check_for_duplicate_monitor(&monitor, Some(id)) {
            return Err(MonitorError::Duplicate);
        }
        let at = match self.position(id) {
            Some(at) => at,
            None => {
                return Err(MonitorError::Store);
            },
        };
        let ghost before = self@;
        let ghost replaced = StoredMonitorView {
            monitor: with_id(monitor@, id),
            last_evaluated_window_end: before[at as int].last_evaluated_window_end,
        };
        let kept = self.records.remove(at);
        let mut monitor = monitor;
        monitor.id = id;
        self.records.insert(
            at,
            StoredMonitor { monitor, last_evaluated_window_end: kept.last_evaluated_window_end },
        );
        assert(self@ =~= before.update(at as int, replaced)) by {
            assert(kept@ == before[at as int]);
        }
        assert(consistent(self@)) by {
            let now = self@;
            assert forall|i: int, j: int| 0 <= i < j < now.len() implies (#[trigger] now[i]).monitor.id
                != (#[trigger] now[j]).monitor.id && !same_rule(now[i].monitor, now[j].monitor) by {
                assert(i != at ==> now[i] == before[i]);
                assert(j != at ==> now[j] == before[j]);
                assert(before[at as int].monitor.id == id);
            }
            assert forall|i: int| 0 <= i < now.len() implies has_bound(
                (#[trigger] now[i]).monitor.threshold,
            ) by {
                assert(i != at ==> now[i] == before[i]);
            }
        }
        assert(self@ =~= replaced_at(before, id, replaced.monitor)) by {
            assert forall|i: int| 0 <= i < before.len() && i != at implies before[i].monitor.id
                != id by {
                assert(before[i].monitor.id != before[at as int].monitor.id);
            }
        }
        Ok(())
    }

    /// Removes the monitor `id` together with the record of its last
    /// evaluated window. Removing a monitor that is not kept changes nothing.
    pub fn delete(&mut self, id: Id) -> (r: Result<(), MonitorError>)
        requires
            old(self).well_formed(),
        ensures
            final(self).well_formed(),
            r is Ok,
            !holds_id(final(self)@, id),
            final(self)@ == without_id(old(self)@, id),
    {
        let ghost before = self@;
        let ghost others = |kept: StoredMonitorView| kept.monitor.id != id;
        match self.position(id) {
            Some(at) => {
                self.records.remove(at);
                assert(self@ =~= before.remove(at as int));
                proof {
                    lemma_filter_removes_one(before, id, at as int);
                }
                assert(consistent(self@)) by {
                    let now = self@;
                    assert forall|i: int| 0 <= i < now.len() implies #[trigger] now[i] == before[if i
                        < at {
                        i
                    } else {
                        i + 1
                    }] by {}
                }
                assert(!holds_id(self@, id)) by {
                    let now = self@;
                    assert forall|i: int| 0 <= i < now.len() implies (#[trigger] now[i]).monitor.id
                        != id by {
                        if i < at {
                            assert(now[i] == before[i]);
                        } else {
                            assert(now[i] == before[i + 1]);
                        }
                    }
                }
            },
            None => {
                proof {
                    lemma_filter_keeps_all(before, id);
                }
            },
        }
        Ok(())
    }

    /// Records `window_end` as the end of the last evaluated window of the
    /// monitor `id`. Where the monitor is no longer kept, nothing is recorded
    /// and the answer is `false`.
    pub fn record_evaluation(&mut self, id: Id, window_end: i64) -> (recorded: bool)
        requires
            old(self).well_formed(),
        ensures
            final(self).well_formed(),
            recorded == holds_id(old(self)@, id),
            final(self)@ == recorded_at(old(self)@, id, window_end),
    {
        let at = match self.position(id) {
            Some(at) => at,
            None => {
                assert(self@ =~= recorded_at(self@, id, window_end));
                return false;
            },
        };
        let ghost before = self@;
        let mut kept = self.records.remove(at);
        kept.last_evaluated_window_end = window_end;
        assert(kept@.monitor == before[at as int].monitor);
        self.records.insert(at, kept);
        let ghost replaced = StoredMonitorView {
            last_evaluated_window_end: window_end,
            ..before[at as int]
        };
        assert(self@ =~= before.update(at as int, replaced));
        assert(consistent(self@)) by {
            let now = self@;
            assert forall|i: int| 0 <= i < now.len() implies (#[trigger] now[i]).monitor
                == before[i].monitor by {}
        }
        assert(self@ =~= recorded_at(before, id, window_end)) by {
            assert forall|i: int| 0 <= i < before.len() && i != at implies before[i].monitor.id
                != id by {
                assert(before[i].monitor.id != before[at as int].monitor.id);
            }
        }
        true
    }
}

/// Every monitor that a store keeps has at least one bound.
pub proof fn lemma_kept_monitors_have_bounds(store: &MonitorStore, i: int)
    requires
        store.well_formed(),
        0 <= i < store@.len(),
    ensures
        has_bound(store@[i].monitor.threshold),
{
}

/// A monitor that `create` or `update` accepts has at least one bound.
pub proof fn lemma_accepted_monitor_has_bound(
    records: Seq<StoredMonitorView>,
    id: Id,
    monitor: MonitorView,
)
    ensures
        create_outcome(records, monitor) is Ok ==> has_bound(monitor.threshold),
        update_outcome(records, id, monitor) is Ok ==> has_bound(monitor.threshold),
{
}

/// Once a monitor has been created, a second request for the same model,
/// cadence, metric, mode and bounds is turned down as a duplicate, whatever
/// its title and channels: a creation always, an update where it is aimed at
/// another monitor than the first.
pub proof fn lemma_second_request_is_duplicate(
    records: Seq<StoredMonitorView>,
    first: MonitorView,
    window_end: i64,
    second: MonitorView,
    id: Id,
)
    requires
        create_outcome(records, first) is Ok,
        same_rule(first, second),
    ensures
        create_outcome(
            records.push(StoredMonitorView { monitor: first, last_evaluated_window_end: window_end }),
            second,
        ) == Err::<Id, MonitorError>(MonitorError::Duplicate),
        id != first.id ==> update_outcome(
            records.push(StoredMonitorView { monitor: first, last_evaluated_window_end: window_end }),
            id,
            second,
        ) == Err::<(), MonitorError>(MonitorError::Duplicate),
{
    let after = records.push(
        StoredMonitorView { monitor: first, last_evaluated_window_end: window_end },
    );
    let at = records.len() as int;
    assert(conflicts(after[at].monitor, second, None));
    if id != first.id {
        assert(conflicts(after[at].monitor, second, Some(id)));
    }
}

/// Once a monitor has been deleted, recording an evaluation for it leaves
/// the store as the deletion left it: no record of that monitor appears.
pub proof fn lemma_deleted_monitor_gets_no_record(
    records: Seq<StoredMonitorView>,
    id: Id,
    window_end: i64,
)
    ensures
        ({
            let left = records.filter(|kept: StoredMonitorView| kept.monitor.id != id);
            recorded_at(left, id, window_end) == left && !holds_id(left, id)
        }),
{
    let others = |kept: StoredMonitorView| kept.monitor.id != id;
    let left = records.filter(others);
    assert forall|i: int| 0 <= i < left.len() implies (#[trigger] left[i]).monitor.id != id by {
        records.lemma_filter_pred(others, i);
    }
    assert(recorded_at(left, id, window_end) =~= left);
}

/// Filtering on the identifier drops exactly the one record that carries it.
proof fn lemma_filter_removes_one(records: Seq<StoredMonitorView>, id: Id, at: int)
    requires
        consistent(records),
        0 <= at < records.len(),
        records[at].monitor.id == id,
    ensures
        records.filter(|kept: StoredMonitorView| kept.monitor.id != id) == records.remove(at),
    decreases records.len(),
{
    let others = |kept: StoredMonitorView| kept.monitor.id != id;
    reveal(Seq::filter);
    let front = records.drop_last();
    let last = records.len() - 1;
    assert forall|i: int| 0 <= i < front.len() implies #[trigger] front[i] == records[i] by {}
    if at == last {
        lemma_filter_keeps_all(front, id);
        assert(records.remove(at) =~= front);
    } else {
        assert(records[last].monitor.id != records[at].monitor.id);
        lemma_filter_removes_one(front, id, at);
        assert(records.remove(at) =~= front.remove(at).push(records[last]));
    }
}

/// Filtering on an identifier that no record carries keeps every record.
proof fn lemma_filter_keeps_all(records: Seq<StoredMonitorView>, id: Id)
    requires
        forall|i: int| 0 <= i < records.len() ==> (#[trigger] records[i]).monitor.id != id,
    ensures
        records.filter(|kept: StoredMonitorView| kept.monitor.id != id) == records,
    decreases records.len(),
{
    reveal(Seq::filter);
    if records.len() > 0 {
        let front = records.drop_last();
        assert forall|i: int| 0 <= i < front.len() implies (#[trigger] front[i]).monitor.id
            != id by {
            assert(front[i] == records[i]);
        }
        lemma_filter_keeps_all(front, id);
        assert(records.last().monitor.id != id);
        assert(front.push(records.last()) =~= records);
    }
}

} // verus!
