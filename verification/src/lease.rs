//! Evaluation leases: a worker evaluates a monitor only while it holds the
//! lease on it, so no monitor is evaluated by two workers at once.

use vstd::prelude::*;
use crate::monitor::Id;

verus! {

/// The right of one worker to evaluate one monitor, until a time.
#[derive(Clone, Copy, Debug, PartialEq, Eq, Structural, Hash)]
pub struct Lease {
    pub monitor: Id,
    pub holder: u64,
    pub expires_at: i64,
}

/// Some lease on the monitor has not expired at `now`.
pub open spec fn is_leased(held: Seq<Lease>, monitor: Id, now: i64) -> bool {
    exists|i: int|
        0 <= i < held.len() && (#[trigger] held[i]).monitor == monitor && now < held[i].expires_at
}

/// The worker holds a lease on the monitor, expired or not.
pub open spec fn holds(held: Seq<Lease>, monitor: Id, holder: u64) -> bool {
    exists|i: int|
        0 <= i < held.len() && (#[trigger] held[i]).monitor == monitor && held[i].holder == holder
}

/// No monitor has two leases.
pub open spec fn exclusive(held: Seq<Lease>) -> bool {
    forall|i: int, j: int|
        0 <= i < j < held.len() ==> (#[trigger] held[i]).monitor != (#[trigger] held[j]).monitor
}

/// The leases on all other monitors.
pub open spec fn without(held: Seq<Lease>, monitor: Id) -> Seq<Lease> {
    held.filter(|lease: Lease| lease.monitor != monitor)
}

/// The leases that workers hold.
pub struct Leases {
    held: Vec<Lease>,
}

impl View for Leases {
    type V = Seq<Lease>;

    closed spec fn view(&self) -> Seq<Lease> {
        self.held@
    }
}

/// Leaving out a monitor drops exactly its one lease.
proof fn lemma_without_one(held: Seq<Lease>, monitor: Id, at: int)
    requires
        exclusive(held),
        0 <= at < held.len(),
        held[at].monitor == monitor,
    ensures
        without(held, monitor) == held.remove(at),
    decreases held.len(),
{
    reveal(Seq::filter);
    let front = held.drop_last();
    let last = held.len() - 1;
    if at == last {
        lemma_without_none(front, monitor);
        assert(held.remove(at) =~= front);
    } else {
        assert(held[last].monitor != held[at].monitor);
        lemma_without_one(front, monitor, at);
        assert(held.remove(at) =~= front.remove(at).push(held[last]));
    }
}

/// Leaving out a monitor that has no lease changes nothing.
proof fn lemma_without_none(held: Seq<Lease>, monitor: Id)
    requires
        forall|i: int| 0 <= i < held.len() ==> (#[trigger] held[i]).monitor != monitor,
    ensures
        without(held, monitor) == held,
    decreases held.len(),
{
    reveal(Seq::filter);
    if held.len() > 0 {
        let front = held.drop_last();
        lemma_without_none(front, monitor);
        assert(front.push(held.last()) =~= held);
    }
}

impl Leases {
    /// The invariant: no monitor has two leases.
    pub open spec fn well_formed(&self) -> bool {
        exclusive(self@)
    }

    /// No leases.
    pub fn new() -> (leases: Leases)
        ensures
            leases@ == Seq::<Lease>::empty(),
            leases.well_formed(),
    {
        Leases { held: Vec::new() }
    }

    fn position(&self, monitor: Id) -> (r: Option<usize>)
        ensures
            match r {
                Some(at) => at < self@.len() && self@[at as int].monitor == monitor,
                None => forall|i: int|
                    0 <= i < self@.len() ==> (#[trigger] self@[i]).monitor != monitor,
            },
    {
        let mut i: usize = 0;
        while i < self.held.len()
            invariant
                i <= self.held@.len(),
                forall|j: int| 0 <= j < i ==> (#[trigger] self@[j]).monitor != monitor,
            decreases self.held@.len() - i,
        {
            if self.held[i].monitor == monitor {
                return Some(i);
            }
            i = i + 1;
        }
        None
    }

    /// Asks for the lease on `monitor` for the worker `holder`, at the time
    /// `now`, until `expires_at`.
    ///
    /// The lease is granted unless another one on the monitor has not
    /// expired. A lease that has expired is replaced.
    pub fn acquire(&mut self, monitor: Id, holder: u64, now: i64, expires_at: i64) -> (granted:
        bool)
        requires
            old(self).well_formed(),
        ensures
            final(self).well_formed(),
            granted == !is_leased(old(self)@, monitor, now),
            granted ==> final(self)@ == without(old(self)@, monitor).push(
                Lease { monitor, holder, expires_at },
            ),
            !granted ==> final(self)@ == old(self)@,
    {
        let ghost before = self@;
        match self.position(monitor) {
            Some(at) => {
                if now < self.held[at].expires_at {
                    return false;
                }
                assert(!is_leased(before, monitor, now)) by {
                    assert forall|i: int| 0 <= i < before.len() && (
                    #[trigger] before[i]).monitor == monitor implies !(now
                        < before[i].expires_at) by {
                        if i != at {
                            assert(before[i].monitor != before[at as int].monitor);
                        }
                    }
                }
                self.held.remove(at);
                proof {
                    lemma_without_one(before, monitor, at as int);
                    let after = self@;
                    assert forall|i: int, j: int| 0 <= i < j < after.len() implies (
                    #[trigger] after[i]).monitor != (#[trigger] after[j]).monitor by {
                        let a = if i < at {
                            i
                        } else {
                            i + 1
                        };
                        let b = if j < at {
                            j
                        } else {
                            j + 1
                        };
                        assert(after[i] == before[a] && after[j] == before[b]);
                    }
                }
            },
            None => {
                proof {
                    lemma_without_none(before, monitor);
                }
            },
        }
        let ghost others = self@;
        assert(others == without(before, monitor));
        assert forall|i: int| 0 <= i < others.len() implies (#[trigger] others[i]).monitor
            != monitor by {
            before.lemma_filter_pred(|lease: Lease| lease.monitor != monitor, i);
        }
        self.held.push(Lease { monitor, holder, expires_at });
        true
    }

    /// Gives the lease on `monitor` back where the worker `holder` holds it.
    /// A worker cannot give back the lease of another.
    pub fn release(&mut self, monitor: Id, holder: u64) -> (released: bool)
        requires
            old(self).well_formed(),
        ensures
            final(self).well_formed(),
            released == holds(old(self)@, monitor, holder),
            released ==> final(self)@ == without(old(self)@, monitor),
            !released ==> final(self)@ == old(self)@,
    {
        let ghost before = self@;
        match self.position(monitor) {
            Some(at) => {
                if self.held[at].holder != holder {
                    assert(!holds(before, monitor, holder)) by {
                        assert forall|i: int| 0 <= i < before.len() && (
                        #[trigger] before[i]).monitor == monitor implies before[i].holder
                            != holder by {
                            if i != at {
                                assert(before[i].monitor != before[at as int].monitor);
                            }
                        }
                    }
                    return false;
                }
                self.held.remove(at);
                proof {
                    lemma_without_one(before, monitor, at as int);
                    let after = self@;
                    assert forall|i: int, j: int| 0 <= i < j < after.len() implies (
                    #[trigger] after[i]).monitor != (#[trigger] after[j]).monitor by {
                        let a = if i < at {
                            i
                        } else {
                            i + 1
                        };
                        let b = if j < at {
                            j
                        } else {
                            j + 1
                        };
                        assert(after[i] == before[a] && after[j] == before[b]);
                    }
                }
                true
            },
            None => false,
        }
    }

    /// Whether a lease on `monitor` has not expired at `now`.
    pub fn is_held(&self, monitor: Id, now: i64) -> (r: bool)
        requires
            self.well_formed(),
        ensures
            r == is_leased(self@, monitor, now),
    {
        match self.position(monitor) {
            Some(at) => {
                let held = now < self.held[at].expires_at;
                if !held {
                    assert forall|i: int| 0 <= i < self@.len() && (
                    #[trigger] self@[i]).monitor == monitor implies !(now
                        < self@[i].expires_at) by {
                        if i != at {
                            assert(self@[i].monitor != self@[at as int].monitor);
                        }
                    }
                }
                held
            },
            None => false,
        }
    }
}

/// While a lease has not expired, no second one is granted on the same
/// monitor: after a worker was granted the lease until `expires_at`, the
/// monitor counts as leased at every time before that.
pub proof fn lemma_lease_excludes(
    held: Seq<Lease>,
    monitor: Id,
    holder: u64,
    expires_at: i64,
    later: i64,
)
    requires
        later < expires_at,
    ensures
        is_leased(
            without(held, monitor).push(Lease { monitor, holder, expires_at }),
            monitor,
            later,
        ),
{
    let after = without(held, monitor).push(Lease { monitor, holder, expires_at });
    assert(after[after.len() - 1].monitor == monitor);
}

/// A lease on one monitor leaves the leases on all others as they were.
pub proof fn lemma_lease_leaves_others(
    held: Seq<Lease>,
    monitor: Id,
    holder: u64,
    expires_at: i64,
    other: Id,
    now: i64,
)
    requires
        other != monitor,
    ensures
        is_leased(
            without(held, monitor).push(Lease { monitor, holder, expires_at }),
            other,
            now,
        ) == is_leased(held, other, now),
{
    let keep = |lease: Lease| lease.monitor != monitor;
    let left = without(held, monitor);
    let after = left.push(Lease { monitor, holder, expires_at });
    if is_leased(held, other, now) {
        let i = choose|i: int|
            0 <= i < held.len() && (#[trigger] held[i]).monitor == other && now
                < held[i].expires_at;
        held.lemma_filter_contains(keep, i);
        let k = choose|k: int| 0 <= k < left.len() && left[k] == held[i];
        assert(after[k] == held[i]);
    }
    if is_leased(after, other, now) {
        let k = choose|k: int|
            0 <= k < after.len() && (#[trigger] after[k]).monitor == other && now
                < after[k].expires_at;
        assert(k < left.len());
        held.lemma_filter_contains_rev(keep, left[k]);
        let i = choose|i: int| 0 <= i < held.len() && held[i] == left[k];
        assert(held[i].monitor == other);
    }
}

} // verus!
