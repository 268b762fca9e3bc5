//! The cadence scheduler: which evaluation window, if any, is due for a
//! monitor at a given time.
//!
//! Times are seconds since 1970-01-01 00:00:00 UTC. Hours, days and weeks
//! are fixed spans; weeks begin on Monday. Months are calendar months.

use vstd::prelude::*;
use crate::calendar::{
    floor_div_rem, month_index_at, month_index_of, month_start_at, month_start_of, DAY,
};
use crate::monitor::AlertCadence;

verus! {

/// Seconds in an hour.
pub const HOUR: i64 = 3_600;

/// Seconds in a week.
pub const WEEK: i64 = 604_800;

/// 1970-01-05 00:00:00 UTC, a Monday.
pub const FIRST_MONDAY: i64 = 345_600;

/// What the scheduler finds for one monitor at one time.
#[derive(Clone, Copy, Debug, PartialEq, Eq, Structural, Hash)]
pub enum Due {
    /// No window boundary has been crossed since the last evaluated window.
    NotDue,
    /// The most recently completed window, `start` included, `end` excluded.
    Window { start: i64, end: i64 },
    /// The calendar cannot place the time.
    OutOfRange,
}

/// The span of a cadence that has a fixed one.
pub open spec fn span_of(cadence: AlertCadence) -> Option<int> {
    match cadence {
        AlertCadence::Hourly => Some(3_600),
        AlertCadence::Daily => Some(86_400),
        AlertCadence::Weekly => Some(604_800),
        AlertCadence::Monthly => None,
    }
}

/// The time from which the boundaries of a fixed cadence are counted.
pub open spec fn origin_of(cadence: AlertCadence) -> int {
    match cadence {
        AlertCadence::Weekly => 345_600,
        _ => 0,
    }
}

/// The latest boundary of a fixed span at or before `time`.
pub open spec fn floor_to(time: int, span: int, origin: int) -> int {
    time - (time - origin) % span
}

/// The latest boundary of a cadence at or before `time`: where the first
/// window of a monitor created at `time` begins.
pub open spec fn boundary_at(cadence: AlertCadence, time: int) -> Option<int> {
    let boundary = match span_of(cadence) {
        Some(span) => Some(floor_to(time, span, origin_of(cadence))),
        None => match month_index_of(time) {
            Some(index) => month_start_of(index),
            None => None,
        },
    };
    match boundary {
        Some(at) => if i64::MIN <= at <= time {
            Some(at)
        } else {
            None
        },
        None => None,
    }
}

/// The window that is due under a fixed span: boundaries lie at whole spans
/// from `last`, and the window ends at the latest of them that `now` has
/// reached.
pub open spec fn due_fixed(span: int, last: int, now: int) -> Due {
    if now - last < span {
        Due::NotDue
    } else {
        let end = last + ((now - last) / span) * span;
        Due::Window { start: (end - span) as i64, end: end as i64 }
    }
}

/// The window between two month boundaries: it ends at `end`, where the
/// month of `now` begins, and begins at `previous`, where the month before
/// began, or at `last` where that is later. Nothing is due where `end` does
/// not lie beyond `last`; the calendar is out of range where a boundary is
/// missing or out of order.
pub open spec fn due_between(last: int, now: int, end: Option<int>, previous: Option<int>) -> Due {
    match end {
        None => Due::OutOfRange,
        Some(end) => if !(i64::MIN <= end <= now) {
            Due::OutOfRange
        } else if end <= last {
            Due::NotDue
        } else {
            match previous {
                None => Due::OutOfRange,
                Some(previous) => if previous >= end {
                    Due::OutOfRange
                } else if previous > last {
                    Due::Window { start: previous as i64, end: end as i64 }
                } else {
                    Due::Window { start: last as i64, end: end as i64 }
                },
            }
        },
    }
}

/// The window that is due under the monthly cadence: it ends where the month
/// of `now` begins, and begins where the month before began, or at `last`
/// where that is later.
pub open spec fn due_monthly(last: int, now: int) -> Due {
    match month_index_of(now) {
        None => Due::OutOfRange,
        Some(index) => due_between(last, now, month_start_of(index), month_start_of(index - 1)),
    }
}

/// A time as a mathematical integer.
pub open spec fn widened(time: Option<i64>) -> Option<int> {
    match time {
        Some(at) => Some(at as int),
        None => None,
    }
}

/// The window that is due for a monitor whose last evaluated window ended at
/// `last`, at the time `now`.
pub open spec fn due_at(cadence: AlertCadence, last: int, now: int) -> Due {
    match span_of(cadence) {
        Some(span) => due_fixed(span, last, now),
        None => due_monthly(last, now),
    }
}

/// The boundary that lies `horizon` windows before the boundary `end`, where
/// it can be placed.
pub open spec fn retry_floor_of(cadence: AlertCadence, end: int, horizon: int) -> Option<int> {
    let floor = match span_of(cadence) {
        Some(span) => Some(end - horizon * span),
        None => match month_index_of(end) {
            Some(index) => month_start_of(index - horizon),
            None => None,
        },
    };
    match floor {
        Some(at) => if i64::MIN <= at <= i64::MAX {
            Some(at)
        } else {
            None
        },
        None => None,
    }
}

impl AlertCadence {
    /// The length of the window in seconds, for the cadences that have a
    /// fixed one.
    pub fn span(&self) -> (r: Option<i64>)
        ensures
            match span_of(*self) {
                Some(span) => r == Some(span as i64),
                None => r is None,
            },
    {
        match self {
            AlertCadence::Hourly => Some(HOUR),
            AlertCadence::Daily => Some(DAY),
            AlertCadence::Weekly => Some(WEEK),
            AlertCadence::Monthly => None,
        }
    }
}

/// The end of the last evaluated window of a monitor that is created at
/// `created_at`: that time, rounded down to the boundary of the cadence.
/// `None` where the boundary cannot be placed.
pub fn initial_window_end(cadence: AlertCadence, created_at: i64) -> (r: Option<i64>)
    ensures
        match boundary_at(cadence, created_at as int) {
            Some(at) => r == Some(at as i64),
            None => r is None,
        },
{
    match cadence.span() {
        Some(span) => {
            let origin: i64 = match cadence {
                AlertCadence::Weekly => FIRST_MONDAY,
                _ => 0,
            };
            let (count, within) = floor_div_rem(created_at, span);
            let past: i64 = if within >= origin {
                within - origin
            } else {
                within - origin + span
            };
            proof {
                let whole = if within >= origin {
                    count as int
                } else {
                    count as int - 1
                };
                assert(created_at as int - origin as int == whole * span + past) by (nonlinear_arith)
                    requires
                        created_at as int == count as int * span as int + within as int,
                        whole == if within >= origin {
                            count as int
                        } else {
                            count as int - 1
                        },
                        past as int == if within >= origin {
                            within as int - origin as int
                        } else {
                            within as int - origin as int + span as int
                        },
                ;
                vstd::arithmetic::div_mod::lemma_fundamental_div_mod_converse(
                    created_at as int - origin as int,
                    span as int,
                    whole,
                    past as int,
                );
            }
            let at: i128 = created_at as i128 - past as i128;
            if at < i64::MIN as i128 {
                None
            } else {
                Some(at as i64)
            }
        },
        None => {
            let index = match month_index_at(created_at) {
                Some(index) => index,
                None => {
                    return None;
                },
            };
            match month_start_at(index) {
                Some(at) => if at <= created_at {
                    Some(at)
                } else {
                    None
                },
                None => None,
            }
        },
    }
}

fn fixed_window(span: i64, last: i64, now: i64) -> (r: Due)
    requires
        0 < span,
    ensures
        r == due_fixed(span as int, last as int, now as int),
        r is Window ==> last <= r->start < r->end <= now && r->end - r->start == span,
{
    let elapsed: i128 = now as i128 - last as i128;
    if elapsed < span as i128 {
        return Due::NotDue;
    }
    let count: i128 = elapsed / (span as i128);
    proof {
        vstd::arithmetic::div_mod::lemma_fundamental_div_mod(elapsed as int, span as int);
        vstd::arithmetic::div_mod::lemma_mod_bound(elapsed as int, span as int);
        assert(count * span == span * count) by (nonlinear_arith);
        assert(count >= 1) by (nonlinear_arith)
            requires
                elapsed == span * count + (elapsed as int % span as int),
                elapsed >= span,
                (elapsed as int % span as int) < span,
                span > 0,
        ;
        assert(count * span >= span) by (nonlinear_arith)
            requires
                count >= 1,
                span > 0,
        ;
    }
    let end: i128 = last as i128 + count * (span as i128);
    Due::Window { start: (end - span as i128) as i64, end: end as i64 }
}

/// Finds the window between two month boundaries as the calendar gave
/// them: `end`, where the month of `now` begins, and `previous`, where the
/// month before began.
pub fn monthly_window_between(
    last: i64,
    now: i64,
    end: Option<i64>,
    previous: Option<i64>,
) -> (r: Due)
    ensures
        r == due_between(last as int, now as int, widened(end), widened(previous)),
        r is Window ==> last <= r->start < r->end <= now,
{
    let end = match end {
        Some(end) => end,
        None => {
            return Due::OutOfRange;
        },
    };
    if end > now {
        return Due::OutOfRange;
    }
    if end <= last {
        return Due::NotDue;
    }
    match previous {
        None => Due::OutOfRange,
        Some(previous) => {
            if previous >= end {
                Due::OutOfRange
            } else if previous > last {
                Due::Window { start: previous, end }
            } else {
                Due::Window { start: last, end }
            }
        },
    }
}

fn monthly_window(last: i64, now: i64) -> (r: Due)
    ensures
        r == due_monthly(last as int, now as int),
        r is Window ==> last <= r->start < r->end <= now,
{
    let index = match month_index_at(now) {
        Some(index) => index,
        None => {
            return Due::OutOfRange;
        },
    };
    let end = month_start_at(index);
    let previous = if index == i64::MIN {
        // no month lies before the first index; the calendar has none there
        proof {
            lemma_far_month_has_no_start(index as int - 1);
        }
        None
    } else {
        month_start_at(index - 1)
    };
    monthly_window_between(last, now, end, previous)
}

/// A month whose year lies outside the years of an `i32` has no start.
proof fn lemma_far_month_has_no_start(index: int)
    requires
        index < -0x7000_0000_0000_0000,
    ensures
        month_start_of(index) is None,
{
    assert(index / 12 < i32::MIN) by (nonlinear_arith)
        requires
            index < -0x7000_0000_0000_0000,
    ;
}

/// Finds the window that is due for a monitor of the given cadence whose last
/// evaluated window ended at `last`, at the time `now`.
///
/// However many boundaries have been crossed, only the most recently
/// completed window is due.
pub fn due_window(cadence: AlertCadence, last: i64, now: i64) -> (r: Due)
    ensures
        r == due_at(cadence, last as int, now as int),
        r is Window ==> last <= r->start < r->end <= now,
{
    match cadence.span() {
        Some(span) => fixed_window(span, last, now),
        None => monthly_window(last, now),
    }
}

/// The boundary that lies `horizon` windows before the boundary `end`: the
/// earliest time from which a window without data is still tried again.
pub fn retry_floor(cadence: AlertCadence, end: i64, horizon: u32) -> (r: Option<i64>)
    ensures
        match retry_floor_of(cadence, end as int, horizon as int) {
            Some(at) => r == Some(at as i64),
            None => r is None,
        },
{
    match cadence.span() {
        Some(span) => {
            assert(0 <= horizon as int * span as int <= 0xffff_ffff * 604_800) by (nonlinear_arith)
                requires
                    0 <= horizon <= 0xffff_ffff,
                    0 < span <= 604_800,
            ;
            let at: i128 = end as i128 - (horizon as i128) * (span as i128);
            if at < i64::MIN as i128 {
                None
            } else {
                Some(at as i64)
            }
        },
        None => {
            let index = match month_index_at(end) {
                Some(index) => index,
                None => {
                    return None;
                },
            };
            let back: i128 = index as i128 - horizon as i128;
            if back < i64::MIN as i128 {
                proof {
                    lemma_far_month_has_no_start(back as int);
                }
                return None;
            }
            month_start_at(back as i64)
        },
    }
}

/// A window that is due begins at or after the end of the last evaluated
/// window, and has ended by `now`.
pub proof fn lemma_due_window_bounds(cadence: AlertCadence, last: i64, now: i64)
    ensures
        match due_at(cadence, last as int, now as int) {
            Due::Window { start, end } => last <= start < end <= now,
            _ => true,
        },
{
    match span_of(cadence) {
        Some(span) => {
            if now - last >= span {
                lemma_fixed_window_bounds(span, last as int, now as int);
            }
        },
        None => {},
    }
}

proof fn lemma_fixed_window_bounds(span: int, last: int, now: int)
    requires
        0 < span,
        i64::MIN <= last <= i64::MAX,
        i64::MIN <= now <= i64::MAX,
        now - last >= span,
    ensures
        last <= last + ((now - last) / span) * span - span,
        last + ((now - last) / span) * span <= now,
{
    let elapsed = now - last;
    let count = elapsed / span;
    vstd::arithmetic::div_mod::lemma_fundamental_div_mod(elapsed, span);
    vstd::arithmetic::div_mod::lemma_mod_bound(elapsed, span);
    assert(count * span == span * count) by (nonlinear_arith);
    assert(count >= 1) by (nonlinear_arith)
        requires
            elapsed == span * count + (elapsed % span),
            elapsed >= span,
            (elapsed % span) < span,
            span > 0,
    ;
    assert(count * span >= span) by (nonlinear_arith)
        requires
            count >= 1,
            span > 0,
    ;
}

/// No window is evaluated twice: once the pointer stands at the end of a
/// window, every window that is due later begins at or after that end.
pub proof fn lemma_windows_never_overlap(
    cadence: AlertCadence,
    last: i64,
    now: i64,
    later: i64,
)
    ensures
        match due_at(cadence, last as int, now as int) {
            Due::Window { start, end } => match due_at(cadence, end as int, later as int) {
                Due::Window { start: next_start, end: next_end } => end <= next_start,
                _ => true,
            },
            _ => true,
        },
{
    lemma_due_window_bounds(cadence, last, now);
    match due_at(cadence, last as int, now as int) {
        Due::Window { start, end } => {
            lemma_due_window_bounds(cadence, end, later);
        },
        _ => {},
    }
}

/// Under a fixed cadence nothing is due until a whole span has passed since
/// the last evaluated window, and something is due from then on.
pub proof fn lemma_due_when_span_passed(cadence: AlertCadence, last: i64, now: i64)
    requires
        span_of(cadence) is Some,
    ensures
        due_at(cadence, last as int, now as int) is Window <==> now - last >= span_of(cadence)->0,
        !(due_at(cadence, last as int, now as int) is OutOfRange),
{
}

} // verus!
