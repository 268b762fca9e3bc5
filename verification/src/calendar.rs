//! The civil calendar, taken from `chrono`: which date a day number falls
//! on, and which day number a date has. Days are counted from 1970-01-01,
//! which is day 0.

use vstd::prelude::*;
use chrono::{Datelike, NaiveDate};

verus! {

/// Seconds in a day.
pub const DAY: i64 = 86_400;

/// The year, month and day of the month on which a day number falls, as
/// `chrono::NaiveDate::from_epoch_days` places it; `None` where the day lies
/// outside the dates that `chrono` represents.
pub uninterp spec fn civil_of_epoch_day(day: i32) -> Option<(i32, u32, u32)>;

/// The day number of a date, as `chrono::NaiveDate::from_ymd_opt` followed by
/// `to_epoch_days` gives it; `None` where there is no such date.
pub uninterp spec fn epoch_day_of_civil(year: i32, month: u32, day: u32) -> Option<i32>;

/// Calls `chrono::NaiveDate::from_epoch_days` and reads year, month and day
/// off the date with `Datelike`. The date depends on the day number alone;
/// its month is one of the twelve, and its day of the month lies between 1
/// and 31, as `Datelike::month` and `Datelike::day` document.
#[verifier::external_body]
pub(crate) fn civil_from_epoch_day(day: i32) -> (r: Option<(i32, u32, u32)>)
    ensures
        r == civil_of_epoch_day(day),
        match r {
            Some((_, month, day_of_month)) => 1 <= month <= 12 && 1 <= day_of_month <= 31,
            None => true,
        },
{
    NaiveDate::from_epoch_days(day).map(|date| (date.year(), date.month(), date.day()))
}

/// Calls `chrono::NaiveDate::from_ymd_opt` and reads the day number off the
/// date with `to_epoch_days`. Nothing is claimed of the number but that it
/// depends on year, month and day alone.
#[verifier::external_body]
pub(crate) fn epoch_day_from_civil(year: i32, month: u32, day: u32) -> (r: Option<i32>)
    ensures
        r == epoch_day_of_civil(year, month, day),
{
    NaiveDate::from_ymd_opt(year, month, day).map(|date| date.to_epoch_days())
}

/// The number of the day in which a time lies: the quotient by the length
/// of a day, rounded down.
pub open spec fn epoch_day_of(time: int) -> int {
    time / 86_400
}

/// Months counted from year 0: January of year `y` has the index `12 * y`.
pub open spec fn month_index(year: int, month: int) -> int {
    year * 12 + month - 1
}

/// The index of the month of a date, where there is a date and its month is
/// one of the twelve.
pub open spec fn month_index_from(date: Option<(i32, u32, u32)>) -> Option<int> {
    match date {
        Some((year, month, _)) => if 1 <= month <= 12 {
            Some(month_index(year as int, month as int))
        } else {
            None
        },
        None => None,
    }
}

/// The first second of a day, where there is a day.
pub open spec fn day_start_from(day: Option<i32>) -> Option<int> {
    match day {
        Some(day) => Some(day * 86_400),
        None => None,
    }
}

/// The index of the month in which a time lies, where the calendar places it.
pub open spec fn month_index_of(time: int) -> Option<int> {
    let day = epoch_day_of(time);
    if i32::MIN <= day <= i32::MAX {
        month_index_from(civil_of_epoch_day(day as i32))
    } else {
        None
    }
}

/// The first second of the month with the given index, where the calendar
/// has that month.
pub open spec fn month_start_of(index: int) -> Option<int> {
    let year = index / 12;
    let month = index % 12 + 1;
    if i32::MIN <= year <= i32::MAX {
        day_start_from(epoch_day_of_civil(year as i32, month as u32, 1))
    } else {
        None
    }
}

/// The quotient and the remainder of `time` by `step`, both rounded down, so
/// that the remainder is never negative.
pub fn floor_div_rem(time: i64, step: i64) -> (r: (i64, i64))
    requires
        0 < step,
    ensures
        r.0 == time as int / step as int,
        r.1 == time as int % step as int,
        0 <= r.1 < step,
        time == r.0 * step + r.1,
{
    proof {
        vstd::arithmetic::div_mod::lemma_fundamental_div_mod(time as int, step as int);
        vstd::arithmetic::div_mod::lemma_mod_bound(time as int, step as int);
        assert((time as int / step as int) * step == step * (time as int / step as int))
            by (nonlinear_arith);
    }
    if time >= 0 {
        let q = time / step;
        let m = time % step;
        (q, m)
    } else {
        // -(time + 1) is in 0..=i64::MAX
        let flipped: i64 = -(time + 1);
        let q = flipped / step;
        let m = flipped % step;
        proof {
            vstd::arithmetic::div_mod::lemma_fundamental_div_mod(flipped as int, step as int);
            assert(0 <= q <= flipped) by (nonlinear_arith)
                requires
                    q == flipped as int / step as int,
                    flipped >= 0,
                    step > 0,
            ;
            let quotient = -(q as int) - 1;
            let remainder = step as int - 1 - m as int;
            assert(time as int == quotient * step + remainder) by (nonlinear_arith)
                requires
                    flipped as int == step * (q as int) + m,
                    time as int == -(flipped as int) - 1,
                    quotient == -(q as int) - 1,
                    remainder == step as int - 1 - m as int,
            ;
            vstd::arithmetic::div_mod::lemma_fundamental_div_mod_converse(
                time as int,
                step as int,
                quotient,
                remainder,
            );
        }
        (-q - 1, step - 1 - m)
    }
}

/// The index of the month of a date as the calendar gave it: none without a
/// date, and none for a month that is not one of the twelve.
pub fn month_index_from_date(date: Option<(i32, u32, u32)>) -> (r: Option<i64>)
    ensures
        match month_index_from(date) {
            Some(index) => r == Some(index as i64) && i64::MIN <= index <= i64::MAX,
            None => r is None,
        },
{
    match date {
        Some((year, month, _)) => {
            if 1 <= month && month <= 12 {
                Some((year as i64) * 12 + (month as i64) - 1)
            } else {
                None
            }
        },
        None => None,
    }
}

/// The first second of a day as the calendar gave it: none without a day.
pub fn day_start(day: Option<i32>) -> (r: Option<i64>)
    ensures
        match day_start_from(day) {
            Some(start) => r == Some(start as i64) && i64::MIN <= start <= i64::MAX,
            None => r is None,
        },
{
    match day {
        Some(day) => {
            assert(i64::MIN <= day as int * 86_400 <= i64::MAX) by (nonlinear_arith)
                requires
                    i32::MIN <= day <= i32::MAX,
            ;
            Some((day as i64) * DAY)
        },
        None => None,
    }
}

/// The index of the month in which `time` lies.
pub fn month_index_at(time: i64) -> (r: Option<i64>)
    ensures
        match month_index_of(time as int) {
            Some(index) => r == Some(index as i64) && i64::MIN <= index <= i64::MAX,
            None => r is None,
        },
{
    let (day, _) = floor_div_rem(time, DAY);
    if day < i32::MIN as i64 || day > i32::MAX as i64 {
        return None;
    }
    month_index_from_date(civil_from_epoch_day(day as i32))
}

/// The first second of the month with the given index.
pub fn month_start_at(index: i64) -> (r: Option<i64>)
    ensures
        match month_start_of(index as int) {
            Some(start) => r == Some(start as i64) && i64::MIN <= start <= i64::MAX,
            None => r is None,
        },
{
    let (year, month) = floor_div_rem(index, 12);
    if year < i32::MIN as i64 || year > i32::MAX as i64 {
        return None;
    }
    day_start(epoch_day_from_civil(year as i32, (month + 1) as u32, 1))
}

} // verus!
