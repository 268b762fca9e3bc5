//! The page of production predictions: which slice of the log a request asks
//! for, how its rows are shown, and where the neighbouring pages begin.

use vstd::prelude::*;
use crate::convert::i64_to_usize;
use crate::decimal::{all_digits, digits_value, unsigned_part};

verus! {

/// The number of predictions on one page.
pub const PRODUCTION_PREDICTIONS_NUM_PREDICTIONS_PER_PAGE_TABLE: i64 = 10;

/// The slice of the prediction log that a page shows.
#[derive(Clone, Copy, Debug, PartialEq, Eq, Structural, Hash)]
pub enum PageQuery {
    /// The oldest predictions that are newer than the time, newest first.
    After(i64),
    /// The newest predictions that are older than the time.
    Before(i64),
    /// The newest predictions of all.
    Latest,
}

/// What a model put out for one prediction, as text.
#[derive(Clone, Debug, PartialEq, Eq)]
pub enum PredictOutput {
    Regression { value: String },
    BinaryClassification { class_name: String },
    MulticlassClassification { class_name: String },
}

/// One entry of the prediction log, as the page reads it.
#[derive(Clone, Debug, PartialEq, Eq)]
pub struct PredictionRow {
    pub date: i64,
    pub identifier: String,
    pub output: PredictOutput,
}

/// One row of the table.
#[derive(Clone, Debug, PartialEq, Eq)]
pub struct PredictionTableRow {
    pub date: String,
    pub identifier: String,
    pub output: String,
}

/// The table of predictions.
#[derive(Clone, Debug, PartialEq, Eq)]
pub struct PredictionTable {
    pub rows: Vec<PredictionTableRow>,
}

/// Where the neighbouring pages begin, for those that exist.
#[derive(Clone, Copy, Debug, PartialEq, Eq, Structural, Hash)]
pub struct Pagination {
    pub after: Option<usize>,
    pub before: Option<usize>,
}

/// The whole number that a text spells: an optional sign and at least one
/// digit, nothing else; `None` where it is no such text or the number does
/// not fit an `i64`.
pub open spec fn integer_of(text: Seq<char>) -> Option<i64> {
    let digits = unsigned_part(text);
    let value = if text.len() > 0 && text[0] == '-' {
        -digits_value(digits)
    } else {
        digits_value(digits)
    };
    if digits.len() > 0 && all_digits(digits) && i64::MIN <= value <= i64::MAX {
        Some(value as i64)
    } else {
        None
    }
}

/// Calls `str::parse::<i64>`, which reads an optional sign followed by
/// decimal digits and fails on anything else, on overflow too.
#[verifier::external_body]
fn parse_timestamp(text: &str) -> (r: Option<i64>)
    ensures
        r == integer_of(text@),
{
    text.parse::<i64>().ok()
}

/// How a time reads in a time zone: `chrono`'s text for the instant
/// `timestamp` seconds after 1970-01-01 00:00:00 UTC, seen from the zone that
/// `chrono_tz` knows under the name `timezone`. `None` where the zone is
/// unknown or the instant outside the dates that `chrono` represents.
pub uninterp spec fn local_time_text_of(timestamp: i64, timezone: Seq<char>) -> Option<Seq<char>>;

/// Looks the zone up with `chrono_tz`, makes the instant with
/// `chrono::DateTime::from_timestamp`, moves it to the zone with
/// `with_timezone` and writes it with `to_string`. Nothing is claimed of the
/// text but that it depends on the time and the name of the zone alone.
#[verifier::external_body]
fn local_time_text(timestamp: i64, timezone: &str) -> (r: Option<String>)
    ensures
        match r {
            Some(text) => local_time_text_of(timestamp, timezone@) == Some(text@),
            None => local_time_text_of(timestamp, timezone@) is None,
        },
{
    let zone: chrono_tz::Tz = timezone.parse().ok()?;
    let instant = chrono::DateTime::from_timestamp(timestamp, 0)?;
    Some(instant.with_timezone(&zone).to_string())
}

/// The slice that the parameters `after` and `before` of a request ask for.
/// A parameter that is no whole number counts as absent.
pub open spec fn query_of(after: Option<Seq<char>>, before: Option<Seq<char>>) -> Option<
    PageQuery,
> {
    let after = match after {
        Some(text) => integer_of(text),
        None => None,
    };
    let before = match before {
        Some(text) => integer_of(text),
        None => None,
    };
    match (after, before) {
        (Some(time), None) => Some(PageQuery::After(time)),
        (None, Some(time)) => Some(PageQuery::Before(time)),
        (None, None) => Some(PageQuery::Latest),
        (Some(_), Some(_)) => None,
    }
}

/// Reads the slice that a request asks for from its parameters `after` and
/// `before`. `None` where both are given: no page lies on both sides.
pub fn page_query(after: Option<&str>, before: Option<&str>) -> (r: Option<PageQuery>)
    ensures
        r == query_of(
            match after {
                Some(text) => Some(text@),
                None => None,
            },
            match before {
                Some(text) => Some(text@),
                None => None,
            },
        ),
{
    let after = match after {
        Some(text) => parse_timestamp(text),
        None => None,
    };
    let before = match before {
        Some(text) => parse_timestamp(text),
        None => None,
    };
    match (after, before) {
        (Some(time), None) => Some(PageQuery::After(time)),
        (None, Some(time)) => Some(PageQuery::Before(time)),
        (None, None) => Some(PageQuery::Latest),
        (Some(_), Some(_)) => None,
    }
}

/// The text of what a model put out.
pub open spec fn output_text_of(output: PredictOutput) -> Seq<char> {
    match output {
        PredictOutput::Regression { value } => value@,
        PredictOutput::BinaryClassification { class_name } => class_name@,
        PredictOutput::MulticlassClassification { class_name } => class_name@,
    }
}

/// The times of the first and of the last row of a page.
pub open spec fn edges_of(rows: Seq<PredictionRow>) -> Option<(i64, i64)> {
    if rows.len() == 0 {
        None
    } else {
        Some((rows[0].date, rows[rows.len() - 1].date))
    }
}

/// The place of a neighbouring page: the time of the row on that edge, where
/// there are predictions beyond it and the time is not negative.
pub open spec fn link_of(beyond: bool, edge: Option<i64>) -> Option<usize> {
    match edge {
        Some(time) => if beyond && 0 <= time <= usize::MAX {
            Some(time as usize)
        } else {
            None
        },
        None => None,
    }
}

/// The times of the first and of the last row of a page: the edges beyond
/// which the neighbouring pages lie. `None` for a page without rows.
pub fn page_edges(rows: &Vec<PredictionRow>) -> (r: Option<(i64, i64)>)
    ensures
        r == edges_of(rows@),
{
    if rows.len() == 0 {
        None
    } else {
        Some((rows[0].date, rows[rows.len() - 1].date))
    }
}

/// Where the neighbouring pages begin. `newer_predictions_exist` and
/// `older_predictions_exist` say whether the log holds predictions beyond
/// the first and the last row of this page.
pub fn pagination(
    rows: &Vec<PredictionRow>,
    newer_predictions_exist: bool,
    older_predictions_exist: bool,
) -> (r: Pagination)
    ensures
        r.after == link_of(
            newer_predictions_exist,
            match edges_of(rows@) {
                Some((first, _)) => Some(first),
                None => None,
            },
        ),
        r.before == link_of(
            older_predictions_exist,
            match edges_of(rows@) {
                Some((_, last)) => Some(last),
                None => None,
            },
        ),
{
    match page_edges(rows) {
        Some((first, last)) => Pagination {
            after: if newer_predictions_exist {
                i64_to_usize(first)
            } else {
                None
            },
            before: if older_predictions_exist {
                i64_to_usize(last)
            } else {
                None
            },
        },
        None => Pagination { after: None, before: None },
    }
}

/// One row as the table shows it, given the text of its date.
pub fn table_row(row: &PredictionRow, date: String) -> (r: PredictionTableRow)
    ensures
        r.date == date,
        r.identifier@ == row.identifier@,
        r.output@ == output_text_of(row.output),
{
    let output = match &row.output {
        PredictOutput::Regression { value } => value.clone(),
        PredictOutput::BinaryClassification { class_name } => class_name.clone(),
        PredictOutput::MulticlassClassification { class_name } => class_name.clone(),
    };
    PredictionTableRow { date, identifier: row.identifier.clone(), output }
}

/// Whether `table` shows `rows` in the zone `timezone`: row for row, the
/// date as it reads in the zone, the identifier, and the text of the output.
pub open spec fn shows(
    table: Seq<PredictionTableRow>,
    rows: Seq<PredictionRow>,
    timezone: Seq<char>,
) -> bool {
    &&& table.len() == rows.len()
    &&& forall|i: int|
        0 <= i < rows.len() ==> {
            &&& local_time_text_of(rows[i].date, timezone) == Some((#[trigger] table[i]).date@)
            &&& table[i].identifier@ == rows[i].identifier@
            &&& table[i].output@ == output_text_of(rows[i].output)
        }
}

/// Every date of `rows` can be written in the zone `timezone`.
pub open spec fn all_dates_read(rows: Seq<PredictionRow>, timezone: Seq<char>) -> bool {
    forall|i: int|
        0 <= i < rows.len() ==> local_time_text_of((#[trigger] rows[i]).date, timezone) is Some
}

/// The rows of the table for the rows of a page, dates written in the zone
/// `timezone`. `None` where a date cannot be written: the zone is unknown, or
/// the date lies outside the calendar.
pub fn prediction_table_rows(rows: &Vec<PredictionRow>, timezone: &str) -> (r: Option<
    Vec<PredictionTableRow>,
>)
    ensures
        match r {
            Some(table) => shows(table@, rows@, timezone@),
            None => !all_dates_read(rows@, timezone@),
        },
{
    let mut table: Vec<PredictionTableRow> = Vec::new();
    let mut i: usize = 0;
    while i < rows.len()
        invariant
            i <= rows@.len(),
            shows(table@, rows@.take(i as int), timezone@),
        decreases rows@.len() - i,
    {
        let date = match local_time_text(rows[i].date, timezone) {
            Some(date) => date,
            None => {
                return None;
            },
        };
        let ghost before = table@;
        table.push(table_row(&rows[i], date));
        assert forall|k: int| 0 <= k < i + 1 implies {
            &&& local_time_text_of(rows@.take(i + 1)[k].date, timezone@) == Some(
                (#[trigger] table@[k]).date@,
            )
            &&& table@[k].identifier@ == rows@.take(i + 1)[k].identifier@
            &&& table@[k].output@ == output_text_of(rows@.take(i + 1)[k].output)
        } by {
            if k < i {
                assert(table@[k] == before[k]);
                assert(rows@.take(i as int)[k] == rows@.take(i + 1)[k]);
            }
        }
        i = i + 1;
    }
    assert(rows@.take(i as int) =~= rows@);
    Some(table)
}

/// The table of a page: none for a page without rows.
pub fn prediction_table(rows: Vec<PredictionTableRow>) -> (r: Option<PredictionTable>)
    ensures
        r is None <==> rows@.len() == 0,
        r is Some ==> r->0.rows == rows,
{
    if rows.len() == 0 {
        None
    } else {
        Some(PredictionTable { rows })
    }
}

} // verus!
