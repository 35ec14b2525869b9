//! Calendar timestamps. The conversion from Unix seconds is chrono's; the
//! library carries the resulting date and time through unchanged.

use chrono::{DateTime, NaiveDateTime};
use vstd::prelude::*;

verus! {

/// chrono's `NaiveDateTime`, a calendar date and a time of day without a time
/// zone. The verifier sees nothing inside a value of it. Every value that this
/// library hands out is a date and time at UTC.
#[verifier::external_type_specification]
#[verifier::external_body]
pub struct ExNaiveDateTime(chrono::NaiveDateTime);

/// The date and time at UTC that chrono's `DateTime::from_timestamp` gives for
/// a count of whole seconds since the Unix epoch and zero nanoseconds, and
/// `None` where chrono has no timestamp for that count.
pub uninterp spec fn utc_date_of_unix_seconds(unix_seconds: int) -> Option<NaiveDateTime>;

/// Calls chrono's `DateTime::from_timestamp(unix_seconds, 0)` and takes the
/// date and time of the answer with `DateTime::naive_utc`. The result is a
/// function of the argument alone: chrono splits the count into a day and a
/// second of that day by Euclidean division, and answers `None` where the day
/// lies outside the dates it can represent. The contract gives that result
/// its name and claims nothing else of it.
#[verifier::external_body]
pub(crate) fn unix_seconds_to_date(unix_seconds: i64) -> (date: Option<NaiveDateTime>)
    ensures
        date == utc_date_of_unix_seconds(unix_seconds as int),
{
    match DateTime::from_timestamp(unix_seconds, 0) {
        Some(date) => Some(date.naive_utc()),
        None => None,
    }
}

} // verus!
