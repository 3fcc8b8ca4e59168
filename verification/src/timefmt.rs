//! The time formatter: a Unix timestamp becomes the fixed UTC display label
//! `Mon DD HH:MM`. The calendar conversion itself is chrono's; composing the
//! label from the calendar parts is verified here.

use chrono::Datelike;
use chrono::Timelike;
use vstd::prelude::*;
use vstd::string::StringExecFns;

use crate::text::two_digits;
use crate::text::u64_to_two_digits;

verus! {

/// The largest timestamp the formatter promises to accept: the last second
/// of year 9999 UTC.
pub const MAX_FORMAT_SECS: i64 = 253402300799;

/// The UTC calendar parts (month, day of month, hour, minute) of a Unix
/// timestamp. They are a function of the timestamp alone; chrono computes
/// them.
pub uninterp spec fn utc_parts_of(secs: int) -> (int, int, int, int);

/// Relies on chrono's DateTime::<Utc>::from_timestamp and its Datelike and
/// Timelike accessors month, day, hour and minute: the month is 1 to 12, the
/// day of month 1 to 31, the hour 0 to 23 and the minute 0 to 59, every
/// timestamp from 1970 through year 9999 is in range, and out-of-range
/// timestamps yield nothing.
#[verifier::external_body]
fn utc_parts(secs: i64) -> (r: Option<(u32, u32, u32, u32)>)
    ensures
        r matches Some(p) ==> (p.0 as int, p.1 as int, p.2 as int, p.3 as int) == utc_parts_of(
            secs as int,
        ),
        r matches Some(p) ==> 1 <= p.0 <= 12 && 1 <= p.1 <= 31 && p.2 < 24 && p.3 < 60,
        0 <= secs <= MAX_FORMAT_SECS ==> r is Some,
{
    match chrono::DateTime::from_timestamp(secs, 0) {
        Some(dt) => Some((dt.month(), dt.day(), dt.hour(), dt.minute())),
        None => None,
    }
}

/// The fixed three-letter English abbreviation of a month number.
pub open spec fn spec_month_abbrev(m: int) -> Seq<char> {
    if m == 1 {
        "Jan"@
    } else if m == 2 {
        "Feb"@
    } else if m == 3 {
        "Mar"@
    } else if m == 4 {
        "Apr"@
    } else if m == 5 {
        "May"@
    } else if m == 6 {
        "Jun"@
    } else if m == 7 {
        "Jul"@
    } else if m == 8 {
        "Aug"@
    } else if m == 9 {
        "Sep"@
    } else if m == 10 {
        "Oct"@
    } else if m == 11 {
        "Nov"@
    } else {
        "Dec"@
    }
}

/// The display label of a set of calendar parts: three-letter month, space,
/// two-digit day, space, two-digit hour, colon, two-digit minute.
pub open spec fn spec_time_label(p: (int, int, int, int)) -> Seq<char> {
    spec_month_abbrev(p.0) + " "@ + two_digits(p.1) + " "@ + two_digits(p.2) + ":"@ + two_digits(
        p.3,
    )
}

/// The three-letter abbreviation of a month number.
fn month_abbrev(m: u32) -> (r: String)
    requires
        1 <= m <= 12,
    ensures
        r@ == spec_month_abbrev(m as int),
{
    if m == 1 {
        String::from_str("Jan")
    } else if m == 2 {
        String::from_str("Feb")
    } else if m == 3 {
        String::from_str("Mar")
    } else if m == 4 {
        String::from_str("Apr")
    } else if m == 5 {
        String::from_str("May")
    } else if m == 6 {
        String::from_str("Jun")
    } else if m == 7 {
        String::from_str("Jul")
    } else if m == 8 {
        String::from_str("Aug")
    } else if m == 9 {
        String::from_str("Sep")
    } else if m == 10 {
        String::from_str("Oct")
    } else if m == 11 {
        String::from_str("Nov")
    } else {
        String::from_str("Dec")
    }
}

/// Composes the display label from calendar parts.
pub fn format_time_parts(month: u32, day: u32, hour: u32, minute: u32) -> (r: String)
    requires
        1 <= month <= 12,
        day < 100,
        hour < 100,
        minute < 100,
    ensures
        r@ == spec_time_label((month as int, day as int, hour as int, minute as int)),
{
    let mut r = month_abbrev(month);
    r.append(" ");
    r.append(u64_to_two_digits(day as u64).as_str());
    r.append(" ");
    r.append(u64_to_two_digits(hour as u64).as_str());
    r.append(":");
    r.append(u64_to_two_digits(minute as u64).as_str());
    r
}

/// Formats a Unix timestamp as the UTC label `Mon DD HH:MM`. Every timestamp
/// from 1970 through year 9999 is accepted; a timestamp chrono cannot place
/// in the calendar yields nothing.
pub fn format_timestamp(secs: i64) -> (r: Option<String>)
    ensures
        0 <= secs <= MAX_FORMAT_SECS ==> r is Some,
        r matches Some(s) ==> s@ == spec_time_label(utc_parts_of(secs as int)),
{
    match utc_parts(secs) {
        Some((month, day, hour, minute)) => Some(format_time_parts(month, day, hour, minute)),
        None => None,
    }
}

} // verus!
