//! Moments in time, and how the systems store them.

use crate::renderers::{AbsentValue, Value};
use chrono::Datelike;
use vstd::prelude::*;

verus! {

/// A moment, counted from the start of 1970 in UTC.
#[derive(Clone, Copy, PartialEq, Eq, Structural, Debug)]
pub struct DateTime {
    pub seconds: i64,
    pub microseconds: u32,
}

/// Seconds between the start of 1601, from which Windows counts, and that of 1970.
pub const WINDOWS_EPOCH: u64 = 11644473600;

/// The last second of the year 9999.
pub const LAST_SECOND: u64 = 253402300799;

/// What a Windows time shows as: nothing within its first second, and nothing
/// that can be read where it lies behind the year 9999.
pub open spec fn wintime_cell(raw: u64) -> crate::renderers::Cell {
    let seconds = raw / 10_000_000;
    if seconds == 0 {
        crate::renderers::Cell::Absent(AbsentValue::NotApplicable)
    } else if seconds > WINDOWS_EPOCH + LAST_SECOND {
        crate::renderers::Cell::Absent(AbsentValue::Unparsable)
    } else {
        crate::renderers::Cell::Time(
            DateTime { seconds: (seconds - WINDOWS_EPOCH) as i64, microseconds: 0 },
        )
    }
}

/// The value that a Windows time shows as.
pub fn wintime_value(raw: u64) -> (value: Value)
    ensures
        value@ == wintime_cell(raw),
{
    match wintime_to_datetime(raw) {
        Some(when) => Value::DateTime(when),
        None => if raw / 10_000_000 == 0 {
            Value::Absent(AbsentValue::NotApplicable)
        } else {
            Value::Absent(AbsentValue::Unparsable)
        },
    }
}

/// The moment that a Windows time names.
pub open spec fn wintime_moment(raw: u64) -> Option<DateTime> {
    match wintime_cell(raw) {
        crate::renderers::Cell::Time(when) => Some(when),
        _ => None,
    }
}

/// The moment that a Windows time names.
pub fn wintime_to_datetime(raw: u64) -> (moment: Option<DateTime>)
    ensures
        moment == wintime_moment(raw),
{
    let seconds: u64 = raw / 10_000_000;
    if seconds == 0 || seconds > WINDOWS_EPOCH + LAST_SECOND {
        None
    } else {
        Some(DateTime { seconds: seconds as i64 - WINDOWS_EPOCH as i64, microseconds: 0 })
    }
}

/// What a count of seconds since 1970 shows as.
pub open spec fn unixtime_cell(seconds: i64) -> crate::renderers::Cell {
    if 0 < seconds <= LAST_SECOND {
        crate::renderers::Cell::Time(DateTime { seconds, microseconds: 0 })
    } else {
        crate::renderers::Cell::Absent(AbsentValue::Unparsable)
    }
}

/// The value that a count of seconds since 1970 shows as.
pub fn unixtime_value(seconds: i64) -> (value: Value)
    ensures
        value@ == unixtime_cell(seconds),
{
    if 0 < seconds && seconds <= LAST_SECOND as i64 {
        Value::DateTime(DateTime { seconds, microseconds: 0 })
    } else {
        Value::Absent(AbsentValue::Unparsable)
    }
}

/// The year in which a second counted from 1970 lies.
pub uninterp spec fn calendar_year(seconds: i64) -> Option<i32>;

/// `chrono::DateTime::from_timestamp` and `Datelike::year` give the calendar
/// year of a second counted from 1970, and nothing for a second outside the
/// years that chrono represents. The calendar itself is left unsaid: the result
/// is named as a function of the count.
#[verifier::external_body]
pub(crate) fn year_of(seconds: i64) -> (year: Option<i32>)
    ensures
        year == calendar_year(seconds),
{
    chrono::DateTime::from_timestamp(seconds, 0).map(|when| when.year())
}

/// A second counted from 1970, written as chrono writes it in a given form.
pub uninterp spec fn calendar_text(seconds: i64, form: Seq<char>) -> Option<Seq<char>>;

/// The forms in which the library has moments written.
pub open spec fn is_known_form(form: Seq<char>) -> bool {
    form == "%a %b %e %H:%M:%S %Y"@ || form == "%Y-%m-%d %H:%M:%S%:z"@
}

/// `chrono::DateTime::from_timestamp` and `DateTime::format` write a second
/// counted from 1970 in a given form, and nothing for a second outside the years
/// that chrono represents. The calendar and the form's language are left unsaid:
/// the result is named as a function of both. An invalid form would panic, so
/// only the two forms in use are admitted.
#[verifier::external_body]
pub(crate) fn format_time(seconds: i64, form: &str) -> (text: Option<String>)
    requires
        is_known_form(form@),
    ensures
        crate::text::maybe_text(text) == calendar_text(seconds, form@),
{
    chrono::DateTime::from_timestamp(seconds, 0).map(|when| when.format(form).to_string())
}

} // verus!
