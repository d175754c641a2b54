//! Small helpers for reading a plugin's own rows back when building a timeline.
//!
//! The descriptions a timeline carries are built from the same values the
//! plugin printed, but plainly: a number is written in decimal even where the
//! column shows it in hexadecimal.

use crate::renderers::{AbsentValue, Value};
use crate::text::{decimal, signed_decimal};
use vstd::prelude::*;

verus! {

/// A value as its plain text.
pub open spec fn plain_text(cell: crate::renderers::Cell) -> Seq<char> {
    match cell {
        crate::renderers::Cell::Absent(AbsentValue::NotAvailable) => "N/A"@,
        crate::renderers::Cell::Absent(AbsentValue::Unparsable) => "-"@,
        other => other.shown(),
    }
}

/// A number as its plain text.
pub open spec fn plain_number(cell: crate::renderers::Cell) -> Seq<char> {
    match cell {
        crate::renderers::Cell::Int(number, _) => crate::text::decimal_text(number as int),
        crate::renderers::Cell::UInt(number, _) => crate::text::decimal_text(number as int),
        other => plain_text(other),
    }
}

/// A value as its plain text, without the column's formatting.
///
/// An absent value is written the way its own class prints itself, which is
/// not always how the renderer shows it in a column: a value that was never
/// available prints as `N/A` here but as a dash in a table.
pub fn text(value: &Value) -> (written: String)
    ensures
        written@ == plain_text(value@),
{
    match value {
        Value::Absent(AbsentValue::NotAvailable) => "N/A".to_owned(),
        Value::Absent(AbsentValue::Unparsable) => "-".to_owned(),
        other => other.show(),
    }
}

/// A number in decimal, whatever base its column displays it in.
pub fn number(value: &Value) -> (written: String)
    ensures
        written@ == plain_number(value@),
{
    match value {
        Value::Int(number, _) => signed_decimal(*number),
        Value::UInt(number, _) => decimal(*number),
        other => text(other),
    }
}

/// Whether a value is a timestamp rather than an absent value.
pub fn is_time(value: &Value) -> (time: bool)
    ensures
        time == (value@ is Time),
{
    match value {
        Value::DateTime(_) => true,
        _ => false,
    }
}

} // verus!
