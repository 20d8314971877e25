//! Choosing a column type from one sample value.

use vstd::prelude::*;
use crate::numeric::{is_float, is_float_text, is_integer, is_integer_text};
use crate::sql_type::SqlType;
use crate::text::{chars_of, eq_ignoring_case, same_chars_ignoring_case};

verus! {

/// Whether `chrono::DateTime::parse_from_rfc3339` accepts the text `s`.
pub uninterp spec fn rfc3339_accepts(s: Seq<char>) -> bool;

/// Whether `chrono::NaiveDate::parse_from_str` accepts the text `s` under
/// the format `fmt`.
pub uninterp spec fn date_format_accepts(s: Seq<char>, fmt: Seq<char>) -> bool;

/// Calls `chrono::DateTime::parse_from_rfc3339` and tells whether it
/// returned a date and time. The outcome depends on the text alone; what the
/// parser accepts is not stated here.
#[verifier::external_body]
fn parses_as_rfc3339(s: &str) -> (accepted: bool)
    ensures
        accepted == rfc3339_accepts(s@),
{
    chrono::DateTime::parse_from_rfc3339(s).is_ok()
}

/// Calls `chrono::NaiveDate::parse_from_str` and tells whether it returned
/// a date. The outcome depends on the text and the format alone; what the
/// parser accepts is not stated here.
#[verifier::external_body]
fn parses_as_date(s: &str, fmt: &str) -> (accepted: bool)
    ensures
        accepted == date_format_accepts(s@, fmt@),
{
    chrono::NaiveDate::parse_from_str(s, fmt).is_ok()
}

/// Whether `s` is `true` or `false`, in any mixture of cases.
pub open spec fn is_boolean_text(s: Seq<char>) -> bool {
    eq_ignoring_case(s, "true"@) || eq_ignoring_case(s, "false"@)
}

/// The type of a value, given which readings of it succeed. The first
/// reading that succeeds decides, in this order: integer, floating-point
/// number, date and time, calendar date, boolean. Where none succeeds the
/// value is text.
pub open spec fn classified(
    integer: bool,
    float: bool,
    date_time: bool,
    date: bool,
    boolean: bool,
) -> SqlType {
    if integer {
        SqlType::Integer
    } else if float {
        SqlType::Float
    } else if date_time {
        SqlType::IsoDateTime
    } else if date {
        SqlType::NaiveDate
    } else if boolean {
        SqlType::Boolean
    } else {
        SqlType::String
    }
}

/// The type inferred for the sample value `s`.
pub open spec fn inferred(s: Seq<char>) -> SqlType {
    classified(
        is_integer_text(s),
        is_float_text(s),
        rfc3339_accepts(s),
        date_format_accepts(s, "%Y-%m-%d"@),
        is_boolean_text(s),
    )
}

/// The type of a value, given which readings of it succeed.
pub fn classify(integer: bool, float: bool, date_time: bool, date: bool, boolean: bool) -> (ty:
    SqlType)
    ensures
        ty == classified(integer, float, date_time, date, boolean),
{
    if integer {
        SqlType::Integer
    } else if float {
        SqlType::Float
    } else if date_time {
        SqlType::IsoDateTime
    } else if date {
        SqlType::NaiveDate
    } else if boolean {
        SqlType::Boolean
    } else {
        SqlType::String
    }
}

/// Whether `text` is `true` or `false`, in any mixture of cases.
pub fn is_boolean(text: &Vec<char>) -> (b: bool)
    ensures
        b == is_boolean_text(text@),
{
    let yes = chars_of("true");
    let no = chars_of("false");
    same_chars_ignoring_case(text, &yes) || same_chars_ignoring_case(text, &no)
}

/// The type inferred for the sample value `val`.
pub fn determine_sql_type(val: &str) -> (ty: SqlType)
    ensures
        ty == inferred(val@),
{
    let text = chars_of(val);
    classify(
        is_integer(&text),
        is_float(&text),
        parses_as_rfc3339(val),
        parses_as_date(val, "%Y-%m-%d"),
        is_boolean(&text),
    )
}

} // verus!
