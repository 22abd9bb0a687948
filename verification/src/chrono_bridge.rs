//! The date-time of the `chrono` crate, as far as this library relies on it.
//!
//! Nothing here is proved. `chrono::NaiveDateTime` is known by name only, each
//! function below calls `chrono` once, and its contract is taken on trust from
//! `chrono`'s source and documentation.

use vstd::prelude::*;
use chrono::NaiveDateTime;

verus! {

/// `chrono::NaiveDateTime`, a calendar date and time of day without a
/// timezone. Nothing is known of what a value holds.
#[verifier::external_type_specification]
#[verifier::external_body]
pub struct ExNaiveDateTime(chrono::NaiveDateTime);

/// `chrono::format::ParseError`, which says why a text was not parsed. Nothing
/// is known of what a value holds.
#[verifier::external_type_specification]
#[verifier::external_body]
pub struct ExParseError(chrono::format::ParseError);

/// The least Unix time in milliseconds that `chrono` makes a date-time of:
/// the start of 1 January of the year -262143, its `NaiveDate::MIN`.
pub const CHRONO_MIN_TIMESTAMP_MILLIS: i64 = -8_334_601_228_800_000;

/// The greatest Unix time in milliseconds that `chrono` makes a date-time of:
/// the last millisecond of 31 December of the year 262142, its
/// `NaiveDate::MAX`.
pub const CHRONO_MAX_TIMESTAMP_MILLIS: i64 = 8_210_266_876_799_999;

/// What `chrono` gives as the Unix time in milliseconds of `dt` read as UTC:
/// the result of `NaiveDateTime::and_utc` followed by
/// `DateTime::timestamp_millis`.
pub uninterp spec fn timestamp_millis_of(dt: NaiveDateTime) -> int;

/// What `chrono` makes of the Unix time `millis` in milliseconds: the result
/// of `DateTime::from_timestamp_millis`, as a `NaiveDateTime` in UTC, or `None`
/// where `chrono` does not represent the instant.
pub uninterp spec fn datetime_at_millis(millis: int) -> Option<NaiveDateTime>;

/// What `chrono` parses from `text` under the format `format`: the result of
/// `NaiveDateTime::parse_from_str`.
pub uninterp spec fn parsed_datetime(text: Seq<char>, format: Seq<char>) -> Result<
    NaiveDateTime,
    chrono::format::ParseError,
>;

/// Calls `NaiveDateTime::and_utc` and `DateTime::timestamp_millis`, which
/// computes the milliseconds from 1970-01-01T00:00:00 UTC to the date-time
/// from its fields alone. The contract only gives that result its name.
#[verifier::external_body]
pub(crate) fn datetime_timestamp_millis(dt: &NaiveDateTime) -> (millis: i64)
    ensures
        millis == timestamp_millis_of(*dt),
{
    dt.and_utc().timestamp_millis()
}

/// Calls `DateTime::from_timestamp_millis` and takes the result as a
/// `NaiveDateTime` by `DateTime::naive_utc`. The contract names the result and
/// claims two things of it. First, that a date-time made of `millis` has
/// `millis` as its Unix time in milliseconds: `chrono` documents the function
/// as guaranteed to round-trip with `timestamp_millis`. Second, that a
/// date-time is made of every `millis` from `CHRONO_MIN_TIMESTAMP_MILLIS` to
/// `CHRONO_MAX_TIMESTAMP_MILLIS`: `chrono` returns `None` only for a day
/// outside `NaiveDate::MIN` to `NaiveDate::MAX`.
#[verifier::external_body]
pub(crate) fn datetime_from_timestamp_millis(millis: i64) -> (dt: Option<NaiveDateTime>)
    ensures
        dt == datetime_at_millis(millis as int),
        dt matches Some(made) ==> timestamp_millis_of(made) == millis,
        CHRONO_MIN_TIMESTAMP_MILLIS <= millis <= CHRONO_MAX_TIMESTAMP_MILLIS ==> dt is Some,
{
    match chrono::DateTime::from_timestamp_millis(millis) {
        Some(utc) => Some(utc.naive_utc()),
        None => None,
    }
}

/// Calls `NaiveDateTime::parse_from_str`, which reads `text` under the
/// `strftime`-like `format` and fails with a `ParseError`, never with a panic.
/// The contract only gives the result its name.
#[verifier::external_body]
pub(crate) fn datetime_parse_from_str(text: &str, format: &str) -> (r: Result<
    NaiveDateTime,
    chrono::format::ParseError,
>)
    ensures
        r == parsed_datetime(text@, format@),
{
    NaiveDateTime::parse_from_str(text, format)
}

} // verus!
