//! Conversions between Unix timestamps, Julian Dates and calendar date-times,
//! with weekday derivation and lenient parsing of partial ISO 8601 strings.
//!
//! A Julian Date is held exactly, as a count of microseconds since the Julian
//! epoch ([`JulianDate`]); the calendar is `chrono`'s, whose `NaiveDateTime` is
//! the date-time of this library.

pub mod arith;
pub mod chrono_bridge;
pub mod datetime;
pub mod fuzzy;
pub mod julian;
pub mod weekday;

pub use datetime::{julian_day_to_datetime, DateRangeConversionError, JulianDay, WeekdayIndex};
pub use fuzzy::{
    normalize_fuzzy_iso_string, DateParseError, FromFuzzyIsoString, CANONICAL_FORMAT,
};
pub use julian::{
    julian_day_to_unix_millis, julian_day_to_unixtime, unix_millis_to_julian_day,
    unixtime_to_julian_day, JulianDate, JULIAN_DAY_MAX_SUPPORTED, JULIAN_DAY_MIN_SUPPORTED,
    JULIAN_DAY_UNIX_EPOCH_DAYS, JULIAN_DAY_UNIX_EPOCH_WEEKDAY, MICROS_PER_DAY,
};
pub use weekday::{julian_day_to_weekday_index, julian_day_to_weekday_number};
