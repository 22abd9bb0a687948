//! The Julian Date as an exact count of microseconds, and its conversions to
//! and from Unix time.
//!
//! A Julian Date is a count of days, with the time of day as its fraction. This
//! module holds it as a whole number of microseconds: a millionth of a day is
//! 86 400 of them and a millisecond is 1 000, so that the constants below, every
//! Unix timestamp and every sum of the two are met exactly.

use vstd::prelude::*;
use crate::arith::{
    lemma_truncated_quotient_bounds, lemma_truncated_quotient_of_multiple, saturated_i64,
    truncated_quotient,
};

verus! {

/// Microseconds in one millionth of a day.
pub const MICROS_PER_MICRODAY: i128 = 86_400;

/// Microseconds in one millisecond.
pub const MICROS_PER_MILLI: i128 = 1_000;

/// Microseconds in one second.
pub const MICROS_PER_SECOND: i128 = 1_000_000;

/// Microseconds in one day.
pub const MICROS_PER_DAY: i128 = 86_400_000_000;

/// The Julian Date of the Unix epoch, 1970-01-01T00:00:00 UTC, in millionths of
/// a day: day 2440587.5.
pub const JULIAN_DAY_UNIX_EPOCH_DAYS: i64 = 2_440_587_500_000;

/// The weekday index of the Unix epoch, a Thursday, where Sunday is 0.
pub const JULIAN_DAY_UNIX_EPOCH_WEEKDAY: u8 = 4;

/// The least Julian Date that converts to a date-time, in millionths of a day:
/// day -1930999.5, which is -9999-01-01T00:00:00 UTC.
pub const JULIAN_DAY_MIN_SUPPORTED: i64 = -1_930_999_500_000;

/// The greatest Julian Date that converts to a date-time, in millionths of a
/// day: day 5373484.499999, within the last second of 9999-12-31 UTC.
pub const JULIAN_DAY_MAX_SUPPORTED: i64 = 5_373_484_499_999;

/// `JULIAN_DAY_UNIX_EPOCH_DAYS` in microseconds.
pub const UNIX_EPOCH_MICROS: i128 = 210_866_760_000_000_000;

/// `JULIAN_DAY_MIN_SUPPORTED` in microseconds.
pub const MIN_SUPPORTED_MICROS: i128 = -166_838_356_800_000_000;

/// `JULIAN_DAY_MAX_SUPPORTED` in microseconds.
pub const MAX_SUPPORTED_MICROS: i128 = 464_269_060_799_913_600;

/// From this Julian Date on, in microseconds, the Unix time in milliseconds is
/// `i64::MAX` or does not fit an `i64`.
const UNIX_MILLIS_CEILING: i128 = 210_866_760_000_000_000 + 9_223_372_036_854_775_807 * 1_000;

/// Down from this Julian Date, in microseconds, the Unix time in milliseconds is
/// `i64::MIN` or does not fit an `i64`.
const UNIX_MILLIS_FLOOR: i128 = 210_866_760_000_000_000 - 9_223_372_036_854_775_808 * 1_000;

/// As `UNIX_MILLIS_CEILING`, for the Unix time in seconds.
const UNIX_SECONDS_CEILING: i128 = 210_866_760_000_000_000 + 9_223_372_036_854_775_807
    * 1_000_000;

/// As `UNIX_MILLIS_FLOOR`, for the Unix time in seconds.
const UNIX_SECONDS_FLOOR: i128 = 210_866_760_000_000_000 - 9_223_372_036_854_775_808
    * 1_000_000;

/// The microseconds in `microdays` millionths of a day.
pub open spec fn micros_of_microdays(microdays: int) -> int {
    microdays * 86_400
}

/// The Julian Date, in microseconds, of the Unix time `seconds`: the seconds
/// as days, added to the Julian Date of the Unix epoch.
pub open spec fn julian_of_unix_seconds(seconds: int) -> int {
    seconds * 1_000_000 + UNIX_EPOCH_MICROS
}

/// The Julian Date, in microseconds, of the Unix time `millis` in milliseconds.
pub open spec fn julian_of_unix_millis(millis: int) -> int {
    millis * 1_000 + UNIX_EPOCH_MICROS
}

/// The Unix time in seconds of the Julian Date `julian`, in microseconds: the
/// time since the Unix epoch, cut to whole seconds toward zero, and held to
/// the bounds of `i64`.
pub open spec fn unix_seconds_of_julian(julian: int) -> int {
    saturated_i64(truncated_quotient(julian - UNIX_EPOCH_MICROS, 1_000_000))
}

/// The Unix time in milliseconds of the Julian Date `julian`, in microseconds:
/// the time since the Unix epoch, cut to whole milliseconds toward zero, and
/// held to the bounds of `i64`.
pub open spec fn unix_millis_of_julian(julian: int) -> int {
    saturated_i64(truncated_quotient(julian - UNIX_EPOCH_MICROS, 1_000))
}

/// Whether the Julian Date `julian`, in microseconds, lies in the range that
/// converts to a date-time.
pub open spec fn is_supported(julian: int) -> bool {
    MIN_SUPPORTED_MICROS <= julian <= MAX_SUPPORTED_MICROS
}

/// A Julian Date: the time elapsed since the Julian epoch, noon of
/// 24 November -4713 (proleptic Gregorian, UTC), counted in microseconds.
/// Its view is that count.
#[derive(Clone, Copy, Debug, PartialEq, Eq, Structural)]
pub struct JulianDate {
    micros: i128,
}

impl View for JulianDate {
    type V = int;

    closed spec fn view(&self) -> int {
        self.micros as int
    }
}

impl JulianDate {
    /// The Julian Date `micros` microseconds after the Julian epoch.
    pub fn from_micros(micros: i128) -> (jd: JulianDate)
        ensures
            jd@ == micros,
    {
        JulianDate { micros }
    }

    /// The Julian Date `microdays` millionths of a day after the Julian epoch:
    /// day 2459827.25 is `from_microdays(2_459_827_250_000)`.
    pub fn from_microdays(microdays: i64) -> (jd: JulianDate)
        ensures
            jd@ == micros_of_microdays(microdays as int),
    {
        JulianDate { micros: (microdays as i128) * MICROS_PER_MICRODAY }
    }

    /// The microseconds from the Julian epoch to this Julian Date.
    pub fn micros(&self) -> (micros: i128)
        ensures
            micros == self@,
    {
        self.micros
    }

    /// Whether this Julian Date lies in the range that converts to a
    /// date-time: from `JULIAN_DAY_MIN_SUPPORTED` to `JULIAN_DAY_MAX_SUPPORTED`,
    /// both included.
    pub fn is_supported(&self) -> (supported: bool)
        ensures
            supported == is_supported(self@),
    {
        MIN_SUPPORTED_MICROS <= self.micros && self.micros <= MAX_SUPPORTED_MICROS
    }

    /// Two Julian Dates with the same count of microseconds are the same.
    pub proof fn lemma_view_is_injective(self, other: JulianDate)
        ensures
            self@ == other@ <==> self == other,
    {
    }
}

/// The Julian Date of the Unix time `seconds`. No `i64` is refused.
pub fn unixtime_to_julian_day(seconds: i64) -> (jd: JulianDate)
    ensures
        jd@ == julian_of_unix_seconds(seconds as int),
{
    JulianDate { micros: (seconds as i128) * MICROS_PER_SECOND + UNIX_EPOCH_MICROS }
}

/// The Julian Date of the Unix time `millis` in milliseconds. No `i64` is
/// refused.
pub fn unix_millis_to_julian_day(millis: i64) -> (jd: JulianDate)
    ensures
        jd@ == julian_of_unix_millis(millis as int),
{
    JulianDate { micros: (millis as i128) * MICROS_PER_MILLI + UNIX_EPOCH_MICROS }
}

/// The Unix time in seconds of a Julian Date. A fraction of a second is cut
/// off toward zero, so before the Unix epoch the result is the second after
/// the instant, not the one before it. A Julian Date beyond what an `i64` of
/// seconds reaches gives the nearest bound of `i64`.
pub fn julian_day_to_unixtime(jd: JulianDate) -> (seconds: i64)
    ensures
        seconds == unix_seconds_of_julian(jd@),
{
    if jd.micros >= UNIX_SECONDS_CEILING {
        i64::MAX
    } else if jd.micros <= UNIX_SECONDS_FLOOR {
        i64::MIN
    } else {
        ((jd.micros - UNIX_EPOCH_MICROS) / MICROS_PER_SECOND) as i64
    }
}

/// The Unix time in milliseconds of a Julian Date. A fraction of a millisecond
/// is cut off toward zero. A Julian Date beyond what an `i64` of milliseconds
/// reaches gives the nearest bound of `i64`.
pub fn julian_day_to_unix_millis(jd: JulianDate) -> (millis: i64)
    ensures
        millis == unix_millis_of_julian(jd@),
{
    if jd.micros >= UNIX_MILLIS_CEILING {
        i64::MAX
    } else if jd.micros <= UNIX_MILLIS_FLOOR {
        i64::MIN
    } else {
        ((jd.micros - UNIX_EPOCH_MICROS) / MICROS_PER_MILLI) as i64
    }
}

/// The constants in microseconds are the constants in millionths of a day.
pub proof fn lemma_constants_agree()
    ensures
        UNIX_EPOCH_MICROS == micros_of_microdays(JULIAN_DAY_UNIX_EPOCH_DAYS as int),
        MIN_SUPPORTED_MICROS == micros_of_microdays(JULIAN_DAY_MIN_SUPPORTED as int),
        MAX_SUPPORTED_MICROS == micros_of_microdays(JULIAN_DAY_MAX_SUPPORTED as int),
        MICROS_PER_DAY == micros_of_microdays(1_000_000),
        MICROS_PER_DAY == 86_400 * MICROS_PER_SECOND,
        MICROS_PER_SECOND == 1_000 * MICROS_PER_MILLI,
{
}

/// A Unix time in seconds, taken to a Julian Date and back, is unchanged.
pub proof fn lemma_unix_seconds_round_trip(seconds: int)
    requires
        i64::MIN <= seconds <= i64::MAX,
    ensures
        unix_seconds_of_julian(julian_of_unix_seconds(seconds)) == seconds,
{
    lemma_truncated_quotient_of_multiple(seconds, 1_000_000);
}

/// A Unix time in milliseconds, taken to a Julian Date and back, is unchanged.
pub proof fn lemma_unix_millis_round_trip(millis: int)
    requires
        i64::MIN <= millis <= i64::MAX,
    ensures
        unix_millis_of_julian(julian_of_unix_millis(millis)) == millis,
{
    lemma_truncated_quotient_of_multiple(millis, 1_000);
}

/// A Julian Date in the supported range has a Unix time in milliseconds that
/// no bound of `i64` has changed, less than a millisecond from it toward the
/// Unix epoch.
pub proof fn lemma_supported_unix_millis(julian: int)
    requires
        is_supported(julian),
    ensures
        -377_705_116_800_000 <= unix_millis_of_julian(julian) <= 253_402_300_799_913,
        unix_millis_of_julian(julian) == truncated_quotient(julian - UNIX_EPOCH_MICROS, 1_000),
        julian >= UNIX_EPOCH_MICROS ==> 0 <= julian - julian_of_unix_millis(
            unix_millis_of_julian(julian),
        ) < 1_000,
        julian <= UNIX_EPOCH_MICROS ==> 0 <= julian_of_unix_millis(unix_millis_of_julian(julian))
            - julian < 1_000,
{
    lemma_truncated_quotient_bounds(julian - UNIX_EPOCH_MICROS, 1_000);
}

} // verus!
