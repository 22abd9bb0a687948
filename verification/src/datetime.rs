//! Julian Dates to date-times and back, and the weekday of a date-time.

use vstd::prelude::*;
use chrono::NaiveDateTime;
use crate::chrono_bridge::{
    datetime_at_millis, datetime_from_timestamp_millis, datetime_timestamp_millis,
    timestamp_millis_of,
};
use crate::julian::{
    is_supported, julian_day_to_unix_millis, julian_of_unix_millis, lemma_supported_unix_millis,
    lemma_unix_millis_round_trip, unix_millis_of_julian, unix_millis_to_julian_day, JulianDate,
};
use crate::weekday::{
    julian_day_to_weekday_index, julian_day_to_weekday_number, weekday_index_of,
    weekday_number_of_index,
};

verus! {

/// The error of a Julian Date that does not convert to a date-time: it lies
/// outside the supported range.
#[derive(Clone, Copy, Debug, PartialEq, Eq, Structural)]
pub struct DateRangeConversionError;

impl DateRangeConversionError {
    /// The error in words.
    pub fn to_string(&self) -> (message: String)
        ensures
            message@
                == "DateRangeConversionError: The provided Julian Day is out of the supported range."@,
    {
        "DateRangeConversionError: The provided Julian Day is out of the supported range.".to_owned()
    }
}

/// The Julian Date, in microseconds, of the date-time `dt` read as UTC.
pub open spec fn julian_of_datetime(dt: NaiveDateTime) -> int {
    julian_of_unix_millis(timestamp_millis_of(dt))
}

/// The date-time of the Julian Date `julian`, in microseconds: outside the
/// supported range an error, within it the date-time that `chrono` makes of
/// the Unix time in milliseconds, or the same error where it makes none.
pub open spec fn datetime_of_julian(julian: int) -> Result<
    NaiveDateTime,
    DateRangeConversionError,
> {
    if is_supported(julian) {
        match datetime_at_millis(unix_millis_of_julian(julian)) {
            Some(dt) => Ok(dt),
            None => Err(DateRangeConversionError),
        }
    } else {
        Err(DateRangeConversionError)
    }
}

/// What holds of the result `r` of converting the Julian Date `julian`, in
/// microseconds, to a date-time: it is `datetime_of_julian(julian)`; it is a
/// date-time exactly where `julian` is in the supported range; and the
/// date-time has the Unix time in milliseconds of `julian`.
pub open spec fn is_datetime_of_julian(
    julian: int,
    r: Result<NaiveDateTime, DateRangeConversionError>,
) -> bool {
    &&& r == datetime_of_julian(julian)
    &&& r is Ok <==> is_supported(julian)
    &&& r matches Ok(dt) ==> timestamp_millis_of(dt) == unix_millis_of_julian(julian)
}

/// The date-time, in UTC, of a Julian Date from `JULIAN_DAY_MIN_SUPPORTED` to
/// `JULIAN_DAY_MAX_SUPPORTED`, to the millisecond: what is left of a
/// millisecond is cut off toward the Unix epoch. Any other Julian Date is an
/// error.
pub fn julian_day_to_datetime(jd: JulianDate) -> (r: Result<
    NaiveDateTime,
    DateRangeConversionError,
>)
    ensures
        is_datetime_of_julian(jd@, r),
{
    if jd.is_supported() {
        proof {
            lemma_supported_unix_millis(jd@);
        }
        let millis = julian_day_to_unix_millis(jd);
        match datetime_from_timestamp_millis(millis) {
            Some(dt) => Ok(dt),
            None => Err(DateRangeConversionError),
        }
    } else {
        Err(DateRangeConversionError)
    }
}

/// A date-time that has a Julian Date and is made from one.
pub trait JulianDay: Sized {
    /// The Julian Date of this date-time, in microseconds.
    spec fn julian_micros(&self) -> int;

    /// The date-time of the Julian Date `micros`, in microseconds, if it has
    /// one.
    spec fn at_julian_micros(micros: int) -> Option<Self>;

    /// The Julian Date of this date-time.
    fn to_jd(&self) -> (jd: JulianDate)
        ensures
            jd@ == self.julian_micros(),
    ;

    /// The date-time of a Julian Date, or `None` where it has none.
    fn from_jd(jd: JulianDate) -> (r: Option<Self>)
        ensures
            r == Self::at_julian_micros(jd@),
    ;
}

impl JulianDay for NaiveDateTime {
    open spec fn julian_micros(&self) -> int {
        julian_of_datetime(*self)
    }

    open spec fn at_julian_micros(micros: int) -> Option<NaiveDateTime> {
        match datetime_of_julian(micros) {
            Ok(dt) => Some(dt),
            Err(_) => None,
        }
    }

    /// The Julian Date of this date-time read as UTC, exact to the
    /// millisecond; what the date-time holds below a millisecond is left out.
    /// No date-time is refused, whether in the supported range or not.
    fn to_jd(&self) -> (jd: JulianDate) {
        unix_millis_to_julian_day(datetime_timestamp_millis(self))
    }

    /// The date-time of a Julian Date in the supported range, as
    /// `julian_day_to_datetime` gives it, and `None` for any other.
    fn from_jd(jd: JulianDate) -> (r: Option<NaiveDateTime>)
        ensures
            r is Some <==> is_supported(jd@),
            r matches Some(dt) ==> timestamp_millis_of(dt) == unix_millis_of_julian(jd@),
    {
        match julian_day_to_datetime(jd) {
            Ok(dt) => Some(dt),
            Err(_) => None,
        }
    }
}

/// A date-time that has a day of the week.
pub trait WeekdayIndex {
    /// The weekday index of this date-time on a clock `offset_secs` seconds
    /// ahead of its own: 0 for Sunday to 6 for Saturday.
    spec fn weekday_index_at(&self, offset_secs: int) -> int;

    /// The weekday index at the timezone offset `offset_secs`, in seconds east
    /// of UTC (negative to the west): 0 for Sunday, 1 for Monday, to 6 for
    /// Saturday.
    fn weekday_index(&self, offset_secs: i32) -> (index: u8)
        ensures
            index == self.weekday_index_at(offset_secs as int),
            index <= 6,
    ;

    /// The weekday number at the timezone offset `offset_secs`, as ISO 8601
    /// counts: 1 for Monday to 7 for Sunday.
    fn weekday_number(&self, offset_secs: i32) -> (number: u8)
        ensures
            number == weekday_number_of_index(self.weekday_index_at(offset_secs as int)),
            1 <= number <= 7,
    ;
}

impl WeekdayIndex for NaiveDateTime {
    open spec fn weekday_index_at(&self, offset_secs: int) -> int {
        weekday_index_of(julian_of_datetime(*self), offset_secs)
    }

    fn weekday_index(&self, offset_secs: i32) -> (index: u8) {
        julian_day_to_weekday_index(self.to_jd(), offset_secs)
    }

    fn weekday_number(&self, offset_secs: i32) -> (number: u8) {
        julian_day_to_weekday_number(self.to_jd(), offset_secs)
    }
}

/// A date-time within the supported range, taken to its Julian Date and from
/// there back to a date-time, comes back, and to the millisecond: whatever
/// `julian_day_to_datetime` returns for the Julian Date of `dt` is a date-time
/// with the Unix time in milliseconds of `dt`.
pub proof fn lemma_datetime_round_trip(
    dt: NaiveDateTime,
    back: Result<NaiveDateTime, DateRangeConversionError>,
)
    requires
        is_supported(julian_of_datetime(dt)),
        is_datetime_of_julian(julian_of_datetime(dt), back),
    ensures
        back matches Ok(same) && timestamp_millis_of(same) == timestamp_millis_of(dt),
{
    lemma_supported_unix_millis(julian_of_datetime(dt));
    lemma_unix_millis_round_trip(timestamp_millis_of(dt));
}

/// Converting the Julian Date of a date-time hands `chrono` the Unix time that
/// `chrono` gave for the date-time: within the supported range the way through
/// the Julian Date loses nothing.
pub proof fn lemma_julian_of_datetime_keeps_millis(dt: NaiveDateTime)
    requires
        is_supported(julian_of_datetime(dt)),
    ensures
        unix_millis_of_julian(julian_of_datetime(dt)) == timestamp_millis_of(dt),
        datetime_of_julian(julian_of_datetime(dt)) == (match datetime_at_millis(
            timestamp_millis_of(dt),
        ) {
            Some(same) => Ok::<NaiveDateTime, DateRangeConversionError>(same),
            None => Err(DateRangeConversionError),
        }),
{
    lemma_supported_unix_millis(julian_of_datetime(dt));
    lemma_unix_millis_round_trip(timestamp_millis_of(dt));
}

} // verus!
