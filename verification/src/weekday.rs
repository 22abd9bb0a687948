//! The day of the week of a Julian Date, seen from a timezone.

use vstd::prelude::*;
use crate::arith::{
    floor_mod, lemma_mod_of_sum, lemma_truncated_quotient_in_sevens,
    lemma_truncated_quotient_of_multiple, lemma_truncated_quotient_step, truncated_quotient,
};
use crate::julian::{
    JulianDate, JULIAN_DAY_UNIX_EPOCH_WEEKDAY, MICROS_PER_DAY, MICROS_PER_SECOND,
    UNIX_EPOCH_MICROS,
};

verus! {

/// Microseconds in seven days.
const MICROS_PER_WEEK: i128 = 604_800_000_000;

/// The whole days from the Unix epoch to the Julian Date `julian`, in
/// microseconds, on a clock that is `offset_secs` seconds ahead of UTC. A
/// fraction of a day is cut off toward zero.
pub open spec fn days_since_unix_epoch(julian: int, offset_secs: int) -> int {
    truncated_quotient(julian + offset_secs * 1_000_000 - UNIX_EPOCH_MICROS, MICROS_PER_DAY as int)
}

/// The weekday index, 0 for Sunday to 6 for Saturday, of the Julian Date
/// `julian`, in microseconds, on a clock `offset_secs` seconds ahead of UTC:
/// the day count since the Unix epoch, reduced to the days of one week (for a
/// negative count too), counted on from the weekday of the Unix epoch.
pub open spec fn weekday_index_of(julian: int, offset_secs: int) -> int {
    (days_since_unix_epoch(julian, offset_secs) % 7 + JULIAN_DAY_UNIX_EPOCH_WEEKDAY) % 7
}

/// The weekday number, 1 for Monday to 7 for Sunday, that stands for the
/// weekday index `index`.
pub open spec fn weekday_number_of_index(index: int) -> int {
    if index == 0 {
        7
    } else {
        index
    }
}

/// The weekday index of a Julian Date at the timezone offset `offset_secs`, in
/// seconds east of UTC: 0 for Sunday, 1 for Monday, to 6 for Saturday.
///
/// The day is found from the whole days between the Unix epoch and the local
/// instant, a fraction of a day cut off toward zero.
pub fn julian_day_to_weekday_index(jd: JulianDate, offset_secs: i32) -> (index: u8)
    ensures
        index == weekday_index_of(jd@, offset_secs as int),
        index <= 6,
{
    let micros = jd.micros();
    // What is added to the Julian Date to count from the Unix epoch, local time.
    let shift: i128 = (offset_secs as i128) * MICROS_PER_SECOND - UNIX_EPOCH_MICROS;
    let ghost local: int = micros + shift;
    // The local instant's place in its week. The sum itself is never formed,
    // so that no Julian Date overflows.
    let place_sum = floor_mod(micros, MICROS_PER_WEEK) + floor_mod(shift, MICROS_PER_WEEK);
    let place = if place_sum >= MICROS_PER_WEEK {
        place_sum - MICROS_PER_WEEK
    } else {
        place_sum
    };
    let days_down = place / MICROS_PER_DAY;
    // Cut off toward zero, a negative count that is not whole is one more than
    // the count rounded down.
    let days_in_week = if micros < -shift && place % MICROS_PER_DAY != 0 {
        (days_down + 1) % 7
    } else {
        days_down
    };
    proof {
        lemma_mod_of_sum(micros as int, shift as int, MICROS_PER_WEEK as int);
        lemma_truncated_quotient_in_sevens(local, MICROS_PER_DAY as int);
        assert(days_in_week == days_since_unix_epoch(jd@, offset_secs as int) % 7);
    }
    ((days_in_week + JULIAN_DAY_UNIX_EPOCH_WEEKDAY as i128) % 7) as u8
}

/// The weekday number of a Julian Date at the timezone offset `offset_secs`,
/// in seconds east of UTC: 1 for Monday to 7 for Sunday, as ISO 8601 counts.
/// It is the weekday index, but for Sunday, which is 7.
pub fn julian_day_to_weekday_number(jd: JulianDate, offset_secs: i32) -> (number: u8)
    ensures
        number == weekday_number_of_index(weekday_index_of(jd@, offset_secs as int)),
        1 <= number <= 7,
{
    let index = julian_day_to_weekday_index(jd, offset_secs);
    if index == 0 {
        7
    } else {
        index
    }
}

/// An instant a whole number of days from the Unix epoch, before it or after
/// it, has the weekday that many days from Thursday.
pub proof fn lemma_weekday_of_whole_days(julian: int, offset_secs: int, days: int)
    requires
        julian + offset_secs * 1_000_000 == UNIX_EPOCH_MICROS + days * MICROS_PER_DAY,
    ensures
        days_since_unix_epoch(julian, offset_secs) == days,
        weekday_index_of(julian, offset_secs) == (days + 4) % 7,
{
    lemma_truncated_quotient_of_multiple(days, MICROS_PER_DAY as int);
}

/// From the Unix epoch on, a day later is the next weekday.
pub proof fn lemma_next_day_is_next_weekday(julian: int, offset_secs: int)
    requires
        julian + offset_secs * 1_000_000 >= UNIX_EPOCH_MICROS,
    ensures
        weekday_index_of(julian + MICROS_PER_DAY, offset_secs) == (weekday_index_of(
            julian,
            offset_secs,
        ) + 1) % 7,
{
    lemma_truncated_quotient_step(
        julian + offset_secs * 1_000_000 - UNIX_EPOCH_MICROS,
        MICROS_PER_DAY as int,
    );
}

/// The weekday number and the weekday index name the same day: they are equal
/// but where the index is 0 and the number 7.
pub proof fn lemma_weekday_number_matches_index(index: int)
    requires
        0 <= index <= 6,
    ensures
        1 <= weekday_number_of_index(index) <= 7,
        weekday_number_of_index(index) % 7 == index,
{
}

} // verus!
