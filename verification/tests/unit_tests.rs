use chrono::{NaiveDate, NaiveDateTime, NaiveTime};
use julian_day_converter::{FromFuzzyIsoString, JulianDate, JulianDay, WeekdayIndex};

fn wrong_datetime() -> NaiveDateTime {
    NaiveDateTime::new(
        NaiveDate::from_ymd_opt(1970, 1, 1).unwrap(),
        NaiveTime::from_hms_opt(0, 0, 0).unwrap(),
    )
}

#[test]
fn tests_test_basic_date() {
    // Day 2459827.25
    let julian_day = JulianDate::from_microdays(2_459_827_250_000);
    let expected_datetime_utc = "2022-09-04T18:00:00";
    let result = NaiveDateTime::from_jd(julian_day);
    let formatted_datetime =
        result.unwrap_or(wrong_datetime()).format("%Y-%m-%dT%H:%M:%S").to_string();
    assert_eq!(formatted_datetime, expected_datetime_utc.to_string());
}

#[test]
fn test_julian_day() {
    // Day 2459827.25
    let expected_julian_day = JulianDate::from_microdays(2_459_827_250_000);
    let datetime_utc = "2022-09-04T18:00:00";
    let dt = NaiveDateTime::from_fuzzy_iso_string(datetime_utc).unwrap_or(wrong_datetime());
    assert_eq!(dt.to_jd(), expected_julian_day);
    assert_eq!(dt.to_jd().micros() as f64 / 86_400_000_000.0, 2459827.25);
}

#[test]
fn tests_test_first_julian_day() {
    let julian_day = JulianDate::from_microdays(0);
    let expected_datetime_utc = "-4713-11-24T12:00:00"; // BCE
    let result = NaiveDateTime::from_jd(julian_day);
    let formatted_datetime =
        result.unwrap_or(wrong_datetime()).format("%Y-%m-%dT%H:%M:%S").to_string();
    assert_eq!(formatted_datetime, expected_datetime_utc.to_string());
}

#[test]
fn tests_test_weekday_index() {
    let expected_weekday_index = 0; // Sunday = 0
    let datetime_utc = "2022-09-04T18:00:00"; // Sunday
    let dt = NaiveDateTime::from_fuzzy_iso_string(datetime_utc).unwrap_or(wrong_datetime());
    // Default to UTC
    assert_eq!(dt.weekday_index(0), expected_weekday_index);
    // Should be the next day at UTC+10 (e.g. Australia)
    assert_eq!(dt.weekday_index(36000), expected_weekday_index + 1);
}

#[test]
fn test_fuzzy_datetime() {
    let input_datetime_utc = "2022-09-04 18";
    let expected_datetime_utc = "2022-09-04T18:00:00";
    let dt = NaiveDateTime::from_fuzzy_iso_string(input_datetime_utc).unwrap_or(wrong_datetime());
    let formatted_datetime = dt.format("%Y-%m-%dT%H:%M:%S").to_string();
    assert_eq!(formatted_datetime, expected_datetime_utc.to_owned());
}
