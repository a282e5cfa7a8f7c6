//! Tests of the date and time pattern cascades.

use tz_rust::civil::{CivilDate, CivilTime};
use tz_rust::dateparse::try_parse_date;
use tz_rust::timeparse::try_parse_time;

fn chars(s: &str) -> Vec<char> {
    s.chars().collect()
}

fn time(h: u8, m: u8, s: u8) -> CivilTime {
    CivilTime { hour: h, minute: m, second: s }
}

fn date(y: u16, m: u8, d: u8) -> CivilDate {
    CivilDate { year: y, month: m, day: d }
}

#[test]
fn time_full_hms() {
    assert_eq!(try_parse_time(&chars("14:30:05")), Some(time(14, 30, 5)));
    assert_eq!(try_parse_time(&chars("0:0:0")), Some(time(0, 0, 0)));
    assert_eq!(try_parse_time(&chars("23:59:59")), Some(time(23, 59, 59)));
    assert_eq!(try_parse_time(&chars("24:00:00")), None);
    assert_eq!(try_parse_time(&chars("12:60:00")), None);
}

#[test]
fn time_hm() {
    assert_eq!(try_parse_time(&chars("14:30")), Some(time(14, 30, 0)));
    assert_eq!(try_parse_time(&chars("8:5")), Some(time(8, 5, 0)));
    assert_eq!(try_parse_time(&chars("24:00")), None);
}

#[test]
fn time_bare_four_digit() {
    assert_eq!(try_parse_time(&chars("1430")), Some(time(14, 30, 0)));
    assert_eq!(try_parse_time(&chars("0000")), Some(time(0, 0, 0)));
    assert_eq!(try_parse_time(&chars("2460")), None);
    assert_eq!(try_parse_time(&chars("830")), None);
    assert_eq!(try_parse_time(&chars("143000")), None);
}

#[test]
fn time_twelve_hour() {
    assert_eq!(try_parse_time(&chars("8:25am")), Some(time(8, 25, 0)));
    assert_eq!(try_parse_time(&chars("8:25pm")), Some(time(20, 25, 0)));
    assert_eq!(try_parse_time(&chars("12:00am")), Some(time(0, 0, 0)));
    assert_eq!(try_parse_time(&chars("12:00pm")), Some(time(12, 0, 0)));
    assert_eq!(try_parse_time(&chars("1:02:03pm")), Some(time(13, 2, 3)));
    assert_eq!(try_parse_time(&chars("0:30am")), None);
    assert_eq!(try_parse_time(&chars("13:30pm")), None);
}

#[test]
fn time_bare_hour_suffix() {
    assert_eq!(try_parse_time(&chars("8am")), Some(time(8, 0, 0)));
    assert_eq!(try_parse_time(&chars("8PM")), Some(time(20, 0, 0)));
    assert_eq!(try_parse_time(&chars("12am")), Some(time(0, 0, 0)));
    assert_eq!(try_parse_time(&chars("12pm")), Some(time(12, 0, 0)));
    assert_eq!(try_parse_time(&chars("13am")), None);
    assert_eq!(try_parse_time(&chars("am")), None);
    // non-ASCII input is rejected at the fallback stage
    assert_eq!(try_parse_time(&chars("\u{FF18}am")), None);
}

#[test]
fn time_rejects_plain_words() {
    assert_eq!(try_parse_time(&chars("noon")), None);
    assert_eq!(try_parse_time(&chars("")), None);
    assert_eq!(try_parse_time(&chars("8")), None);
}

#[test]
fn date_month_day_gets_current_year() {
    assert_eq!(try_parse_date(&chars("11-12"), 2024), Some(date(2024, 11, 12)));
    assert_eq!(try_parse_date(&chars("1-2"), 2024), Some(date(2024, 1, 2)));
    assert_eq!(try_parse_date(&chars("11/12"), 2024), Some(date(2024, 11, 12)));
    assert_eq!(try_parse_date(&chars("13-01"), 2024), None);
}

#[test]
fn date_four_digit_year() {
    assert_eq!(try_parse_date(&chars("2023-12-10"), 2024), Some(date(2023, 12, 10)));
    assert_eq!(try_parse_date(&chars("2023/12/10"), 2024), Some(date(2023, 12, 10)));
    assert_eq!(try_parse_date(&chars("2023-2-30"), 2024), None);
}

#[test]
fn date_two_digit_year_pivot() {
    assert_eq!(try_parse_date(&chars("99-2-28"), 2024), Some(date(1999, 2, 28)));
    assert_eq!(try_parse_date(&chars("68-1-1"), 2024), Some(date(2068, 1, 1)));
    assert_eq!(try_parse_date(&chars("69-1-1"), 2024), Some(date(1969, 1, 1)));
    assert_eq!(try_parse_date(&chars("11-12-13"), 2024), Some(date(2011, 12, 13)));
}

#[test]
fn date_leap_years() {
    assert_eq!(try_parse_date(&chars("2024-2-29"), 2024), Some(date(2024, 2, 29)));
    assert_eq!(try_parse_date(&chars("2023-2-29"), 2024), None);
    assert_eq!(try_parse_date(&chars("2000-2-29"), 2024), Some(date(2000, 2, 29)));
    assert_eq!(try_parse_date(&chars("1900-2-29"), 2024), None);
}

#[test]
fn date_rejects_times_and_words() {
    assert_eq!(try_parse_date(&chars("14:30"), 2024), None);
    assert_eq!(try_parse_date(&chars("utc"), 2024), None);
    assert_eq!(try_parse_date(&chars(""), 2024), None);
}
