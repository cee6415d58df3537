//! Clock text and RFC 3339 time-of-day reading.

use ironvein_client::timefmt::clock_of_millis;
use ironvein_client::timefmt::clock_text;
use ironvein_client::timefmt::now_millis;
use ironvein_client::timefmt::rfc3339_clock;
use ironvein_client::timefmt::stamp_clock;

#[test]
fn clock_text_pads_to_two_digits() {
    assert_eq!(clock_text(1, 2, 3, 4), "01:02:03.04");
    assert_eq!(clock_text(23, 59, 59, 99), "23:59:59.99");
    assert_eq!(clock_text(0, 0, 0, 0), "00:00:00.00");
}

#[test]
fn clock_of_millis_reads_utc_time_of_day() {
    assert_eq!(clock_of_millis(45_296_780), (12, 34, 56, 78));
    assert_eq!(clock_of_millis(0), (0, 0, 0, 0));
    // one full day later, the clock face is the same
    assert_eq!(clock_of_millis(45_296_780 + 86_400_000), (12, 34, 56, 78));
}

#[test]
fn rfc3339_utc_timestamps() {
    assert_eq!(rfc3339_clock("2023-05-01T10:02:03.456Z"), Some((10, 2, 3, 45)));
    assert_eq!(rfc3339_clock("2023-05-01T10:02:03Z"), Some((10, 2, 3, 0)));
    assert_eq!(rfc3339_clock("2023-05-01t10:02:03.4z"), Some((10, 2, 3, 40)));
    assert_eq!(rfc3339_clock("2023-05-01 10:02:03.999999Z"), Some((10, 2, 3, 99)));
}

#[test]
fn rfc3339_offsets_shift_into_utc() {
    assert_eq!(rfc3339_clock("2023-05-01T10:02:03.456+02:30"), Some((7, 32, 3, 45)));
    assert_eq!(rfc3339_clock("2023-05-01T10:02:03-01:15"), Some((11, 17, 3, 0)));
    // wrapping across midnight keeps the time of day
    assert_eq!(rfc3339_clock("2023-05-01T01:00:00+03:00"), Some((22, 0, 0, 0)));
    assert_eq!(rfc3339_clock("2023-05-01T23:30:00-01:00"), Some((0, 30, 0, 0)));
}

#[test]
fn rfc3339_rejects_malformed_timestamps() {
    for bad in [
        "",
        "2023-05-01",
        "2023-05-01T10:02:03",
        "2023-13-01T10:02:03Z",
        "2023-00-01T10:02:03Z",
        "2023-02-29T10:02:03Z",
        "2023-04-31T10:02:03Z",
        "2023-05-01T24:02:03Z",
        "2023-05-01T10:60:03Z",
        "2023-05-01T10:02:60Z",
        "2023-05-01T10:02:03.Z",
        "2023-05-01T10:02:03+25:00",
        "2023-05-01T10:02:03+02:60",
        "2023-05-01T10:02:03Zx",
        "not a date",
    ] {
        assert_eq!(rfc3339_clock(bad), None, "case: {bad}");
    }
    // a leap day of a leap year is a real date
    assert_eq!(rfc3339_clock("2024-02-29T10:02:03Z"), Some((10, 2, 3, 0)));
    assert_eq!(rfc3339_clock("2000-02-29T10:02:03Z"), Some((10, 2, 3, 0)));
    assert_eq!(rfc3339_clock("1900-02-29T10:02:03Z"), None);
}

#[test]
fn stamp_clock_prefers_the_timestamp_and_falls_back_to_now() {
    assert_eq!(
        stamp_clock(&Some("2023-05-01T10:02:03.456Z".to_string()), 45_296_780),
        "10:02:03.45"
    );
    assert_eq!(stamp_clock(&Some("not a date".to_string()), 45_296_780), "12:34:56.78");
    assert_eq!(stamp_clock(&None, 45_296_780), "12:34:56.78");
}

#[test]
fn now_millis_is_after_the_epoch() {
    // the clock of this machine stands well after 2020
    assert!(now_millis() > 1_577_836_800_000);
}
