//! Tests for the start-delay calculator.

use periodic::time::{ClockTime, StartTimeError};
use periodic::time::{get_start_delay_from_hh_mm, get_start_delay_from_next};

fn at(hour: u8, minute: u8, second: u8) -> ClockTime {
    ClockTime::new(hour, minute, second).unwrap()
}

#[test]
fn test_start_delay_next_hour_16_45_hour15() {
    let cur_time = at(16, 45, 0);
    match get_start_delay_from_next(&cur_time, "hour+15") {
        Ok(delay) => assert_eq!(delay, 1800),
        Err(e) => panic!("{}", e.message()),
    }
}

#[test]
fn test_start_delay_next_hour_22_45_hour15() {
    let cur_time = at(22, 45, 0);
    match get_start_delay_from_next(&cur_time, "hour+15") {
        Ok(delay) => assert_eq!(delay, 1800),
        Err(e) => panic!("{}", e.message()),
    }
}

#[test]
fn test_start_delay_next_hour_23_01_hour() {
    let cur_time = at(23, 1, 0);
    match get_start_delay_from_next(&cur_time, "hour") {
        Ok(delay) => assert_eq!(delay, 3540),
        Err(e) => panic!("{}", e.message()),
    }
}

#[test]
fn test_start_delay_next_hour_23_45_hour20() {
    let cur_time = at(23, 45, 0);
    match get_start_delay_from_next(&cur_time, "hour+20") {
        Ok(delay) => assert_eq!(delay, 2100),
        Err(e) => panic!("{}", e.message()),
    }
}

#[test]
fn test_start_delay_next_hour_23_45_hour() {
    let cur_time = at(23, 45, 0);
    match get_start_delay_from_next(&cur_time, "hour") {
        Ok(delay) => assert_eq!(delay, 900),
        Err(e) => panic!("{}", e.message()),
    }
}

#[test]
fn test_start_delay_next_hour_minute_not_reached() {
    // The requested minute is still ahead in this hour: the target is minute
    // 15, second 0, so the 30 seconds already elapsed shorten the delay.
    let cur_time = at(16, 10, 30);
    assert_eq!(get_start_delay_from_next(&cur_time, "hour+15"), Ok(270));
}

#[test]
fn test_start_delay_next_hour_at_requested_minute() {
    let cur_time = at(16, 15, 0);
    assert_eq!(get_start_delay_from_next(&cur_time, "hour+15"), Ok(0));
}

#[test]
fn test_start_delay_next_hour_just_past_requested_minute() {
    // At minute 15 with seconds already past second 0, the target lies 30
    // seconds behind "now"; the delay is the absolute difference.
    let cur_time = at(16, 15, 30);
    assert_eq!(get_start_delay_from_next(&cur_time, "hour+15"), Ok(30));
}

#[test]
fn test_start_delay_next_hour_counts_seconds() {
    // Past the requested minute: the target is minute 15, second 0, of the
    // next hour, so the 30 seconds already elapsed shorten the delay.
    let cur_time = at(16, 45, 30);
    assert_eq!(get_start_delay_from_next(&cur_time, "hour+15"), Ok(1770));
}

#[test]
fn test_start_delay_next_minute_not_reached() {
    let cur_time = at(23, 45, 30);
    assert_eq!(get_start_delay_from_next(&cur_time, "minute+45"), Ok(15));
}

#[test]
fn test_start_delay_next_minute_passed() {
    let cur_time = at(23, 45, 30);
    assert_eq!(get_start_delay_from_next(&cur_time, "minute"), Ok(30));
    assert_eq!(get_start_delay_from_next(&cur_time, "minute+10"), Ok(40));
}

#[test]
fn test_start_delay_next_rejects_malformed() {
    let cur_time = at(16, 45, 0);
    for bad in [
        "",
        "h",
        "Hour",
        "hourly",
        "hour+",
        "hour+155",
        "hour+1x",
        "minute+5x",
        "15",
        "every hour",
    ] {
        assert_eq!(
            get_start_delay_from_next(&cur_time, bad),
            Err(StartTimeError::InvalidFormat),
            "expected {bad:?} to be rejected",
        );
    }
}

#[test]
fn test_start_delay_hh_mm_later_today() {
    let now = at(9, 0, 0);
    assert_eq!(get_start_delay_from_hh_mm(&now, "10:30"), Ok(5400));
}

#[test]
fn test_start_delay_hh_mm_already_passed() {
    // 01:30 has passed today, so the target is 01:30 tomorrow.
    let now = at(23, 0, 0);
    assert_eq!(get_start_delay_from_hh_mm(&now, "01:30"), Ok(9000));
}

#[test]
fn test_start_delay_hh_mm_now_is_target() {
    let now = at(10, 30, 0);
    assert_eq!(get_start_delay_from_hh_mm(&now, "10:30"), Ok(0));
}

#[test]
fn test_start_delay_hh_mm_counts_seconds() {
    let now = at(10, 29, 30);
    assert_eq!(get_start_delay_from_hh_mm(&now, "10:30"), Ok(30));
}

#[test]
fn test_start_delay_hh_mm_rejects_out_of_range() {
    let now = at(9, 0, 0);
    assert_eq!(
        get_start_delay_from_hh_mm(&now, "99:99"),
        Err(StartTimeError::InvalidValues)
    );
    assert_eq!(
        get_start_delay_from_hh_mm(&now, "24:00"),
        Err(StartTimeError::InvalidValues)
    );
    assert_eq!(
        get_start_delay_from_hh_mm(&now, "23:60"),
        Err(StartTimeError::InvalidValues)
    );
}

#[test]
fn test_start_delay_hh_mm_rejects_malformed() {
    let now = at(9, 0, 0);
    for bad in ["", "9:30", "09-30", "0930", "09:3", "09:300", "ab:cd"] {
        assert_eq!(
            get_start_delay_from_hh_mm(&now, bad),
            Err(StartTimeError::InvalidFormat),
            "expected {bad:?} to be rejected",
        );
    }
}

#[test]
fn test_clock_time_rejects_out_of_range() {
    assert!(ClockTime::new(24, 0, 0).is_none());
    assert!(ClockTime::new(0, 60, 0).is_none());
    assert!(ClockTime::new(0, 0, 60).is_none());
    assert!(ClockTime::new(23, 59, 59).is_some());
}

#[test]
fn test_start_time_error_messages() {
    assert_eq!(
        StartTimeError::InvalidFormat.message(),
        "invalid format for start time"
    );
    assert_eq!(
        StartTimeError::InvalidValues.message(),
        "invalid values found in start time"
    );
}
