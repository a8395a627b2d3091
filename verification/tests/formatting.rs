use trident_bot::timefmt::{format_duration, format_start_time};

#[test]
fn clock_formatting() {
    // 3661 seconds = 1 hour, 1 minute, 1 second.
    assert_eq!(format_start_time(20 * 3661), "01:01:01.000");
}

#[test]
fn clock_formatting_zero() {
    assert_eq!(format_start_time(0), "00:00:00.000");
}

#[test]
fn clock_formatting_milliseconds() {
    // One tick is 50 milliseconds.
    assert_eq!(format_start_time(1), "00:00:00.050");
    assert_eq!(format_start_time(19), "00:00:00.950");
    assert_eq!(format_start_time(20 * 3661 + 3), "01:01:01.150");
}

#[test]
fn clock_formatting_wide_hours() {
    // Hours beyond two digits are printed in full.
    assert_eq!(format_start_time(100 * 72_000), "100:00:00.000");
    assert_eq!(format_start_time(59 * 1_200 + 59 * 20 + 19), "00:59:59.950");
}

#[test]
fn duration_phrase_singular_minute() {
    assert_eq!(format_duration(1_200), "1 minute");
}

#[test]
fn duration_phrase_plural_minutes() {
    assert_eq!(format_duration(2_400), "2 minutes");
}

#[test]
fn duration_phrase_all_components() {
    // 2 minutes, 30 seconds, 7 ticks.
    assert_eq!(format_duration(2 * 1_200 + 30 * 20 + 7), "2 minutes 30 seconds 7 ticks");
}

#[test]
fn duration_phrase_singular_components() {
    assert_eq!(format_duration(1_200 + 20 + 1), "1 minute 1 second 1 tick");
    assert_eq!(format_duration(21), "1 second 1 tick");
}

#[test]
fn duration_phrase_skips_zero_components() {
    assert_eq!(format_duration(1_201), "1 minute 1 tick");
    assert_eq!(format_duration(40), "2 seconds");
    assert_eq!(format_duration(13), "13 ticks");
    assert_eq!(format_duration(0), "");
}

#[test]
fn duration_phrase_counts_whole_minutes() {
    // An hour and a half is rendered in minutes.
    assert_eq!(format_duration(90 * 1_200), "90 minutes");
}
