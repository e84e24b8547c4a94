use notmux::ui_helpers::{capitalize_first, format_api_timestamp, format_api_timestamp_utc};

#[test]
fn test_format_api_timestamp_valid() {
    let result = format_api_timestamp("2026-03-27T06:59:00.000Z");
    // Should contain date, time, and a timezone label
    assert!(result.contains("Mar"), "Expected month name, got: {}", result);
    assert!(result.contains(':'), "Expected HH:MM, got: {}", result);
    assert!(result.contains(','), "Expected 'Mon D, YYYY' format, got: {}", result);
    assert!(result.contains('-'), "Expected date-time separator, got: {}", result);
}

#[test]
fn test_format_api_timestamp_utc_fallback() {
    let result = format_api_timestamp_utc("2026-03-27T11:21:00.000Z");
    assert_eq!(result, "Mar 27, 2026 - 11:21 UTC");
}

#[test]
fn test_format_api_timestamp_invalid() {
    assert_eq!(format_api_timestamp("garbage"), "garbage");
    assert_eq!(format_api_timestamp("no-T-separator"), "no-T-separator");
}

#[test]
fn utc_label_pads_nothing_in_the_day() {
    assert_eq!(format_api_timestamp_utc("2024-01-05T09:03:00Z"), "Jan 5, 2024 - 09:03 UTC");
    assert_eq!(format_api_timestamp_utc("not a time"), "not a time");
}

#[test]
fn capitalize_first_uppercases_only_the_first_letter() {
    assert_eq!(capitalize_first("hello world"), "Hello world");
    assert_eq!(capitalize_first(""), "");
    assert_eq!(capitalize_first("Already"), "Already");
    assert_eq!(capitalize_first("1abc"), "1abc");
    assert_eq!(capitalize_first("ßtraße"), "SStraße");
}
