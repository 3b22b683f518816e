use geolite_db::freshness::{needs_update, MarkerFile, REFRESH_INTERVAL_SECS};
use geolite_db::parse::{parse_i32_chars, parse_i64_chars, parse_u64};

const WEEK: u64 = REFRESH_INTERVAL_SECS;

fn marker(s: &str) -> MarkerFile {
    MarkerFile::Content(s.as_bytes().to_vec())
}

#[test]
fn week_old_marker_is_stale() {
    let t: u64 = 1_000_000;
    assert!(needs_update(&marker("1000000"), t + WEEK, false));
    assert!(needs_update(&marker("1000000"), t + WEEK + 5, false));
}

#[test]
fn young_marker_is_fresh() {
    let t: u64 = 1_000_000;
    assert!(!needs_update(&marker("1000000"), t + WEEK - 1, false));
    assert!(!needs_update(&marker("1000000"), t, false));
}

#[test]
fn plus_signed_marker_parses() {
    // A single leading plus sign is part of the decimal grammar.
    assert!(!needs_update(&marker("+100"), 150, false));
    assert!(needs_update(&marker("+100"), 100 + WEEK, false));
}

#[test]
fn missing_marker_is_stale() {
    assert!(needs_update(&MarkerFile::Missing, 42, false));
    // A missing marker is stale even in frozen mode.
    assert!(needs_update(&MarkerFile::Missing, 42, true));
}

#[test]
fn unreadable_marker_is_stale_unless_frozen() {
    assert!(needs_update(&MarkerFile::Unreadable, 42, false));
    // Frozen mode goes by the file's existence alone.
    assert!(!needs_update(&MarkerFile::Unreadable, 42, true));
}

#[test]
fn corrupt_marker_is_stale() {
    assert!(needs_update(&marker(""), 42, false));
    assert!(needs_update(&marker("12a3"), u64::MAX, false));
    assert!(needs_update(&marker("++123"), u64::MAX, false));
    assert!(needs_update(&marker(" 123"), u64::MAX, false));
}

#[test]
fn future_marker_is_stale() {
    assert!(needs_update(&marker("100"), 50, false));
}

#[test]
fn frozen_mode_suppresses_update() {
    assert!(!needs_update(&marker("0"), u64::MAX, true));
    // Frozen mode goes by the marker's existence alone.
    assert!(!needs_update(&marker("garbage"), u64::MAX, true));
}

#[test]
fn parse_u64_exact_values() {
    assert_eq!(parse_u64(&b"0".to_vec()), Some(0));
    assert_eq!(parse_u64(&b"1695000000".to_vec()), Some(1_695_000_000));
    assert_eq!(parse_u64(&b"+123".to_vec()), Some(123));
    assert_eq!(parse_u64(&b"18446744073709551615".to_vec()), Some(u64::MAX));
}

#[test]
fn parse_u64_rejects() {
    assert_eq!(parse_u64(&b"".to_vec()), None);
    assert_eq!(parse_u64(&b"+".to_vec()), None);
    assert_eq!(parse_u64(&b"++1".to_vec()), None);
    assert_eq!(parse_u64(&b"18446744073709551616".to_vec()), None);
    assert_eq!(parse_u64(&b"99999999999999999999".to_vec()), None);
    assert_eq!(parse_u64(&b"-1".to_vec()), None);
    assert_eq!(parse_u64(&b"1 ".to_vec()), None);
}

#[test]
fn parse_i32_exact_values() {
    assert_eq!(parse_i32_chars("356"), Some(356));
    assert_eq!(parse_i32_chars("+5"), Some(5));
    assert_eq!(parse_i32_chars("-5"), Some(-5));
    assert_eq!(parse_i32_chars("2147483647"), Some(i32::MAX));
    assert_eq!(parse_i32_chars("-2147483648"), Some(i32::MIN));
}

#[test]
fn parse_i32_rejects() {
    assert_eq!(parse_i32_chars(""), None);
    assert_eq!(parse_i32_chars("-"), None);
    assert_eq!(parse_i32_chars("+"), None);
    assert_eq!(parse_i32_chars("+-5"), None);
    assert_eq!(parse_i32_chars("2147483648"), None);
    assert_eq!(parse_i32_chars("-2147483649"), None);
    assert_eq!(parse_i32_chars("12x"), None);
}

#[test]
fn parse_i64_exact_values() {
    assert_eq!(parse_i64_chars("1283416"), Some(1_283_416));
    assert_eq!(parse_i64_chars("+1283416"), Some(1_283_416));
    assert_eq!(parse_i64_chars("9223372036854775807"), Some(i64::MAX));
    assert_eq!(parse_i64_chars("-9223372036854775808"), Some(i64::MIN));
    assert_eq!(parse_i64_chars("9223372036854775808"), None);
    assert_eq!(parse_i64_chars("abc"), None);
}
