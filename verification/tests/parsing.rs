//! Query string parsing tests: the year validator and the year/month split.

use weatherman::{parse_date_from, validate_year};

#[test]
fn validate_year_accepts_four_digits() {
    assert_eq!(validate_year("2024"), Ok(2024));
    assert_eq!(validate_year("0001"), Ok(1));
    assert_eq!(validate_year("9999"), Ok(9999));
}

#[test]
fn validate_year_rejects_wrong_lengths() {
    assert!(validate_year("").is_err());
    assert!(validate_year("123").is_err());
    assert!(validate_year("12345").is_err());
}

#[test]
fn validate_year_rejects_non_digits() {
    assert!(validate_year("20x4").is_err());
    assert!(validate_year("-124").is_err());
    assert!(validate_year("+124").is_err());
    assert!(validate_year("２０２４").is_err());
}

#[test]
fn validate_year_error_message() {
    assert_eq!(
        validate_year("nope").unwrap_err(),
        "Please provide year in format YYYY"
    );
}

#[test]
fn parse_date_from_splits_year_and_month() {
    assert_eq!(parse_date_from("2024/5"), Some((2024, 5)));
    assert_eq!(parse_date_from("2024/05"), Some((2024, 5)));
    assert_eq!(parse_date_from("1996/12"), Some((1996, 12)));
}

#[test]
fn parse_date_from_ignores_text_after_second_slash() {
    assert_eq!(parse_date_from("2024/5/17"), Some((2024, 5)));
    assert_eq!(parse_date_from("2024/5/xyz"), Some((2024, 5)));
}

#[test]
fn parse_date_from_rejects_malformed_input() {
    assert_eq!(parse_date_from(""), None);
    assert_eq!(parse_date_from("2024"), None);
    assert_eq!(parse_date_from("/5"), None);
    assert_eq!(parse_date_from("2024/"), None);
    assert_eq!(parse_date_from("20a4/5"), None);
    assert_eq!(parse_date_from("2024/m"), None);
    assert_eq!(parse_date_from("-2024/5"), None);
}

#[test]
fn parse_date_from_rejects_overflowing_values() {
    assert_eq!(parse_date_from("99999999999999999999/1"), None);
    assert_eq!(parse_date_from("2024/99999999999999999999"), None);
    assert_eq!(parse_date_from("2147483647/4294967295"), Some((2147483647, 4294967295)));
}
