use blamegrad::numtext::{decimal_string, digit_width, format_line_number, parse_usize};
use blamegrad::text::{split_blame_line, str_eq};

#[test]
fn split_at_last_space() {
    let (change, hash) = split_blame_line("100 r1");
    assert_eq!(change, "100");
    assert_eq!(hash, "r1");
}

#[test]
fn split_uses_last_space_of_several() {
    let (change, hash) = split_blame_line("fix the build 3f2a");
    assert_eq!(change, "fix the build");
    assert_eq!(hash, "3f2a");
}

#[test]
fn split_without_space_yields_empty_change() {
    let (change, hash) = split_blame_line("deadbeef");
    assert_eq!(change, "");
    assert_eq!(hash, "deadbeef");
}

#[test]
fn split_empty_line() {
    let (change, hash) = split_blame_line("");
    assert_eq!(change, "");
    assert_eq!(hash, "");
}

#[test]
fn split_trailing_space_yields_empty_hash() {
    let (change, hash) = split_blame_line("abc ");
    assert_eq!(change, "abc");
    assert_eq!(hash, "");
}

#[test]
fn str_eq_compares_contents() {
    assert!(str_eq("abc", "abc"));
    assert!(!str_eq("abc", "abd"));
    assert!(!str_eq("abc", "ab"));
    assert!(str_eq("", ""));
}

#[test]
fn decimal_string_renders_digits() {
    assert_eq!(decimal_string(0), "0");
    assert_eq!(decimal_string(7), "7");
    assert_eq!(decimal_string(255), "255");
    assert_eq!(decimal_string(10_000), "10000");
}

#[test]
fn digit_width_counts_digits() {
    assert_eq!(digit_width(0), 1);
    assert_eq!(digit_width(1), 1);
    assert_eq!(digit_width(9), 1);
    assert_eq!(digit_width(10), 2);
    assert_eq!(digit_width(99), 2);
    assert_eq!(digit_width(100), 3);
}

#[test]
fn format_line_number_right_justifies() {
    assert_eq!(format_line_number(5, 3), "  5");
    assert_eq!(format_line_number(42, 2), "42");
    assert_eq!(format_line_number(123, 2), "123");
    assert_eq!(format_line_number(1, 1), "1");
}

#[test]
fn parse_usize_accepts_digits() {
    assert_eq!(parse_usize("42"), Some(42));
    assert_eq!(parse_usize("0"), Some(0));
    assert_eq!(parse_usize("+7"), Some(7));
}

#[test]
fn parse_usize_rejects_bad_input() {
    assert_eq!(parse_usize(""), None);
    assert_eq!(parse_usize("+"), None);
    assert_eq!(parse_usize("abc"), None);
    assert_eq!(parse_usize("-1"), None);
    assert_eq!(parse_usize("12x"), None);
    assert_eq!(parse_usize("99999999999999999999999999"), None);
}
