use cdo::record::{parse_fingerprint, render_fingerprint};

#[test]
fn render_zero() {
    assert_eq!(render_fingerprint(0), b"0".to_vec());
}

#[test]
fn render_small_number() {
    assert_eq!(render_fingerprint(7), b"7".to_vec());
}

#[test]
fn render_multi_digit_number() {
    assert_eq!(render_fingerprint(12345), b"12345".to_vec());
}

#[test]
fn render_largest_fingerprint() {
    assert_eq!(render_fingerprint(u64::MAX), b"18446744073709551615".to_vec());
}

#[test]
fn parse_render_round_trip() {
    for n in [0u64, 1, 9, 10, 42, 1000, 0xcbf29ce484222325, u64::MAX] {
        let rendered = render_fingerprint(n);
        assert_eq!(parse_fingerprint(&rendered), Some(n));
    }
}

#[test]
fn parse_plain_digits() {
    assert_eq!(parse_fingerprint(b"123"), Some(123));
}

#[test]
fn parse_tolerates_surrounding_whitespace() {
    assert_eq!(parse_fingerprint(b"  123\n"), Some(123));
    assert_eq!(parse_fingerprint(b"\t42\r\n"), Some(42));
}

#[test]
fn parse_rejects_empty_record() {
    assert_eq!(parse_fingerprint(b""), None);
}

#[test]
fn parse_rejects_all_whitespace() {
    assert_eq!(parse_fingerprint(b" \t\n"), None);
}

#[test]
fn parse_rejects_non_numeric_content() {
    assert_eq!(parse_fingerprint(b"garbage"), None);
    assert_eq!(parse_fingerprint(b"12a4"), None);
    assert_eq!(parse_fingerprint(b"+5"), None);
    assert_eq!(parse_fingerprint(b"-3"), None);
    assert_eq!(parse_fingerprint(b"12 34"), None);
}

#[test]
fn parse_accepts_largest_fingerprint() {
    assert_eq!(parse_fingerprint(b"18446744073709551615"), Some(u64::MAX));
}

#[test]
fn parse_rejects_value_out_of_range() {
    assert_eq!(parse_fingerprint(b"18446744073709551616"), None);
    assert_eq!(parse_fingerprint(b"99999999999999999999999"), None);
}

#[test]
fn parse_accepts_leading_zeros() {
    assert_eq!(parse_fingerprint(b"007"), Some(7));
}
