use futurx::decimal::{parse_ticks, ticks_or_zero};

#[test]
fn decimals_are_read_as_millionths() {
    assert_eq!(parse_ticks(b"42000.10000000"), Some(42_000_100_000));
    assert_eq!(parse_ticks(b"0.5"), Some(500_000));
    assert_eq!(parse_ticks(b"5"), Some(5_000_000));
    assert_eq!(parse_ticks(b"0"), Some(0));
    assert_eq!(parse_ticks(b"007"), Some(7_000_000));
    assert_eq!(parse_ticks(b"1.000001"), Some(1_000_001));
    assert_eq!(parse_ticks(b"3.14159265"), Some(3_141_592));
    assert_eq!(parse_ticks(b"0.123456"), Some(123_456));
    assert_eq!(parse_ticks(b"0.12345"), Some(123_450));
    assert_eq!(parse_ticks(b"0.1"), Some(100_000));
}

#[test]
fn a_part_may_be_missing_beside_the_point() {
    assert_eq!(parse_ticks(b".5"), Some(500_000));
    assert_eq!(parse_ticks(b"5."), Some(5_000_000));
    assert_eq!(parse_ticks(b"."), None);
    assert_eq!(parse_ticks(b""), None);
}

#[test]
fn digits_after_the_sixth_place_are_left_off() {
    assert_eq!(parse_ticks(b"0.0000019"), Some(1));
    assert_eq!(parse_ticks(b"0.0000009"), Some(0));
    assert_eq!(parse_ticks(b"0.9999999999999999999999999"), Some(999_999));
}

#[test]
fn other_text_is_no_decimal() {
    assert_eq!(parse_ticks(b"1e5"), None);
    assert_eq!(parse_ticks(b"-1"), None);
    assert_eq!(parse_ticks(b"+1"), None);
    assert_eq!(parse_ticks(b" 1"), None);
    assert_eq!(parse_ticks(b"1 "), None);
    assert_eq!(parse_ticks(b"1.2.3"), None);
    assert_eq!(parse_ticks(b"1.2x"), None);
    assert_eq!(parse_ticks(b"1,5"), None);
    assert_eq!(parse_ticks(b"abc"), None);
    assert_eq!(parse_ticks(b"0.0000000000x"), None);
    assert_eq!(parse_ticks(b"NaN"), None);
}

#[test]
fn values_above_the_largest_are_not_read() {
    assert_eq!(parse_ticks(b"10000000"), Some(10_000_000_000_000));
    assert_eq!(parse_ticks(b"10000000.0000009"), Some(10_000_000_000_000));
    assert_eq!(parse_ticks(b"10000000.000001"), None);
    assert_eq!(parse_ticks(b"10000001"), None);
    assert_eq!(parse_ticks(b"99999999999999999999999999999999999999"), None);
    assert_eq!(parse_ticks(b"99999999999999999999999999999999999999x"), None);
    assert_eq!(parse_ticks(b"0000000000000000000000000000000000000001"), Some(1_000_000));
}

#[test]
fn text_that_is_not_read_counts_as_zero() {
    assert_eq!(ticks_or_zero(b"12.5"), 12_500_000);
    assert_eq!(ticks_or_zero(b"twelve"), 0);
    assert_eq!(ticks_or_zero(b""), 0);
    assert_eq!(ticks_or_zero(b"10000001"), 0);
}
