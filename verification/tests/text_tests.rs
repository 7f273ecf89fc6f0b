use triviabot::text::{check_valid_letter, parse_u32, u32_to_string, u64_to_string};

#[test]
fn renders_zero() {
    assert_eq!(u64_to_string(0), "0");
}

#[test]
fn renders_single_digit() {
    assert_eq!(u64_to_string(7), "7");
}

#[test]
fn renders_long_number() {
    assert_eq!(u64_to_string(1234567890), "1234567890");
    assert_eq!(u64_to_string(u64::MAX), "18446744073709551615");
}

#[test]
fn renders_u32() {
    assert_eq!(u32_to_string(42), "42");
    assert_eq!(u32_to_string(u32::MAX), "4294967295");
}

#[test]
fn valid_letters_both_cases() {
    for s in ["a", "b", "c", "d", "A", "B", "C", "D"] {
        assert!(check_valid_letter(s), "{} should be a valid letter", s);
    }
}

#[test]
fn invalid_letters_rejected() {
    for s in ["", "e", "ab", "aa", "1", " a", "a "] {
        assert!(!check_valid_letter(s), "{:?} should not be a valid letter", s);
    }
}

#[test]
fn parses_plain_numbers() {
    assert_eq!(parse_u32("0"), Some(0));
    assert_eq!(parse_u32("10"), Some(10));
    assert_eq!(parse_u32("4294967295"), Some(u32::MAX));
}

#[test]
fn rejects_non_numbers() {
    assert_eq!(parse_u32(""), None);
    assert_eq!(parse_u32("ten"), None);
    assert_eq!(parse_u32("1a"), None);
    assert_eq!(parse_u32("-1"), None);
    assert_eq!(parse_u32(" 1"), None);
}

#[test]
fn rejects_numbers_past_the_counter() {
    assert_eq!(parse_u32("4294967296"), None);
    assert_eq!(parse_u32("99999999999999999999"), None);
}
