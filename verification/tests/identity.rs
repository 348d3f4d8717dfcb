use proxichat::decimal::{digit_of, to_decimal, ParseDecimalError};
use proxichat::identity::{parse_local_uid, uid_exits};
use std::num::IntErrorKind;

fn roster(names: &[&str]) -> Vec<String> {
    names.iter().map(|name| name.to_string()).collect()
}

#[test]
fn identity_text_is_decimal() {
    assert_eq!(to_decimal(0), "0");
    assert_eq!(to_decimal(7), "7");
    assert_eq!(to_decimal(10), "10");
    assert_eq!(to_decimal(42), "42");
    assert_eq!(to_decimal(1_000_000_007), "1000000007");
    assert_eq!(to_decimal(-1), "-1");
    assert_eq!(to_decimal(-120), "-120");
    assert_eq!(to_decimal(i64::MAX), "9223372036854775807");
    assert_eq!(to_decimal(i64::MIN), "-9223372036854775808");
}

#[test]
fn identity_text_agrees_with_std() {
    for uid in [0i64, 1, 9, 10, 99, 100, 101, -9, -10, -11, 1 << 40, -(1 << 40), i64::MAX - 1, i64::MIN + 1] {
        assert_eq!(to_decimal(uid), uid.to_string());
    }
}

#[test]
fn identity_on_the_roster_is_valid() {
    let players = roster(&["1001", "42", "77"]);
    assert!(uid_exits(42, &players));
    assert!(uid_exits(1001, &players));
    assert!(uid_exits(77, &players));
}

#[test]
fn identity_off_the_roster_is_invalid() {
    let players = roster(&["1001", "42", "77"]);
    assert!(!uid_exits(4, &players));
    assert!(!uid_exits(420, &players));
    assert!(!uid_exits(-42, &players));
    assert!(!uid_exits(0, &players));
}

#[test]
fn empty_roster_holds_nobody() {
    assert!(!uid_exits(42, &Vec::new()));
    assert!(!uid_exits(0, &Vec::new()));
}

#[test]
fn roster_entries_are_compared_as_text() {
    let players = roster(&["042", " 42", "42 ", "+42", "4 2", ""]);
    assert!(!uid_exits(42, &players));
    let players = roster(&["-5"]);
    assert!(uid_exits(-5, &players));
    assert!(!uid_exits(5, &players));
}

#[test]
fn plain_numbers_parse() {
    assert_eq!(parse_local_uid("0"), Ok(0));
    assert_eq!(parse_local_uid("42"), Ok(42));
    assert_eq!(parse_local_uid("+42"), Ok(42));
    assert_eq!(parse_local_uid("-42"), Ok(-42));
    assert_eq!(parse_local_uid("007"), Ok(7));
    assert_eq!(parse_local_uid("-0"), Ok(0));
    assert_eq!(parse_local_uid("9223372036854775807"), Ok(i64::MAX));
    assert_eq!(parse_local_uid("-9223372036854775808"), Ok(i64::MIN));
}

#[test]
fn empty_text_is_empty() {
    assert_eq!(parse_local_uid(""), Err(ParseDecimalError::Empty));
}

#[test]
fn a_sign_alone_is_no_digit() {
    assert_eq!(parse_local_uid("-"), Err(ParseDecimalError::InvalidDigit));
    assert_eq!(parse_local_uid("+"), Err(ParseDecimalError::InvalidDigit));
}

#[test]
fn other_characters_are_no_digits() {
    assert_eq!(parse_local_uid("12a"), Err(ParseDecimalError::InvalidDigit));
    assert_eq!(parse_local_uid(" 12"), Err(ParseDecimalError::InvalidDigit));
    assert_eq!(parse_local_uid("12 "), Err(ParseDecimalError::InvalidDigit));
    assert_eq!(parse_local_uid("1-2"), Err(ParseDecimalError::InvalidDigit));
    assert_eq!(parse_local_uid("--2"), Err(ParseDecimalError::InvalidDigit));
    assert_eq!(parse_local_uid("١٢"), Err(ParseDecimalError::InvalidDigit));
    assert_eq!(parse_local_uid("\u{fffd}"), Err(ParseDecimalError::InvalidDigit));
}

#[test]
fn numbers_out_of_range_overflow() {
    assert_eq!(parse_local_uid("9223372036854775808"), Err(ParseDecimalError::PosOverflow));
    assert_eq!(parse_local_uid("-9223372036854775809"), Err(ParseDecimalError::NegOverflow));
    assert_eq!(parse_local_uid("99999999999999999999999"), Err(ParseDecimalError::PosOverflow));
    assert_eq!(parse_local_uid("-99999999999999999999999"), Err(ParseDecimalError::NegOverflow));
}

#[test]
fn the_first_fault_from_the_left_is_reported() {
    assert_eq!(parse_local_uid("99999999999999999999999x"), Err(ParseDecimalError::PosOverflow));
    assert_eq!(parse_local_uid("9x9999999999999999999999"), Err(ParseDecimalError::InvalidDigit));
}

#[test]
fn parsing_agrees_with_std() {
    let texts = [
        "", "+", "-", "0", "-0", "+0", "42", "-42", "+42", "0042", "4 2", "42\n", "x", "4x",
        "9223372036854775807", "9223372036854775808", "-9223372036854775808",
        "-9223372036854775809", "92233720368547758070", "922337203685477580x",
        "9223372036854775808x", "00000000000000000000000000000001", "+-1", "1e3", "1.0",
    ];
    for text in texts {
        let expected = match text.parse::<i64>() {
            Ok(value) => Ok(value),
            Err(e) => Err(match e.kind() {
                IntErrorKind::Empty => ParseDecimalError::Empty,
                IntErrorKind::InvalidDigit => ParseDecimalError::InvalidDigit,
                IntErrorKind::PosOverflow => ParseDecimalError::PosOverflow,
                IntErrorKind::NegOverflow => ParseDecimalError::NegOverflow,
                _ => unreachable!(),
            }),
        };
        assert_eq!(parse_local_uid(text), expected, "{text:?}");
    }
}

#[test]
fn digits_have_their_values() {
    for (value, digit) in "0123456789".chars().enumerate() {
        assert_eq!(digit_of(digit), Some(value as i64));
    }
    for other in ['a', ' ', '-', '+', '/', ':', '٣', '\0'] {
        assert_eq!(digit_of(other), None);
    }
}

#[test]
fn identity_text_parses_back() {
    for uid in [0i64, 5, -5, 42, 1 << 33, i64::MAX, i64::MIN] {
        assert_eq!(parse_local_uid(&to_decimal(uid)), Ok(uid));
    }
}
