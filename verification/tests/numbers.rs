use loggen::is_positive_number;
use loggen::numbers::parse_u64_decimal;

#[test]
fn accepts_plain_number() {
    assert_eq!(is_positive_number("123".to_string()), Ok(()));
}

#[test]
fn accepts_zero() {
    assert_eq!(is_positive_number("0".to_string()), Ok(()));
}

#[test]
fn accepts_leading_plus() {
    assert_eq!(is_positive_number("+42".to_string()), Ok(()));
}

#[test]
fn accepts_largest_value() {
    assert_eq!(is_positive_number("18446744073709551615".to_string()), Ok(()));
}

#[test]
fn rejects_overflowing_value() {
    assert!(is_positive_number("18446744073709551616".to_string()).is_err());
}

#[test]
fn rejects_words_with_message() {
    assert_eq!(
        is_positive_number("abc".to_string()),
        Err("abc isn't a positive number".to_string())
    );
}

#[test]
fn rejects_empty_with_message() {
    assert_eq!(
        is_positive_number("".to_string()),
        Err(" isn't a positive number".to_string())
    );
}

#[test]
fn rejects_negative() {
    assert!(is_positive_number("-1".to_string()).is_err());
}

#[test]
fn rejects_trailing_junk() {
    assert!(is_positive_number("12x".to_string()).is_err());
    assert!(is_positive_number("12 ".to_string()).is_err());
    assert!(is_positive_number(" 12".to_string()).is_err());
    assert!(is_positive_number("1.5".to_string()).is_err());
}

#[test]
fn rejects_bare_plus() {
    assert!(is_positive_number("+".to_string()).is_err());
}

#[test]
fn parses_exact_values() {
    assert_eq!(parse_u64_decimal("250"), Some(250));
    assert_eq!(parse_u64_decimal("+7"), Some(7));
    assert_eq!(parse_u64_decimal("0"), Some(0));
    assert_eq!(parse_u64_decimal("18446744073709551615"), Some(u64::MAX));
    assert_eq!(parse_u64_decimal("18446744073709551616"), None);
    assert_eq!(parse_u64_decimal(""), None);
    assert_eq!(parse_u64_decimal("+"), None);
    assert_eq!(parse_u64_decimal("2_5"), None);
}
