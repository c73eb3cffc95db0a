use token_checkin::token::{parse_token, check_digit_str, token_string, Token};

#[test]
fn parse_accepts_eight_digits() {
    let t = parse_token("12345678").unwrap();
    assert_eq!(t, Token { len: 8, value: 12345678 });
}

#[test]
fn parse_accepts_single_digit() {
    let t = parse_token("7").unwrap();
    assert_eq!(t, Token { len: 1, value: 7 });
}

#[test]
fn parse_keeps_leading_zeros() {
    let t = parse_token("00123").unwrap();
    assert_eq!(t, Token { len: 5, value: 123 });
    assert_ne!(t, parse_token("123").unwrap());
}

#[test]
fn parse_rejects_nine_digits() {
    assert!(parse_token("123456789").is_none());
}

#[test]
fn parse_rejects_non_digit() {
    assert!(parse_token("1234a678").is_none());
    assert!(parse_token("1234 678").is_none());
    assert!(parse_token("-1234567").is_none());
}

#[test]
fn parse_rejects_empty() {
    assert!(parse_token("").is_none());
}

#[test]
fn parse_rejects_non_ascii_digits() {
    assert!(parse_token("١٢٣").is_none());
}

#[test]
fn token_string_round_trip() {
    for s in ["12345678", "00123", "7", "99999998", "10000000"] {
        let t = parse_token(s).unwrap();
        assert_eq!(token_string(t), s);
    }
}

#[test]
fn identifier_format_bounds() {
    assert!(check_digit_str("999", 20));
    assert!(check_digit_str("12345678901234567890", 20));
    assert!(!check_digit_str("123456789012345678901", 20));
    assert!(!check_digit_str("", 20));
    assert!(!check_digit_str("12x", 20));
}
