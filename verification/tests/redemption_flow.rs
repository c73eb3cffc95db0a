use token_checkin::flow::{
    validate_token, collect_identifier, confirm, ValidateOutcome, ConfirmOutcome,
};
use token_checkin::limiter::RateLimiter;
use token_checkin::service::{record_line, RedeemError, Service};
use token_checkin::token::{parse_token, Token};

const WINDOW: u64 = 10;

fn service_with(tokens: &[&str]) -> Service {
    let mut s = Service::new();
    for t in tokens {
        assert!(s.insert_token(parse_token(t).unwrap()));
    }
    s
}

#[test]
fn end_to_end_single_client() {
    let mut s = service_with(&["12345678"]);
    let mut l = RateLimiter::new();

    // Step 1: client A validates the token.
    let r = validate_token(&s, &mut l, "12345678", 1, 0, WINDOW);
    assert_eq!(r, ValidateOutcome::Advance);

    // Step 2: client A supplies an identifier.
    assert!(collect_identifier("999"));

    // Step 3: client A confirms.
    let r = confirm(&mut s, "12345678", "999");
    assert_eq!(r, ConfirmOutcome::Redeemed);
    assert_eq!(s.pool.len(), 0);
    assert_eq!(s.log.len(), 1);
    assert_eq!(s.log[0].token, Token { len: 8, value: 12345678 });
    assert_eq!(s.log[0].student_id, "999");
    assert_eq!(record_line("12345678", "999"), "12345678,999");

    // A second confirm with the same token now fails.
    let r = confirm(&mut s, "12345678", "999");
    assert_eq!(r, ConfirmOutcome::AlreadyUsed);
    assert_eq!(s.log.len(), 1);
}

#[test]
fn race_two_clients_one_redemption() {
    let mut s = service_with(&["11112222"]);
    let mut l = RateLimiter::new();

    // Steps 1 and 2 are read-only, so both clients pass them.
    assert_eq!(validate_token(&s, &mut l, "11112222", 1, 0, WINDOW), ValidateOutcome::Advance);
    assert_eq!(validate_token(&s, &mut l, "11112222", 2, 0, WINDOW), ValidateOutcome::Advance);
    assert!(collect_identifier("111"));
    assert!(collect_identifier("222"));

    // Both confirm; the service serializes the two attempts, so exactly
    // one succeeds and the other sees AlreadyUsed.
    let a = confirm(&mut s, "11112222", "111");
    let b = confirm(&mut s, "11112222", "222");
    assert_eq!(a, ConfirmOutcome::Redeemed);
    assert_eq!(b, ConfirmOutcome::AlreadyUsed);
    assert_eq!(s.log.len(), 1);
    assert_eq!(s.log[0].token, Token { len: 8, value: 11112222 });
    assert_eq!(s.log[0].student_id, "111");
}

#[test]
fn read_check_is_idempotent() {
    let mut s = service_with(&["12345678"]);
    for _ in 0..3 {
        assert!(s.is_redeemable("12345678"));
        assert_eq!(s.pool.len(), 1);
        assert_eq!(s.used.len(), 0);
    }
    assert!(!s.is_redeemable("87654321"));
    assert_eq!(s.redeem(parse_token("12345678").unwrap(), "1"), Ok(()));
    assert!(!s.is_redeemable("12345678"));
}

#[test]
fn format_failures_reach_no_state() {
    let mut s = service_with(&["12345678"]);
    let mut l = RateLimiter::new();
    assert_eq!(
        validate_token(&s, &mut l, "123456789", 1, 0, WINDOW),
        ValidateOutcome::FormatInvalid
    );
    // A format-invalid attempt is not recorded by the limiter either.
    assert_eq!(validate_token(&s, &mut l, "12x", 1, 1, WINDOW), ValidateOutcome::FormatInvalid);
    // Step 3 refuses the same strings without touching the pool.
    assert_eq!(confirm(&mut s, "123456789", "999"), ConfirmOutcome::TokenFormatInvalid);
    assert_eq!(confirm(&mut s, "12x", "999"), ConfirmOutcome::TokenFormatInvalid);
    assert_eq!(confirm(&mut s, "12345678", "bad id"), ConfirmOutcome::IdFormatInvalid);
    assert_eq!(s.pool.len(), 1);
    assert_eq!(s.used.len(), 0);
    assert_eq!(s.log.len(), 0);
}

#[test]
fn nine_digit_token_rejected_even_if_poolable() {
    // Format is checked before the pool: a 9-digit string is refused
    // regardless of membership.
    let s = service_with(&["12345678"]);
    let mut l = RateLimiter::new();
    assert_eq!(
        validate_token(&s, &mut l, "123456780", 1, 0, WINDOW),
        ValidateOutcome::FormatInvalid
    );
}

#[test]
fn validate_rate_limits_before_pool_lookup() {
    let s = service_with(&["12345678"]);
    let mut l = RateLimiter::new();
    assert_eq!(validate_token(&s, &mut l, "12345678", 1, 0, WINDOW), ValidateOutcome::Advance);
    assert_eq!(validate_token(&s, &mut l, "12345678", 1, 5, WINDOW), ValidateOutcome::RateLimited);
    // After the window the same client is served again.
    assert_eq!(validate_token(&s, &mut l, "12345678", 1, 10, WINDOW), ValidateOutcome::Advance);
}

#[test]
fn validate_reports_unknown_and_used_tokens() {
    let mut s = service_with(&["12345678"]);
    let mut l = RateLimiter::new();
    assert_eq!(validate_token(&s, &mut l, "87654321", 1, 0, WINDOW), ValidateOutcome::NotFound);
    assert_eq!(confirm(&mut s, "12345678", "999"), ConfirmOutcome::Redeemed);
    assert_eq!(validate_token(&s, &mut l, "12345678", 2, 0, WINDOW), ValidateOutcome::AlreadyUsed);
}

#[test]
fn redeem_error_values() {
    let mut s = service_with(&["12345678"]);
    assert_eq!(
        s.redeem(parse_token("87654321").unwrap(), "1"),
        Err(RedeemError::NotFound)
    );
    assert_eq!(s.redeem(parse_token("12345678").unwrap(), "1"), Ok(()));
    assert_eq!(
        s.redeem(parse_token("12345678").unwrap(), "1"),
        Err(RedeemError::AlreadyUsed)
    );
}

#[test]
fn duplicate_issuance_collapses() {
    let mut s = service_with(&["12345678"]);
    assert!(!s.insert_token(parse_token("12345678").unwrap()));
    assert_eq!(s.pool.len(), 1);
}

#[test]
fn issuance_samples_eight_digit_tokens() {
    let mut s = Service::new();
    s.issue(50);
    let strings = s.pool_strings();
    assert!(strings.len() <= 50);
    assert!(!strings.is_empty());
    for t in &strings {
        assert_eq!(t.len(), 8);
        assert!(t.chars().all(|c| c.is_ascii_digit()));
        assert!(!t.starts_with('0'));
    }
    // Everything issued is redeemable.
    let first = strings[0].clone();
    assert!(s.is_redeemable(&first));
}
