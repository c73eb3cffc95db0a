//! The three-step redemption flow controller.
//!
//! Flow state travels through the client, not the server, so every step
//! re-validates its inputs from scratch: step 1 (validate) is rate-limited
//! and read-only, step 2 (collect identifier) is a pure format gate, and
//! step 3 (confirm) is the only point where token state changes.

use vstd::prelude::*;
use crate::limiter::RateLimiter;
use crate::service::{
    Service, ServiceModel, RedeemError, spec_redeem_outcome, spec_redeem_next,
    spec_is_redeemable, lemma_redeem_exactly_once,
};
use crate::token::{
    spec_token_of, valid_token_str, valid_student_id_str, parse_token, check_digit_str,
};

verus! {

/// Outcome of step 1, the read-only token validation.
#[derive(Clone, Copy, PartialEq, Eq, Structural, Debug)]
pub enum ValidateOutcome {
    /// The token may still be redeemed; the flow advances.
    Advance,
    /// The string is not 1 to 8 ASCII digits.
    FormatInvalid,
    /// The client attempted again inside its rate window.
    RateLimited,
    /// The token was redeemed before.
    AlreadyUsed,
    /// The token was never issued.
    NotFound,
}

/// Outcome of step 3, the confirm.
#[derive(Clone, Copy, PartialEq, Eq, Structural, Debug)]
pub enum ConfirmOutcome {
    /// The token was consumed and the redemption logged.
    Redeemed,
    /// The identifier is not 1 to 20 ASCII digits.
    IdFormatInvalid,
    /// The token is not 1 to 8 ASCII digits.
    TokenFormatInvalid,
    /// The token was redeemed before.
    AlreadyUsed,
    /// The token was never issued.
    NotFound,
}

/// The outcome step 1 must report, in the order the checks are made:
/// format first, then the rate window, then the ledger, then the pool.
pub open spec fn spec_validate_outcome(
    m: ServiceModel,
    l: RateLimiter,
    token: Seq<char>,
    client: u128,
    now: u64,
    window: u64,
) -> ValidateOutcome {
    if !valid_token_str(token) {
        ValidateOutcome::FormatInvalid
    } else if !l.is_allowed(client, now, window) {
        ValidateOutcome::RateLimited
    } else if m.used.contains(spec_token_of(token)) {
        ValidateOutcome::AlreadyUsed
    } else if !m.pool.contains(spec_token_of(token)) {
        ValidateOutcome::NotFound
    } else {
        ValidateOutcome::Advance
    }
}

/// Step 1: validate a client-supplied token string. Read-only with
/// respect to pool and ledger (the service is taken by shared
/// reference); only the rate-limit table can change, and it records the
/// attempt exactly when the format check and the rate window admit it.
pub fn validate_token(
    service: &Service,
    limiter: &mut RateLimiter,
    token_str: &str,
    client: u128,
    now: u64,
    window: u64,
) -> (r: ValidateOutcome)
    ensures
        r == spec_validate_outcome(
            service.model(), *old(limiter), token_str@, client, now, window),
        r == ValidateOutcome::FormatInvalid || r == ValidateOutcome::RateLimited
            ==> *final(limiter) == *old(limiter),
        r != ValidateOutcome::FormatInvalid && r != ValidateOutcome::RateLimited
            ==> final(limiter).last_attempt(client) == Some(now)
                && forall|c: u128| c != client
                    ==> #[trigger] final(limiter).last_attempt(c) == old(limiter).last_attempt(c),
        r == ValidateOutcome::Advance
            <==> old(limiter).is_allowed(client, now, window)
                && spec_is_redeemable(service.model(), token_str@),
{
    let t = match parse_token(token_str) {
        None => {
            return ValidateOutcome::FormatInvalid;
        },
        Some(t) => t,
    };
    if !limiter.try_acquire(client, now, window) {
        return ValidateOutcome::RateLimited;
    }
    if service.contains_used(t) {
        return ValidateOutcome::AlreadyUsed;
    }
    if !service.contains_unused(t) {
        return ValidateOutcome::NotFound;
    }
    ValidateOutcome::Advance
}

/// Step 2: the identifier format gate. No pool or ledger access — the
/// flow only gathers the identifier and re-displays it for confirmation.
pub fn collect_identifier(student_id: &str) -> (r: bool)
    ensures
        r == valid_student_id_str(student_id@),
{
    check_digit_str(student_id, 20)
}

/// The outcome step 3 must report: both client-supplied fields are
/// re-validated (identifier first, as the form checks it first), then the
/// redemption outcome decides.
pub open spec fn spec_confirm_outcome(m: ServiceModel, token: Seq<char>, id: Seq<char>) -> ConfirmOutcome {
    if !valid_student_id_str(id) {
        ConfirmOutcome::IdFormatInvalid
    } else if !valid_token_str(token) {
        ConfirmOutcome::TokenFormatInvalid
    } else {
        match spec_redeem_outcome(m, spec_token_of(token)) {
            Ok(_) => ConfirmOutcome::Redeemed,
            Err(RedeemError::AlreadyUsed) => ConfirmOutcome::AlreadyUsed,
            Err(RedeemError::NotFound) => ConfirmOutcome::NotFound,
        }
    }
}

/// The state step 3 must leave behind: changed only by a successful
/// redemption, and then exactly as `spec_redeem_next` says.
pub open spec fn spec_confirm_next(m: ServiceModel, token: Seq<char>, id: Seq<char>) -> ServiceModel {
    if spec_confirm_outcome(m, token, id) == ConfirmOutcome::Redeemed {
        spec_redeem_next(m, spec_token_of(token), id)
    } else {
        m
    }
}

/// Step 3: confirm. Re-validates both client-supplied fields, then
/// performs the one atomic check-and-consume.
pub fn confirm(service: &mut Service, token_str: &str, student_id: &str) -> (r: ConfirmOutcome)
    requires
        old(service).inv(),
    ensures
        final(service).inv(),
        r == spec_confirm_outcome(old(service).model(), token_str@, student_id@),
        final(service).model() == spec_confirm_next(old(service).model(), token_str@, student_id@),
        r != ConfirmOutcome::Redeemed ==> *final(service) == *old(service),
{
    if !check_digit_str(student_id, 20) {
        return ConfirmOutcome::IdFormatInvalid;
    }
    let t = match parse_token(token_str) {
        None => {
            return ConfirmOutcome::TokenFormatInvalid;
        },
        Some(t) => t,
    };
    match service.redeem(t, student_id) {
        Ok(_) => ConfirmOutcome::Redeemed,
        Err(RedeemError::AlreadyUsed) => ConfirmOutcome::AlreadyUsed,
        Err(RedeemError::NotFound) => ConfirmOutcome::NotFound,
    }
}

/// A token that fails the step-1 format check never reaches the
/// state-mutating path: step 1 reports the format error, and a confirm
/// carrying the same string is refused with the state unchanged.
pub proof fn lemma_invalid_format_cannot_redeem(
    m: ServiceModel,
    l: RateLimiter,
    token: Seq<char>,
    id: Seq<char>,
    client: u128,
    now: u64,
    window: u64,
)
    requires
        !valid_token_str(token),
    ensures
        spec_validate_outcome(m, l, token, client, now, window) == ValidateOutcome::FormatInvalid,
        spec_confirm_outcome(m, token, id) != ConfirmOutcome::Redeemed,
        spec_confirm_next(m, token, id) == m,
{
}

/// The confirm step preserves the token lifecycle: the state stays
/// well-formed and the set of issued tokens never changes, whatever the
/// client supplied.
pub proof fn lemma_confirm_preserves_lifecycle(m: ServiceModel, token: Seq<char>, id: Seq<char>)
    requires
        m.wf(),
    ensures
        spec_confirm_next(m, token, id).wf(),
        spec_confirm_next(m, token, id).issued() == m.issued(),
{
    if spec_confirm_outcome(m, token, id) == ConfirmOutcome::Redeemed {
        lemma_redeem_exactly_once(m, spec_token_of(token), id);
    }
}

/// The linearized race: of two confirm attempts for the same token, the
/// one the service serves first redeems it; the other then fails with
/// `AlreadyUsed` and leaves the state untouched, and the log carries the
/// single entry the winner wrote.
pub proof fn lemma_confirm_race(m: ServiceModel, token: Seq<char>, id1: Seq<char>, id2: Seq<char>)
    requires
        m.wf(),
        spec_confirm_outcome(m, token, id1) == ConfirmOutcome::Redeemed,
        valid_student_id_str(id2),
    ensures
        spec_confirm_outcome(spec_confirm_next(m, token, id1), token, id2)
            == ConfirmOutcome::AlreadyUsed,
        spec_confirm_next(spec_confirm_next(m, token, id1), token, id2)
            == spec_confirm_next(m, token, id1),
        spec_confirm_next(m, token, id1).log == m.log.push((spec_token_of(token), id1)),
        forall|i: int| 0 <= i < m.log.len() ==> (#[trigger] m.log[i]).0 != spec_token_of(token),
{
    lemma_redeem_exactly_once(m, spec_token_of(token), id1);
}

} // verus!

