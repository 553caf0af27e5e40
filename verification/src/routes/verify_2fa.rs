//! The second-factor verification flow: exact match of attempt id and code,
//! single-use consumption of the challenge, then token issuance.

use vstd::prelude::*;

use crate::domain::data_stores::is_two_fa_code;
use crate::domain::data_stores::is_uuid_str;
use crate::domain::data_stores::LoginAttemptId;
use crate::domain::data_stores::TwoFACode;
use crate::domain::data_stores::TwoFACodeStore;
use crate::domain::email::email_ok;
use crate::domain::email::Email;
use crate::domain::error::AuthAPIError;
use crate::utils::auth::generate_auth_token;
use crate::utils::auth::mac_of;
use crate::utils::auth::token_for;
use crate::utils::auth::token_message;
use crate::utils::auth::TOKEN_TTL_SECONDS;

verus! {

/// What a second-factor verification call carries.
#[derive(Debug, Eq, PartialEq)]
pub struct Verify2FARequest {
    pub email: String,
    pub login_attempt_id: String,
    pub two_fa_code: String,
}

/// Checks the echoed attempt id and one-time code against the pending
/// challenge for the identity. On a full match the challenge is consumed —
/// removed before any token is issued, so it cannot be replayed — and a
/// session token is minted. A mismatch never says which field was wrong.
pub fn verify_2fa<T: TwoFACodeStore>(
    two_fa_code_store: &mut T,
    key: &str,
    now: u64,
    request: Verify2FARequest,
) -> (r: Result<String, AuthAPIError>)
    requires
        now + TOKEN_TTL_SECONDS <= u64::MAX,
    ensures
        r == Err::<String, AuthAPIError>(AuthAPIError::InvalidCredentials) <==> !(email_ok(
            request.email@,
        ) && is_uuid_str(request.login_attempt_id@) && is_two_fa_code(request.two_fa_code@)),
        email_ok(request.email@) && is_uuid_str(request.login_attempt_id@) && is_two_fa_code(
            request.two_fa_code@,
        ) && !old(two_fa_code_store).codes().contains_key(request.email@) ==> r == Err::<
            String,
            AuthAPIError,
        >(AuthAPIError::IncorrectCredentials),
        email_ok(request.email@) && is_uuid_str(request.login_attempt_id@) && is_two_fa_code(
            request.two_fa_code@,
        ) && old(two_fa_code_store).codes().contains_key(request.email@) && old(
            two_fa_code_store,
        ).codes()[request.email@] != (request.login_attempt_id@, request.two_fa_code@) ==> r
            == Err::<String, AuthAPIError>(AuthAPIError::IncorrectCredentials),
        r matches Ok(tok) ==> old(two_fa_code_store).codes().contains_key(request.email@) && old(
            two_fa_code_store,
        ).codes()[request.email@] == (request.login_attempt_id@, request.two_fa_code@)
            && final(two_fa_code_store).codes() == old(two_fa_code_store).codes().remove(
            request.email@,
        ) && tok@ == token_for(key@, request.email@, (now + TOKEN_TTL_SECONDS) as nat) && mac_of(
            key@,
            token_message(request.email@, (now + TOKEN_TTL_SECONDS) as nat),
        ).len() == 32,
        r is Err ==> final(two_fa_code_store).codes() == old(two_fa_code_store).codes(),
{
    let email = match Email::parse(request.email) {
        Ok(email) => email,
        Err(_) => return Err(AuthAPIError::InvalidCredentials),
    };
    let login_attempt_id = match LoginAttemptId::parse(request.login_attempt_id) {
        Ok(login_attempt_id) => login_attempt_id,
        Err(_) => return Err(AuthAPIError::InvalidCredentials),
    };
    let two_fa_code = match TwoFACode::parse(request.two_fa_code) {
        Ok(two_fa_code) => two_fa_code,
        Err(_) => return Err(AuthAPIError::InvalidCredentials),
    };

    let (stored_login_attempt_id, stored_two_fa_code) = match two_fa_code_store.get_code(&email) {
        Ok(pair) => pair,
        Err(_) => return Err(AuthAPIError::IncorrectCredentials),
    };

    // Exact equality on both fields; reveal nothing about which mismatched.
    if !login_attempt_id.same_as(&stored_login_attempt_id) || !two_fa_code.same_as(
        &stored_two_fa_code,
    ) {
        return Err(AuthAPIError::IncorrectCredentials);
    }

    // Single use: consume the challenge before issuing anything.
    if two_fa_code_store.remove_code(&email).is_err() {
        return Err(AuthAPIError::UnexpectedError);
    }

    Ok(generate_auth_token(&email, key, now))
}

} // verus!
