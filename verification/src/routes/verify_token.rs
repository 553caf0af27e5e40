//! Bare token verification for third-party callers: validate and report,
//! no session mutation.

use vstd::prelude::*;

use crate::domain::data_stores::BannedTokenStore;
use crate::domain::error::AuthAPIError;
use crate::utils::auth::validate_token;
use crate::utils::auth::validate_outcome;

verus! {

/// What a token-verification call carries.
#[derive(Debug, Eq, PartialEq)]
pub struct VerifyTokenRequest {
    pub token: String,
}

/// Runs the full token validation (shape, signature, expiry, revocation)
/// and reports success or failure only; nothing is stored or revoked.
pub fn verify_token<B: BannedTokenStore>(
    banned_token_store: &B,
    key: &str,
    now: u64,
    request: VerifyTokenRequest,
) -> (r: Result<(), AuthAPIError>)
    ensures
        r is Ok ==> validate_outcome(
            key@,
            banned_token_store.tokens(),
            request.token@,
            now,
        ) is Ok,
        validate_outcome(key@, banned_token_store.tokens(), request.token@, now) is Err ==> r
            == Err::<(), AuthAPIError>(AuthAPIError::InvalidToken),
        r is Err ==> r == Err::<(), AuthAPIError>(AuthAPIError::InvalidToken),
{
    match validate_token(request.token.as_str(), banned_token_store, key, now) {
        Ok(_) => Ok(()),
        Err(_) => Err(AuthAPIError::InvalidToken),
    }
}

} // verus!
