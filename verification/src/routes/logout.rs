//! The logout flow: validate the supplied session token, then revoke it.

use vstd::prelude::*;

use crate::domain::data_stores::BannedTokenStore;
use crate::domain::error::AuthAPIError;
use crate::utils::auth::validate_token;
use crate::utils::auth::validate_outcome;

verus! {

/// Validates the caller's session token and records it as revoked, so that
/// it is rejected from then on even though its signature and expiry are
/// still individually valid. The caller passes the token it holds, or
/// `None` when the client supplied none.
pub fn logout<B: BannedTokenStore>(
    banned_token_store: &mut B,
    key: &str,
    now: u64,
    token: Option<String>,
) -> (r: Result<(), AuthAPIError>)
    ensures
        r == Err::<(), AuthAPIError>(AuthAPIError::MissingToken) <==> token is None,
        r is Ok ==> (token matches Some(t) && validate_outcome(
            key@,
            old(banned_token_store).tokens(),
            t@,
            now,
        ) is Ok && final(banned_token_store).tokens() == old(banned_token_store).tokens().insert(
            t@,
        )),
        token matches Some(t) ==> (validate_outcome(
            key@,
            old(banned_token_store).tokens(),
            t@,
            now,
        ) is Err ==> r == Err::<(), AuthAPIError>(AuthAPIError::InvalidToken)),
        r is Err ==> final(banned_token_store).tokens() == old(banned_token_store).tokens(),
{
    let t = match token {
        Some(t) => t,
        None => return Err(AuthAPIError::MissingToken),
    };

    if validate_token(t.as_str(), banned_token_store, key, now).is_err() {
        return Err(AuthAPIError::InvalidToken);
    }

    match banned_token_store.store_token(t) {
        Ok(()) => Ok(()),
        Err(_) => Err(AuthAPIError::UnexpectedError),
    }
}

} // verus!
