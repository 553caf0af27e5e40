//! The login flow: credential check, then either a session token right away
//! or a stored second-factor challenge with the token withheld.

use vstd::prelude::*;

use crate::domain::data_stores::is_two_fa_code;
use crate::domain::data_stores::is_uuid_str;
use crate::domain::data_stores::LoginAttemptId;
use crate::domain::data_stores::TwoFACode;
use crate::domain::data_stores::TwoFACodeStore;
use crate::domain::data_stores::UserStore;
use crate::domain::email::email_ok;
use crate::domain::email::Email;
use crate::domain::error::AuthAPIError;
use crate::domain::password::argon2_matches;
use crate::domain::password::argon2_wf;
use crate::domain::password::Password;
use crate::utils::auth::generate_auth_token;
use crate::utils::auth::mac_of;
use crate::utils::auth::token_for;
use crate::utils::auth::token_message;
use crate::utils::auth::TOKEN_TTL_SECONDS;

verus! {

/// What a login call carries: the raw, not yet validated credentials.
#[derive(Debug, Eq, PartialEq)]
pub struct LoginRequest {
    pub email: String,
    pub password: String,
}

/// What a successful login reports back to the client.
#[derive(Debug, Eq, PartialEq)]
pub enum LoginResponse {
    /// Authenticated outright; the session token travels separately.
    RegularAuth,
    /// A second factor is required before any token is issued.
    TwoFactorAuth(TwoFactorAuthResponse),
}

/// The challenge descriptor handed to the client: the attempt id to echo
/// back, never the code.
#[derive(Debug, Eq, PartialEq)]
pub struct TwoFactorAuthResponse {
    pub message: String,
    pub login_attempt_id: String,
}

/// Checks the credentials against the identity store and either mints a
/// session token (no second factor required) or stores a fresh challenge
/// and returns its attempt id, withholding the token.
///
/// The result pairs the client-visible response with the token to attach,
/// `None` exactly while the second factor is pending.
pub fn login<U: UserStore, T: TwoFACodeStore>(
    user_store: &U,
    two_fa_code_store: &mut T,
    key: &str,
    now: u64,
    request: LoginRequest,
) -> (r: Result<(LoginResponse, Option<String>), AuthAPIError>)
    requires
        now + TOKEN_TTL_SECONDS <= u64::MAX,
    ensures
        r == Err::<(LoginResponse, Option<String>), AuthAPIError>(AuthAPIError::InvalidCredentials)
            <==> !(email_ok(request.email@) && request.password@.len() >= 8),
        r is Ok ==> user_store.users().contains_key(request.email@) && argon2_matches(
            user_store.users()[request.email@].password,
            request.password@,
        ),
        r matches Ok(p) ==> (user_store.users()[request.email@].requires_2fa ==> p.1 is None && (
        p.0 matches LoginResponse::TwoFactorAuth(t) && is_uuid_str(t.login_attempt_id@)
            && t.message@ == "2FA required"@ && exists|c: Seq<char>|
            is_two_fa_code(c) && final(two_fa_code_store).codes() == old(
                two_fa_code_store,
            ).codes().insert(request.email@, (t.login_attempt_id@, c)))),
        r matches Ok(p) ==> (!user_store.users()[request.email@].requires_2fa ==> p.0
            == LoginResponse::RegularAuth && (p.1 matches Some(tok) && tok@ == token_for(
            key@,
            request.email@,
            (now + TOKEN_TTL_SECONDS) as nat,
        )) && mac_of(key@, token_message(request.email@, (now + TOKEN_TTL_SECONDS) as nat)).len()
            == 32 && final(two_fa_code_store).codes() == old(two_fa_code_store).codes()),
        r is Err ==> final(two_fa_code_store).codes() == old(two_fa_code_store).codes(),
        email_ok(request.email@) && request.password@.len() >= 8
            && !user_store.users().contains_key(request.email@) ==> r == Err::<
            (LoginResponse, Option<String>),
            AuthAPIError,
        >(AuthAPIError::IncorrectCredentials),
        email_ok(request.email@) && request.password@.len() >= 8
            && user_store.users().contains_key(request.email@) && argon2_wf(
            user_store.users()[request.email@].password,
        ) && !argon2_matches(user_store.users()[request.email@].password, request.password@) ==> r
            == Err::<(LoginResponse, Option<String>), AuthAPIError>(
            AuthAPIError::IncorrectCredentials,
        ),
{
    let email = match Email::parse(request.email) {
        Ok(email) => email,
        Err(_) => return Err(AuthAPIError::InvalidCredentials),
    };
    let password = match Password::parse(request.password) {
        Ok(password) => password,
        Err(_) => return Err(AuthAPIError::InvalidCredentials),
    };

    if user_store.validate_user(&email, password.as_ref()).is_err() {
        return Err(AuthAPIError::IncorrectCredentials);
    }

    let user = match user_store.get_user(&email) {
        Ok(user) => user,
        Err(_) => return Err(AuthAPIError::IncorrectCredentials),
    };

    // Branch on the user's second-factor configuration.
    if user.requires_2fa {
        handle_2fa(two_fa_code_store, &email)
    } else {
        Ok(handle_no_2fa(&email, key, now))
    }
}

/// Stores a fresh challenge for `email`, replacing any pending one, and
/// reports the attempt id; no session token yet.
fn handle_2fa<T: TwoFACodeStore>(two_fa_code_store: &mut T, email: &Email) -> (r: Result<
    (LoginResponse, Option<String>),
    AuthAPIError,
>)
    ensures
        r matches Ok(p) ==> p.1 is None && (p.0 matches LoginResponse::TwoFactorAuth(t)
            && is_uuid_str(t.login_attempt_id@) && t.message@ == "2FA required"@ && exists|
            c: Seq<char>,
        |
            is_two_fa_code(c) && final(two_fa_code_store).codes() == old(
                two_fa_code_store,
            ).codes().insert(email@, (t.login_attempt_id@, c))),
        r is Err ==> r == Err::<(LoginResponse, Option<String>), AuthAPIError>(
            AuthAPIError::UnexpectedError,
        ) && final(two_fa_code_store).codes() == old(two_fa_code_store).codes(),
{
    let login_attempt_id = LoginAttemptId::default();
    let code = TwoFACode::default();

    let id_text = login_attempt_id.as_ref().to_owned();
    if two_fa_code_store.add_code(email.clone(), login_attempt_id, code).is_err() {
        return Err(AuthAPIError::UnexpectedError);
    }

    let response = LoginResponse::TwoFactorAuth(
        TwoFactorAuthResponse { message: "2FA required".to_owned(), login_attempt_id: id_text },
    );
    Ok((response, None))
}

/// No second factor required: mint the session token right away.
fn handle_no_2fa(email: &Email, key: &str, now: u64) -> (r: (LoginResponse, Option<String>))
    requires
        now + TOKEN_TTL_SECONDS <= u64::MAX,
    ensures
        r.0 == LoginResponse::RegularAuth,
        r.1 matches Some(tok) && tok@ == token_for(key@, email@, (now + TOKEN_TTL_SECONDS) as nat),
        mac_of(key@, token_message(email@, (now + TOKEN_TTL_SECONDS) as nat)).len() == 32,
{
    let token = generate_auth_token(email, key, now);
    (LoginResponse::RegularAuth, Some(token))
}

} // verus!
