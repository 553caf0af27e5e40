//! The signup flow: validate the credentials, hash the password, and add
//! the user; one user per identity.

use vstd::prelude::*;

use crate::domain::data_stores::UserStore;
use crate::domain::data_stores::UserStoreError;
use crate::domain::email::email_ok;
use crate::domain::email::Email;
use crate::domain::error::AuthAPIError;
use crate::domain::password::argon2_matches;
use crate::domain::password::argon2_wf;
use crate::domain::password::HashedPassword;
use crate::domain::password::Password;
use crate::domain::user::User;
use crate::domain::user::UserV;

verus! {

/// What a signup call carries.
#[derive(Debug, Eq, PartialEq)]
pub struct SignupRequest {
    pub email: String,
    pub password: String,
    pub requires_2fa: bool,
}

/// What a successful signup reports back to the client.
#[derive(Debug, Eq, PartialEq)]
pub struct SignupResponse {
    pub message: String,
}

/// Validates the new user's credentials, hashes the password under a fresh
/// salt, and stores the record. The raw password never reaches the store.
pub fn signup<U: UserStore>(user_store: &mut U, request: SignupRequest) -> (r: Result<
    SignupResponse,
    AuthAPIError,
>)
    ensures
        r == Err::<SignupResponse, AuthAPIError>(AuthAPIError::InvalidCredentials) <==> !(email_ok(
            request.email@,
        ) && request.password@.len() >= 8),
        r matches Ok(resp) ==> resp.message@ == "User created successfully!"@,
        r is Ok ==> !old(user_store).users().contains_key(request.email@) && exists|h: Seq<char>|
            argon2_wf(h) && argon2_matches(h, request.password@) && final(user_store).users()
                == old(user_store).users().insert(
                request.email@,
                (UserV { email: request.email@, password: h, requires_2fa: request.requires_2fa }),
            ),
        r == Err::<SignupResponse, AuthAPIError>(AuthAPIError::UserAlreadyExists) ==> old(
            user_store,
        ).users().contains_key(request.email@),
        r is Err ==> final(user_store).users() == old(user_store).users(),
{
    let email = match Email::parse(request.email) {
        Ok(email) => email,
        Err(_) => return Err(AuthAPIError::InvalidCredentials),
    };
    let password = match Password::parse(request.password) {
        Ok(password) => password,
        Err(_) => return Err(AuthAPIError::InvalidCredentials),
    };

    // Hash under a fresh salt; a backend failure is no fault of the caller.
    let hashed = match HashedPassword::parse(password.as_ref().to_owned()) {
        Ok(hashed) => hashed,
        Err(_) => return Err(AuthAPIError::UnexpectedError),
    };

    let user = User::new(email, hashed, request.requires_2fa);
    match user_store.add_user(user) {
        Ok(()) => Ok(SignupResponse { message: "User created successfully!".to_owned() }),
        Err(UserStoreError::UserAlreadyExists) => Err(AuthAPIError::UserAlreadyExists),
        Err(_) => Err(AuthAPIError::UnexpectedError),
    }
}

} // verus!
