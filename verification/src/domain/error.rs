//! The client-visible outcome kinds of the authentication flows, and their
//! mapping to transport status codes.

use vstd::prelude::*;

verus! {

/// Every failure an authentication flow can report to the boundary layer.
/// Validation failures are deliberately collapsed into one kind, and
/// mismatches never say which field was wrong.
#[derive(Clone, Copy, Debug, PartialEq, Eq, Structural)]
pub enum AuthAPIError {
    /// Malformed input: bad email syntax, short password, bad id or code.
    InvalidCredentials,
    /// Well-formed but wrong credentials, code, or attempt id.
    IncorrectCredentials,
    /// A supplied session token that is expired, revoked, or tampered with.
    InvalidToken,
    /// No session token was supplied at all.
    MissingToken,
    /// Signup for an identity that already exists.
    UserAlreadyExists,
    /// A storage or hashing backend failed; fatal to the transaction.
    UnexpectedError,
}

impl AuthAPIError {
    /// The HTTP-style status code this outcome maps to at the boundary.
    pub fn status_code(&self) -> (r: u16)
        ensures
            *self == AuthAPIError::InvalidCredentials ==> r == 400,
            *self == AuthAPIError::IncorrectCredentials ==> r == 401,
            *self == AuthAPIError::InvalidToken ==> r == 401,
            *self == AuthAPIError::MissingToken ==> r == 400,
            *self == AuthAPIError::UserAlreadyExists ==> r == 409,
            *self == AuthAPIError::UnexpectedError ==> r == 500,
    {
        match self {
            AuthAPIError::InvalidCredentials => 400,
            AuthAPIError::IncorrectCredentials => 401,
            AuthAPIError::InvalidToken => 401,
            AuthAPIError::MissingToken => 400,
            AuthAPIError::UserAlreadyExists => 409,
            AuthAPIError::UnexpectedError => 500,
        }
    }

    /// The stable one-line message this outcome maps to; internal causes are
    /// never leaked here.
    pub fn message(&self) -> (r: String)
        ensures
            *self == AuthAPIError::InvalidCredentials ==> r@ == "Invalid credentials"@,
            *self == AuthAPIError::IncorrectCredentials ==> r@ == "Incorrect credentials"@,
            *self == AuthAPIError::InvalidToken ==> r@ == "Invalid token"@,
            *self == AuthAPIError::MissingToken ==> r@ == "Missing token"@,
            *self == AuthAPIError::UserAlreadyExists ==> r@ == "User already exists"@,
            *self == AuthAPIError::UnexpectedError ==> r@ == "Unexpected error"@,
    {
        match self {
            AuthAPIError::InvalidCredentials => "Invalid credentials".to_owned(),
            AuthAPIError::IncorrectCredentials => "Incorrect credentials".to_owned(),
            AuthAPIError::InvalidToken => "Invalid token".to_owned(),
            AuthAPIError::MissingToken => "Missing token".to_owned(),
            AuthAPIError::UserAlreadyExists => "User already exists".to_owned(),
            AuthAPIError::UnexpectedError => "Unexpected error".to_owned(),
        }
    }
}

} // verus!
