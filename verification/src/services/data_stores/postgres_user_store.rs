//! Row handling for the relational backing of the identity store. The
//! database itself is reached over the network, so queries live outside
//! the verified core; what is verified here is the conversion between a
//! fetched row (email, password hash, 2FA flag) and a `User`.

use vstd::prelude::*;

use crate::domain::data_stores::UserStoreError;
use crate::domain::email::email_ok;
use crate::domain::email::Email;
use crate::domain::password::phc_canon;
use crate::domain::password::phc_ok;
use crate::domain::password::HashedPassword;
use crate::domain::user::User;

verus! {

/// Rebuilds a `User` from the columns of a fetched row, re-validating
/// both the address and the stored hash; a row that fails either check is
/// corrupt, which is no caller error.
pub fn user_from_row(email: String, password_hash: String, requires_2fa: bool) -> (r: Result<
    User,
    UserStoreError,
>)
    ensures
        r is Ok <==> email_ok(email@) && phc_ok(password_hash@),
        r matches Ok(u) ==> u.email@ == email@ && u.password@ == phc_canon(password_hash@)
            && u.requires_2fa == requires_2fa,
        r is Err ==> r == Err::<User, UserStoreError>(UserStoreError::UnexpectedError),
{
    let parsed_email = match Email::parse(email) {
        Ok(parsed_email) => parsed_email,
        Err(_) => return Err(UserStoreError::UnexpectedError),
    };
    let parsed_hash = match HashedPassword::parse_password_hash(password_hash) {
        Ok(parsed_hash) => parsed_hash,
        Err(_) => return Err(UserStoreError::UnexpectedError),
    };
    Ok(User { email: parsed_email, password: parsed_hash, requires_2fa })
}

} // verus!
