//! User records: identity, hashed password, and the 2FA requirement flag.

use vstd::prelude::*;

use crate::domain::email::Email;
use crate::domain::password::HashedPassword;

verus! {

/// Abstract value of a `User`: the field contents as sequences.
pub ghost struct UserV {
    pub email: Seq<char>,
    pub password: Seq<char>,
    pub requires_2fa: bool,
}

/// A registered user. Created on signup, read on login, never mutated in
/// place; one user per identity.
#[derive(Debug, Eq, PartialEq)]
pub struct User {
    pub email: Email,
    pub password: HashedPassword,
    pub requires_2fa: bool,
}

impl View for User {
    type V = UserV;

    open spec fn view(&self) -> UserV {
        UserV { email: self.email@, password: self.password@, requires_2fa: self.requires_2fa }
    }
}

impl Clone for User {
    fn clone(&self) -> (r: Self)
        ensures
            r == *self,
    {
        User {
            email: self.email.clone(),
            password: self.password.clone(),
            requires_2fa: self.requires_2fa,
        }
    }
}

impl User {
    pub fn new(email: Email, password: HashedPassword, requires_2fa: bool) -> (r: Self)
        ensures
            r.email == email,
            r.password == password,
            r.requires_2fa == requires_2fa,
    {
        Self { email, password, requires_2fa }
    }
}

} // verus!
