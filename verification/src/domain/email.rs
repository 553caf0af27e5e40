//! Validated email addresses, the identity key of the whole service.

use vstd::prelude::*;

verus! {

/// The set of strings that `validator`'s email check accepts: the HTML5
/// email grammar (one `@` separating a user part and a domain part).
pub uninterp spec fn email_ok(s: Seq<char>) -> bool;

/// Relies on `validator::ValidateEmail::validate_email` for `String`:
/// it returns false for the empty string and for any string without an `@`.
#[verifier::external_body]
fn validate_email_string(s: &String) -> (r: bool)
    ensures
        r == email_ok(s@),
        s@.len() == 0 ==> !r,
        !s@.contains('@') ==> !r,
{
    validator::ValidateEmail::validate_email(s)
}

/// A syntactically valid, case-sensitive email address. Immutable once
/// constructed; the unique key for users, challenges and 2FA records.
#[derive(Debug, Eq, Hash, PartialEq)]
pub struct Email(String);

impl View for Email {
    type V = Seq<char>;

    closed spec fn view(&self) -> Seq<char> {
        self.0@
    }
}

impl Clone for Email {
    fn clone(&self) -> (r: Self)
        ensures
            r == *self,
    {
        Email(self.0.clone())
    }
}

impl Email {
    /// Validates `s` as an email address; rejects in particular the empty
    /// string and anything without an `@`.
    pub fn parse(s: String) -> (r: Result<Self, String>)
        ensures
            r is Ok <==> email_ok(s@),
            r matches Ok(e) ==> e@ == s@,
            s@.len() == 0 ==> r is Err,
            !s@.contains('@') ==> r is Err,
    {
        if validate_email_string(&s) {
            Ok(Email(s))
        } else {
            Err("not a valid email address".to_owned())
        }
    }

    /// The address as text, unchanged from what `parse` accepted.
    pub fn as_ref(&self) -> (r: &str)
        ensures
            r@ == self@,
    {
        self.0.as_str()
    }

    /// Exact-value comparison of two addresses.
    pub fn same_as(&self, other: &Email) -> (r: bool)
        ensures
            r == (self@ == other@),
    {
        self.0 == other.0
    }
}

} // verus!
