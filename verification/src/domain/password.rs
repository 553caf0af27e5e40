//! Raw passwords and their salted Argon2id hashes.

use vstd::prelude::*;

verus! {

/// Outcome of checking a candidate password against a stored hash.
#[derive(Clone, Copy, Debug, PartialEq, Eq, Structural)]
pub enum PasswordVerifyError {
    /// The candidate does not match the hash.
    Mismatch,
    /// The hash could not be processed (unsupported parameters, resource
    /// exhaustion); says nothing about the candidate.
    VerificationFailed,
}

/// Holds of a PHC string produced by Argon2id hashing with this module's
/// parameters: for such a hash, verification is total and decided by
/// `argon2_matches` alone.
pub uninterp spec fn argon2_wf(h: Seq<char>) -> bool;

/// Whether `Argon2::verify_password` accepts candidate `p` against the PHC
/// string `h`; a function of the two strings alone.
pub uninterp spec fn argon2_matches(h: Seq<char>, p: Seq<char>) -> bool;

/// Whether `PasswordHash::new` parses `s` as a PHC-format hash string.
pub uninterp spec fn phc_ok(s: Seq<char>) -> bool;

/// The reserialization of the PHC string `s` after parsing; meaningful when
/// `phc_ok(s)`.
pub uninterp spec fn phc_canon(s: Seq<char>) -> Seq<char>;

/// What checking a candidate against a well-formed hash returns: success
/// exactly on a match, `Mismatch` otherwise.
pub open spec fn verify_result(h: Seq<char>, candidate: Seq<char>) -> Result<
    (),
    PasswordVerifyError,
> {
    if argon2_matches(h, candidate) {
        Ok(())
    } else {
        Err(PasswordVerifyError::Mismatch)
    }
}

/// Law: a hash freshly derived from a password verifies against that
/// password, and a candidate the hash does not match is reported as a
/// mismatch, never as success.
pub proof fn lemma_fresh_hash_verifies(h: Seq<char>, p: Seq<char>, q: Seq<char>)
    requires
        argon2_wf(h),
        argon2_matches(h, p),
    ensures
        verify_result(h, p) == Ok::<(), PasswordVerifyError>(()),
        !argon2_matches(h, q) ==> verify_result(h, q) == Err::<(), PasswordVerifyError>(
            PasswordVerifyError::Mismatch,
        ),
{
}

/// The exact PHC text prefix of every hash this module produces: the
/// algorithm, version and parameter fields, up to and including the `$`
/// before the salt.
pub open spec fn argon2id_prefix() -> Seq<char> {
    "$argon2id$v=19$m=15000,t=2,p=1$"@
}

/// Relies on `argon2::Argon2::hash_password` (Argon2id v19, m=15000 KiB,
/// t=2, p=1) with a fresh random salt. The returned PHC string verifies
/// against `password`, reparses to itself, and starts with the fixed
/// algorithm/version/parameter fields, followed by the salt and digest; the
/// salt is random, so two calls on one password may differ and nothing
/// links distinct results.
#[verifier::external_body]
fn compute_password_hash(password: &str) -> (r: Option<String>)
    ensures
        r matches Some(h) ==> argon2_wf(h@) && argon2_matches(h@, password@) && phc_ok(h@)
            && phc_canon(h@) == h@,
        r matches Some(h) ==> h@.len() > argon2id_prefix().len() && h@.take(
            argon2id_prefix().len() as int,
        ) == argon2id_prefix(),
{
    let params = match argon2::Params::new(15000, 2, 1, None) {
        Ok(p) => p,
        Err(_) => return None,
    };
    let hasher = argon2::Argon2::new(argon2::Algorithm::Argon2id, argon2::Version::V0x13, params);
    match argon2::password_hash::PasswordHasher::hash_password(&hasher, password.as_bytes()) {
        Ok(h) => Some(h.to_string()),
        Err(_) => None,
    }
}

/// Relies on `argon2::password_hash::phc::PasswordHash::new` and its
/// `Display`: `new` parses a PHC-format string, and the parsed value
/// reserializes to `phc_canon` of the input.
#[verifier::external_body]
fn parse_phc_string(s: &str) -> (r: Option<String>)
    ensures
        r is Some <==> phc_ok(s@),
        r matches Some(h) ==> h@ == phc_canon(s@),
{
    match argon2::password_hash::phc::PasswordHash::new(s) {
        Ok(ph) => Some(ph.to_string()),
        Err(_) => None,
    }
}

/// Relies on `argon2::Argon2::verify_password`: it recomputes the hash with
/// the parameters carried in the PHC string and compares in constant time;
/// `Error::PasswordInvalid` is returned exactly on mismatch, and for a hash
/// produced by `compute_password_hash` no other failure occurs.
#[verifier::external_body]
fn argon2_verify(hash: &str, candidate: &str) -> (r: Result<(), PasswordVerifyError>)
    ensures
        r is Ok ==> argon2_matches(hash@, candidate@),
        (r matches Err(e) && e == PasswordVerifyError::Mismatch) ==> !argon2_matches(hash@, candidate@),
        r is Err && argon2_wf(hash@) ==> !argon2_matches(hash@, candidate@),
        (r matches Err(e) && e == PasswordVerifyError::VerificationFailed) ==> !argon2_wf(hash@),
{
    let parsed = match argon2::password_hash::phc::PasswordHash::new(hash) {
        Ok(p) => p,
        Err(_) => return Err(PasswordVerifyError::VerificationFailed),
    };
    let verifier = argon2::Argon2::default();
    match argon2::password_hash::PasswordVerifier::verify_password(
        &verifier,
        candidate.as_bytes(),
        &parsed,
    ) {
        Ok(()) => Ok(()),
        Err(argon2::password_hash::Error::PasswordInvalid) => Err(PasswordVerifyError::Mismatch),
        Err(_) => Err(PasswordVerifyError::VerificationFailed),
    }
}

/// A raw password as supplied at login or signup: any string of at least 8
/// characters. Never persisted.
#[derive(Debug, Eq, PartialEq)]
pub struct Password(String);

impl View for Password {
    type V = Seq<char>;

    closed spec fn view(&self) -> Seq<char> {
        self.0@
    }
}

impl Clone for Password {
    fn clone(&self) -> (r: Self)
        ensures
            r == *self,
    {
        Password(self.0.clone())
    }
}

impl Password {
    /// Accepts exactly the strings of length at least 8; no other policy.
    pub fn parse(s: String) -> (r: Result<Self, String>)
        ensures
            r is Ok <==> s@.len() >= 8,
            r matches Ok(p) ==> p@ == s@,
    {
        if s.as_str().unicode_len() < 8 {
            Err("password must be at least 8 characters".to_owned())
        } else {
            Ok(Password(s))
        }
    }

    /// The password text, for handing to the hash check.
    pub fn as_ref(&self) -> (r: &str)
        ensures
            r@ == self@,
    {
        self.0.as_str()
    }
}

/// The salted, one-way Argon2id hash of a raw password: the only password
/// representation ever persisted or compared.
#[derive(Debug, Eq, PartialEq)]
pub struct HashedPassword(String);

impl View for HashedPassword {
    type V = Seq<char>;

    closed spec fn view(&self) -> Seq<char> {
        self.0@
    }
}

impl Clone for HashedPassword {
    fn clone(&self) -> (r: Self)
        ensures
            r == *self,
    {
        HashedPassword(self.0.clone())
    }
}

impl HashedPassword {
    /// Hashes a raw password under a fresh random salt. Rejects passwords of
    /// fewer than 8 characters; otherwise fails only when the hashing backend
    /// does (resource exhaustion).
    pub fn parse(s: String) -> (r: Result<Self, String>)
        ensures
            s@.len() < 8 ==> r is Err,
            r matches Ok(h) ==> s@.len() >= 8 && argon2_wf(h@) && argon2_matches(h@, s@)
                && phc_ok(h@) && phc_canon(h@) == h@,
            r matches Ok(h) ==> h@.len() > argon2id_prefix().len() && h@.take(
                argon2id_prefix().len() as int,
            ) == argon2id_prefix(),
    {
        if s.as_str().unicode_len() < 8 {
            return Err("invalid password provided".to_owned());
        }
        match compute_password_hash(s.as_str()) {
            Some(h) => Ok(HashedPassword(h)),
            None => Err("failed to hash password".to_owned()),
        }
    }

    /// Rehydrates a hash from storage: accepts exactly the PHC-format
    /// strings, normalized by a parse/reserialize round trip (the identity on
    /// anything this module produced).
    pub fn parse_password_hash(hash: String) -> (r: Result<HashedPassword, String>)
        ensures
            r is Ok <==> phc_ok(hash@),
            r matches Ok(h) ==> h@ == phc_canon(hash@),
    {
        match parse_phc_string(hash.as_str()) {
            Some(h) => Ok(HashedPassword(h)),
            None => Err("failed to parse password hash".to_owned()),
        }
    }

    /// Checks a candidate raw password against this hash without ever
    /// reconstructing the password. For a hash made by `parse`, the outcome
    /// is `Ok` exactly when the candidate matches.
    pub fn verify_raw_password(&self, password_candidate: &str) -> (r: Result<
        (),
        PasswordVerifyError,
    >)
        ensures
            r is Ok ==> argon2_matches(self@, password_candidate@),
            r == Err::<(), PasswordVerifyError>(PasswordVerifyError::Mismatch)
                ==> !argon2_matches(self@, password_candidate@),
            argon2_wf(self@) ==> r == verify_result(self@, password_candidate@),
    {
        let r = argon2_verify(self.0.as_str(), password_candidate);
        proof {
            if r is Ok {
                assert(r->Ok_0 == ());
            }
        }
        r
    }

    /// The stored PHC string.
    pub fn as_ref(&self) -> (r: &str)
        ensures
            r@ == self@,
    {
        self.0.as_str()
    }
}

} // verus!
