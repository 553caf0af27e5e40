//! Storage capabilities the authentication flows are written against, and
//! the typed identifiers of a second-factor challenge.

use vstd::prelude::*;

use crate::domain::email::Email;
use crate::domain::password::argon2_matches;
use crate::domain::password::argon2_wf;
use crate::domain::user::User;
use crate::domain::user::UserV;
use crate::utils::auth::all_digits;
use crate::utils::auth::dec_of;
use crate::utils::auth::hex_digit_char;
use crate::utils::auth::is_digit_char;
use crate::utils::auth::lemma_dec_of_digits;
use crate::utils::auth::to_dec_string;

verus! {

#[derive(Clone, Copy, Debug, PartialEq, Eq, Structural)]
pub enum UserStoreError {
    UserAlreadyExists,
    UserNotFound,
    InvalidCredentials,
    UnexpectedError,
}

#[derive(Clone, Copy, Debug, PartialEq, Eq, Structural)]
pub enum BannedTokenStoreError {
    UnexpectedError,
}

#[derive(Clone, Copy, Debug, PartialEq, Eq, Structural)]
pub enum TwoFACodeStoreError {
    LoginAttemptIdNotFound,
    UnexpectedError,
}

// ---------------------------------------------------------------------------
// Login attempt ids
// ---------------------------------------------------------------------------

/// A hexadecimal digit as it may appear in an attempt id.
pub open spec fn is_uuid_hex_char(c: char) -> bool {
    is_digit_char(c) || (97 <= c as u32 && c as u32 <= 102) || (65 <= c as u32 && c as u32 <= 70)
}

pub open spec fn is_uuid_hyphen_pos(i: int) -> bool {
    i == 8 || i == 13 || i == 18 || i == 23
}

/// The 8-4-4-4-12 hyphenated hexadecimal shape of an attempt id.
pub open spec fn is_uuid_str(s: Seq<char>) -> bool {
    &&& s.len() == 36
    &&& forall|i: int|
        0 <= i < 36 ==> if is_uuid_hyphen_pos(i) {
            #[trigger] s[i] == '-'
        } else {
            is_uuid_hex_char(s[i])
        }
}

fn is_uuid_hex_exec(c: char) -> (r: bool)
    ensures
        r == is_uuid_hex_char(c),
{
    let u = c as u32;
    (48 <= u && u <= 57) || (97 <= u && u <= 102) || (65 <= u && u <= 70)
}

/// Relies on `rand::random`: a fresh draw from the process RNG; nothing is
/// assumed about the value.
#[verifier::external_body]
fn random_u128() -> u128 {
    rand::random()
}

/// The opaque identifier of one login attempt awaiting its second factor.
/// Generated fresh per challenge; compared by exact value.
#[derive(Debug, Eq, PartialEq)]
pub struct LoginAttemptId(String);

impl View for LoginAttemptId {
    type V = Seq<char>;

    closed spec fn view(&self) -> Seq<char> {
        self.0@
    }
}

impl Clone for LoginAttemptId {
    fn clone(&self) -> (r: Self)
        ensures
            r == *self,
    {
        LoginAttemptId(self.0.clone())
    }
}

impl LoginAttemptId {
    /// Accepts exactly the 36-character hyphenated hexadecimal shape.
    pub fn parse(id: String) -> (r: Result<Self, String>)
        ensures
            r is Ok <==> is_uuid_str(id@),
            r matches Ok(v) ==> v@ == id@,
    {
        let n = id.as_str().unicode_len();
        if n != 36 {
            return Err("invalid login attempt id".to_owned());
        }
        let mut i: usize = 0;
        while i < 36
            invariant
                0 <= i <= 36,
                id@.len() == 36,
                forall|j: int|
                    0 <= j < i ==> if is_uuid_hyphen_pos(j) {
                        #[trigger] id@[j] == '-'
                    } else {
                        is_uuid_hex_char(id@[j])
                    },
            decreases 36 - i,
        {
            let c = id.as_str().get_char(i);
            if i == 8 || i == 13 || i == 18 || i == 23 {
                if c != '-' {
                    return Err("invalid login attempt id".to_owned());
                }
            } else {
                if !is_uuid_hex_exec(c) {
                    return Err("invalid login attempt id".to_owned());
                }
            }
            i = i + 1;
        }
        Ok(LoginAttemptId(id))
    }

    /// The id as text.
    pub fn as_ref(&self) -> (r: &str)
        ensures
            r@ == self@,
    {
        self.0.as_str()
    }

    /// Exact-value comparison.
    pub fn same_as(&self, other: &LoginAttemptId) -> (r: bool)
        ensures
            r == (self@ == other@),
    {
        self.0 == other.0
    }
}

proof fn lemma_hex_digit_char_is_uuid_hex(d: int)
    requires
        0 <= d < 16,
    ensures
        is_uuid_hex_char(hex_digit_char(d)),
        hex_digit_char(d) != '-',
{
}

impl Default for LoginAttemptId {
    /// A fresh random attempt id in the hyphenated hexadecimal shape.
    fn default() -> (r: Self)
        ensures
            is_uuid_str(r@),
    {
        let mut n = random_u128();
        let mut s = String::new();
        let mut p: usize = 0;
        while p < 36
            invariant
                0 <= p <= 36,
                s@.len() == p,
                forall|j: int|
                    0 <= j < p ==> if is_uuid_hyphen_pos(j) {
                        #[trigger] s@[j] == '-'
                    } else {
                        is_uuid_hex_char(s@[j])
                    },
            decreases 36 - p,
        {
            if p == 8 || p == 13 || p == 18 || p == 23 {
                proof {
                    reveal_strlit("-");
                }
                s.append("-");
            } else {
                let d = (n % 16) as u8;
                n = n / 16;
                s.append(crate::utils::auth::hex_digit_str(d));
                proof {
                    lemma_hex_digit_char_is_uuid_hex(d as int);
                }
            }
            p = p + 1;
        }
        LoginAttemptId(s)
    }
}

// ---------------------------------------------------------------------------
// Second-factor codes
// ---------------------------------------------------------------------------

/// The fixed shape of a one-time code: six decimal digits, no leading zero.
pub open spec fn is_two_fa_code(s: Seq<char>) -> bool {
    &&& s.len() == 6
    &&& all_digits(s)
    &&& s[0] != '0'
}

/// A one-time second-factor code. Generated fresh per challenge; compared by
/// exact value; single-use.
#[derive(Debug, Eq, PartialEq)]
pub struct TwoFACode(String);

impl View for TwoFACode {
    type V = Seq<char>;

    closed spec fn view(&self) -> Seq<char> {
        self.0@
    }
}

impl Clone for TwoFACode {
    fn clone(&self) -> (r: Self)
        ensures
            r == *self,
    {
        TwoFACode(self.0.clone())
    }
}

impl TwoFACode {
    /// Accepts exactly six decimal digits with a nonzero leading digit.
    pub fn parse(code: String) -> (r: Result<Self, String>)
        ensures
            r is Ok <==> is_two_fa_code(code@),
            r matches Ok(v) ==> v@ == code@,
    {
        let n = code.as_str().unicode_len();
        if n != 6 {
            return Err("invalid 2FA code".to_owned());
        }
        let mut i: usize = 0;
        while i < 6
            invariant
                0 <= i <= 6,
                code@.len() == 6,
                forall|j: int| 0 <= j < i ==> is_digit_char(#[trigger] code@[j]),
            decreases 6 - i,
        {
            let c = code.as_str().get_char(i);
            let u = c as u32;
            if !(48 <= u && u <= 57) {
                return Err("invalid 2FA code".to_owned());
            }
            i = i + 1;
        }
        if code.as_str().get_char(0) == '0' {
            return Err("invalid 2FA code".to_owned());
        }
        Ok(TwoFACode(code))
    }

    /// The code as text.
    pub fn as_ref(&self) -> (r: &str)
        ensures
            r@ == self@,
    {
        self.0.as_str()
    }

    /// Exact-value comparison.
    pub fn same_as(&self, other: &TwoFACode) -> (r: bool)
        ensures
            r == (self@ == other@),
    {
        self.0 == other.0
    }
}

impl Default for TwoFACode {
    /// A fresh random code in the six-digit shape.
    fn default() -> (r: Self)
        ensures
            is_two_fa_code(r@),
    {
        let draw = random_u128();
        let n: u64 = 100000 + ((draw % 900000) as u64);
        let s = to_dec_string(n);
        proof {
            lemma_dec_of_digits(n as nat);
            crate::utils::auth::lemma_dec_of_len_six(n as nat);
            crate::utils::auth::lemma_dec_of_first_nonzero(n as nat);
        }
        TwoFACode(s)
    }
}

/// Law: a challenge, once consumed, is unreachable: whatever was stored,
/// removing an identity's entry leaves nothing for verification to find
/// under that identity.
pub proof fn lemma_consumed_challenge_unreachable(
    codes: Map<Seq<char>, (Seq<char>, Seq<char>)>,
    email: Seq<char>,
)
    ensures
        !codes.remove(email).contains_key(email),
{
}

// ---------------------------------------------------------------------------
// Storage capabilities
// ---------------------------------------------------------------------------

/// Identity storage: one user per email address. The abstract contents are a
/// map from address to user record.
pub trait UserStore {
    /// The abstract contents: one record per address. An implementation
    /// outside the verifier's view (a persistence driver) inherits this
    /// unmodeled default.
    open spec fn users(&self) -> Map<Seq<char>, UserV> {
        Map::empty()
    }

    /// Adds a new user; an identity that is already present is a conflict
    /// and leaves the store unchanged.
    fn add_user(&mut self, user: User) -> (r: Result<(), UserStoreError>)
        ensures
            r is Ok ==> !old(self).users().contains_key(user.email@) && final(self).users()
                == old(self).users().insert(user.email@, user@),
            r matches Err(e) && e == UserStoreError::UserAlreadyExists ==> old(
                self,
            ).users().contains_key(user.email@),
            r is Err ==> final(self).users() == old(self).users(),
    ;

    /// Looks an identity up.
    fn get_user(&self, email: &Email) -> (r: Result<User, UserStoreError>)
        ensures
            r matches Ok(u) ==> self.users().contains_key(email@) && u@ == self.users()[email@],
            r matches Err(e) && e == UserStoreError::UserNotFound ==> !self.users().contains_key(
                email@,
            ),
    ;

    /// Checks a candidate raw password against the stored hash. Success is
    /// owed exactly when the user exists and the candidate matches, as far
    /// as the hash is one this crate produced (`argon2_wf`).
    fn validate_user(&self, email: &Email, raw_password: &str) -> (r: Result<(), UserStoreError>)
        ensures
            r is Ok ==> self.users().contains_key(email@) && argon2_matches(
                self.users()[email@].password,
                raw_password@,
            ),
            r matches Err(e) && e == UserStoreError::UserNotFound ==> !self.users().contains_key(
                email@,
            ),
            r is Err && self.users().contains_key(email@) && argon2_wf(
                self.users()[email@].password,
            ) ==> !argon2_matches(self.users()[email@].password, raw_password@),
    ;
}

/// Revocation storage: the set of session tokens that must no longer be
/// accepted. Absence means "not revoked", never "unknown".
pub trait BannedTokenStore {
    /// The abstract contents: the revoked tokens. An implementation outside
    /// the verifier's view (a persistence driver) inherits this unmodeled
    /// default.
    open spec fn tokens(&self) -> Set<Seq<char>> {
        Set::empty()
    }

    /// Records a token as revoked; idempotent.
    fn store_token(&mut self, token: String) -> (r: Result<(), BannedTokenStoreError>)
        ensures
            r is Ok ==> final(self).tokens() == old(self).tokens().insert(token@),
            r is Err ==> final(self).tokens() == old(self).tokens(),
    ;

    /// Whether the token has been revoked.
    fn contains_token(&self, token: &str) -> (r: Result<bool, BannedTokenStoreError>)
        ensures
            r matches Ok(b) ==> b == self.tokens().contains(token@),
    ;
}

/// Second-factor challenge storage: at most one live challenge per identity.
pub trait TwoFACodeStore {
    /// The abstract contents: the pending challenge per address. An
    /// implementation outside the verifier's view (a persistence driver)
    /// inherits this unmodeled default.
    open spec fn codes(&self) -> Map<Seq<char>, (Seq<char>, Seq<char>)> {
        Map::empty()
    }

    /// Stores a challenge, silently replacing any existing one for the same
    /// identity.
    fn add_code(&mut self, email: Email, login_attempt_id: LoginAttemptId, code: TwoFACode) -> (r:
        Result<(), TwoFACodeStoreError>)
        ensures
            r is Ok ==> final(self).codes() == old(self).codes().insert(
                email@,
                (login_attempt_id@, code@),
            ),
            r is Err ==> final(self).codes() == old(self).codes(),
    ;

    /// Removes the challenge for an identity; called once, on successful
    /// verification, to enforce single use.
    fn remove_code(&mut self, email: &Email) -> (r: Result<(), TwoFACodeStoreError>)
        ensures
            r is Ok ==> final(self).codes() == old(self).codes().remove(email@),
            r is Err ==> final(self).codes() == old(self).codes(),
    ;

    /// The pending challenge for an identity; `LoginAttemptIdNotFound`
    /// covers both "never issued" and "expired or evicted".
    fn get_code(&self, email: &Email) -> (r: Result<
        (LoginAttemptId, TwoFACode),
        TwoFACodeStoreError,
    >)
        ensures
            r matches Ok(p) ==> self.codes().contains_key(email@) && self.codes()[email@] == (
                p.0@,
                p.1@,
            ),
            r matches Err(e) && e == TwoFACodeStoreError::LoginAttemptIdNotFound
                ==> !self.codes().contains_key(email@),
    ;
}

} // verus!
