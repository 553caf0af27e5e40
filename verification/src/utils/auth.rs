//! Session tokens: minting, signature and expiry checking, and revocation
//! lookup.
//!
//! A token is a single line of text: a 64-digit hexadecimal tag, a `.`, the
//! expiry time in decimal seconds, a `.`, and the identity. The tag is an
//! HMAC-SHA256 over everything after the first `.` under a process-wide
//! secret key, so a token is stateless to verify except for the revocation
//! check, which comes last.

use vstd::prelude::*;

use crate::domain::data_stores::BannedTokenStore;
use crate::domain::email::Email;

verus! {

/// Shared lifetime of a session token in seconds; the revocation store uses
/// the same constant as its record time-to-live.
pub const TOKEN_TTL_SECONDS: u64 = 600;

// ---------------------------------------------------------------------------
// Decimal digits
// ---------------------------------------------------------------------------

pub open spec fn is_digit_char(c: char) -> bool {
    48 <= c as u32 && c as u32 <= 57
}

/// Numeric value of a decimal digit character.
pub open spec fn digit_char_val(c: char) -> int {
    c as u32 - 48
}

/// The decimal digit character for `n` in 0..10.
pub open spec fn dec_digit_char(n: int) -> char {
    if n == 0 {
        '0'
    } else if n == 1 {
        '1'
    } else if n == 2 {
        '2'
    } else if n == 3 {
        '3'
    } else if n == 4 {
        '4'
    } else if n == 5 {
        '5'
    } else if n == 6 {
        '6'
    } else if n == 7 {
        '7'
    } else if n == 8 {
        '8'
    } else {
        '9'
    }
}

/// The usual decimal rendering of `n`, most significant digit first, no
/// leading zeros (except for `n == 0` itself).
pub open spec fn dec_of(n: nat) -> Seq<char>
    decreases n,
{
    if n < 10 {
        seq![dec_digit_char(n as int)]
    } else {
        dec_of(n / 10).push(dec_digit_char((n % 10) as int))
    }
}

/// The number a digit string denotes, most significant digit first.
pub open spec fn dec_val(s: Seq<char>) -> int
    decreases s.len(),
{
    if s.len() == 0 {
        0
    } else {
        dec_val(s.drop_last()) * 10 + digit_char_val(s.last())
    }
}

pub open spec fn all_digits(s: Seq<char>) -> bool {
    forall|i: int| 0 <= i < s.len() ==> is_digit_char(#[trigger] s[i])
}

pub proof fn lemma_dec_of_digits(n: nat)
    ensures
        all_digits(dec_of(n)),
        dec_of(n).len() >= 1,
        is_digit_char(dec_of(n)[0]),
    decreases n,
{
    if n < 10 {
    } else {
        lemma_dec_of_digits(n / 10);
        assert forall|i: int| 0 <= i < dec_of(n).len() implies is_digit_char(
            #[trigger] dec_of(n)[i],
        ) by {
            if i < dec_of(n / 10).len() {
                assert(dec_of(n)[i] == dec_of(n / 10)[i]);
            }
        }
    }
}

/// The value of a decimal digit character is the digit it was made from.
pub proof fn lemma_dec_digit_char_val(n: int)
    requires
        0 <= n < 10,
    ensures
        digit_char_val(dec_digit_char(n)) == n,
        is_digit_char(dec_digit_char(n)),
{
}

pub proof fn lemma_dec_round_trip(n: nat)
    ensures
        dec_val(dec_of(n)) == n,
    decreases n,
{
    if n < 10 {
        lemma_dec_digit_char_val(n as int);
        let s = dec_of(n);
        assert(s.len() == 1);
        assert(s.last() == dec_digit_char(n as int));
        assert(s.drop_last() =~= Seq::<char>::empty());
        assert(dec_val(s.drop_last()) == 0);
        assert(dec_val(s) == digit_char_val(dec_digit_char(n as int)));
    } else {
        lemma_dec_round_trip(n / 10);
        lemma_dec_digit_char_val((n % 10) as int);
        let s = dec_of(n);
        assert(s == dec_of(n / 10).push(dec_digit_char((n % 10) as int)));
        assert(s.last() == dec_digit_char((n % 10) as int));
        assert(s.drop_last() =~= dec_of(n / 10));
        assert(dec_val(s) == dec_val(dec_of(n / 10)) * 10 + digit_char_val(
            dec_digit_char((n % 10) as int),
        ));
        assert(n == (n / 10) * 10 + n % 10);
    }
}

/// A digit string's value never shrinks as more digits are appended.
pub proof fn lemma_dec_val_prefix_monotone(s: Seq<char>, i: int, j: int)
    requires
        all_digits(s),
        0 <= i <= j <= s.len(),
    ensures
        dec_val(s.take(i)) <= dec_val(s.take(j)),
        0 <= dec_val(s.take(i)),
    decreases j - i,
{
    if i == j {
        lemma_dec_val_nonneg(s.take(i));
    } else {
        lemma_dec_val_prefix_monotone(s, i, j - 1);
        assert(s.take(j).drop_last() =~= s.take(j - 1));
        assert(is_digit_char(s[j - 1]));
        lemma_dec_val_nonneg(s.take(j - 1));
    }
}

pub proof fn lemma_dec_val_nonneg(s: Seq<char>)
    requires
        forall|i: int| 0 <= i < s.len() ==> is_digit_char(#[trigger] s[i]),
    ensures
        0 <= dec_val(s),
    decreases s.len(),
{
    if s.len() > 0 {
        assert(forall|i: int|
            0 <= i < s.drop_last().len() ==> is_digit_char(#[trigger] s.drop_last()[i]));
        lemma_dec_val_nonneg(s.drop_last());
    }
}

/// The leading digit of a positive number is never zero.
pub proof fn lemma_dec_of_first_nonzero(n: nat)
    requires
        n >= 1,
    ensures
        dec_of(n)[0] != '0',
    decreases n,
{
    if n < 10 {
    } else {
        lemma_dec_of_digits(n / 10);
        lemma_dec_of_first_nonzero(n / 10);
        assert(dec_of(n)[0] == dec_of(n / 10)[0]);
    }
}

proof fn lemma_dec_of_len_step(n: nat)
    requires
        n >= 10,
    ensures
        dec_of(n).len() == dec_of(n / 10).len() + 1,
{
}

/// A number in the six-digit range renders as six digits.
pub proof fn lemma_dec_of_len_six(n: nat)
    requires
        100000 <= n <= 999999,
    ensures
        dec_of(n).len() == 6,
{
    lemma_dec_of_len_step(n);
    lemma_dec_of_len_step(n / 10);
    lemma_dec_of_len_step(n / 10 / 10);
    lemma_dec_of_len_step(n / 10 / 10 / 10);
    lemma_dec_of_len_step(n / 10 / 10 / 10 / 10);
    assert(n / 10 / 10 / 10 / 10 / 10 < 10);
    assert(n / 10 / 10 / 10 / 10 / 10 >= 1);
}

// ---------------------------------------------------------------------------
// Hexadecimal digits
// ---------------------------------------------------------------------------

/// The lowercase hexadecimal digit character for `n` in 0..16.
pub open spec fn hex_digit_char(n: int) -> char {
    if n < 10 {
        dec_digit_char(n)
    } else if n == 10 {
        'a'
    } else if n == 11 {
        'b'
    } else if n == 12 {
        'c'
    } else if n == 13 {
        'd'
    } else if n == 14 {
        'e'
    } else {
        'f'
    }
}

/// Lowercase hexadecimal rendering of a byte string, two digits per byte.
pub open spec fn hex_of(b: Seq<u8>) -> Seq<char>
    decreases b.len(),
{
    if b.len() == 0 {
        Seq::<char>::empty()
    } else {
        hex_of(b.drop_last()).push(hex_digit_char(b.last() as int / 16)).push(
            hex_digit_char(b.last() as int % 16),
        )
    }
}

pub proof fn lemma_hex_of_len(b: Seq<u8>)
    ensures
        hex_of(b).len() == 2 * b.len(),
    decreases b.len(),
{
    if b.len() > 0 {
        lemma_hex_of_len(b.drop_last());
    }
}

// ---------------------------------------------------------------------------
// Exec rendering
// ---------------------------------------------------------------------------

fn dec_digit_str(d: u64) -> (r: &'static str)
    requires
        d < 10,
    ensures
        r@ =~= seq![dec_digit_char(d as int)],
{
    proof {
        reveal_strlit("0");
        reveal_strlit("1");
        reveal_strlit("2");
        reveal_strlit("3");
        reveal_strlit("4");
        reveal_strlit("5");
        reveal_strlit("6");
        reveal_strlit("7");
        reveal_strlit("8");
        reveal_strlit("9");
    }
    if d == 0 {
        "0"
    } else if d == 1 {
        "1"
    } else if d == 2 {
        "2"
    } else if d == 3 {
        "3"
    } else if d == 4 {
        "4"
    } else if d == 5 {
        "5"
    } else if d == 6 {
        "6"
    } else if d == 7 {
        "7"
    } else if d == 8 {
        "8"
    } else {
        "9"
    }
}

pub fn hex_digit_str(d: u8) -> (r: &'static str)
    requires
        d < 16,
    ensures
        r@ =~= seq![hex_digit_char(d as int)],
{
    proof {
        reveal_strlit("a");
        reveal_strlit("b");
        reveal_strlit("c");
        reveal_strlit("d");
        reveal_strlit("e");
        reveal_strlit("f");
    }
    if d < 10 {
        dec_digit_str(d as u64)
    } else if d == 10 {
        "a"
    } else if d == 11 {
        "b"
    } else if d == 12 {
        "c"
    } else if d == 13 {
        "d"
    } else if d == 14 {
        "e"
    } else {
        "f"
    }
}

/// Renders `n` in decimal, exactly as `dec_of` describes.
pub fn to_dec_string(n: u64) -> (r: String)
    ensures
        r@ == dec_of(n as nat),
    decreases n,
{
    if n < 10 {
        let mut s = String::new();
        s.append(dec_digit_str(n));
        proof {
            assert(s@ =~= dec_of(n as nat));
        }
        s
    } else {
        let mut s = to_dec_string(n / 10);
        s.append(dec_digit_str(n % 10));
        proof {
            assert(s@ =~= dec_of(n as nat));
        }
        s
    }
}

/// Renders a byte string in lowercase hexadecimal, exactly as `hex_of`
/// describes.
pub fn to_hex_string(bytes: &Vec<u8>) -> (r: String)
    ensures
        r@ == hex_of(bytes@),
{
    let mut s = String::new();
    let mut i: usize = 0;
    proof {
        assert(s@ =~= hex_of(bytes@.take(0)));
    }
    while i < bytes.len()
        invariant
            i <= bytes@.len(),
            s@ == hex_of(bytes@.take(i as int)),
        decreases bytes@.len() - i,
    {
        let b = bytes[i];
        s.append(hex_digit_str(b / 16));
        s.append(hex_digit_str(b % 16));
        proof {
            assert(bytes@.take(i + 1).drop_last() =~= bytes@.take(i as int));
            assert(s@ =~= hex_of(bytes@.take(i + 1)));
        }
        i = i + 1;
    }
    proof {
        assert(bytes@.take(bytes@.len() as int) =~= bytes@);
    }
    s
}

// ---------------------------------------------------------------------------
// The signature tag
// ---------------------------------------------------------------------------

/// The HMAC-SHA256 tag of `msg` (as UTF-8 bytes) under key `key` (as UTF-8
/// bytes): a function of the two strings alone.
pub uninterp spec fn mac_of(key: Seq<char>, msg: Seq<char>) -> Seq<u8>;

/// Relies on `hmac::Hmac<sha2::Sha256>`: HMAC accepts a key of any length
/// and returns the 32-byte SHA-256 output, a pure function of key and
/// message.
#[verifier::external_body]
fn hmac_sha256_tag(key: &str, msg: &str) -> (r: Vec<u8>)
    ensures
        r@ == mac_of(key@, msg@),
        r@.len() == 32,
{
    let mut mac = <hmac::Hmac<sha2::Sha256> as hmac::KeyInit>::new_from_slice(key.as_bytes())
        .expect("HMAC accepts a key of any length");
    hmac::Mac::update(&mut mac, msg.as_bytes());
    hmac::Mac::finalize(mac).into_bytes().to_vec()
}

// ---------------------------------------------------------------------------
// Token shape
// ---------------------------------------------------------------------------

/// The part of a token after the expiry field: `<decimal expiry>.<identity>`.
pub open spec fn token_message(email: Seq<char>, exp: nat) -> Seq<char> {
    dec_of(exp) + seq!['.'] + email
}

/// The exact text of a token minted for `email` with expiry `exp` under
/// `key`: 64 hexadecimal tag digits, a dot, and the message.
pub open spec fn token_for(key: Seq<char>, email: Seq<char>, exp: nat) -> Seq<char> {
    hex_of(mac_of(key, token_message(email, exp))) + seq!['.'] + token_message(email, exp)
}

/// Length of the leading run of decimal digits.
pub open spec fn digit_run(s: Seq<char>) -> nat
    decreases s.len(),
{
    if s.len() == 0 || !is_digit_char(s[0]) {
        0
    } else {
        1 + digit_run(s.skip(1))
    }
}

/// The digit run is the unique cut at the first non-digit.
pub proof fn lemma_digit_run_is(s: Seq<char>, k: int)
    requires
        0 <= k <= s.len(),
        forall|j: int| 0 <= j < k ==> is_digit_char(#[trigger] s[j]),
        k < s.len() ==> !is_digit_char(s[k]),
    ensures
        digit_run(s) == k,
    decreases s.len(),
{
    if k == 0 {
    } else {
        assert(is_digit_char(s[0]));
        assert forall|j: int| 0 <= j < k - 1 implies is_digit_char(#[trigger] s.skip(1)[j]) by {
            assert(s.skip(1)[j] == s[j + 1]);
        }
        if k - 1 < s.skip(1).len() {
            assert(s.skip(1)[k - 1] == s[k]);
        }
        lemma_digit_run_is(s.skip(1), k - 1);
    }
}

pub open spec fn tag_of(t: Seq<char>) -> Seq<char> {
    t.take(64)
}

pub open spec fn message_of(t: Seq<char>) -> Seq<char> {
    t.skip(65)
}

pub open spec fn exp_digits_of(t: Seq<char>) -> Seq<char> {
    message_of(t).take(digit_run(message_of(t)) as int)
}

/// The expiry a token's text carries, as an unbounded integer.
pub open spec fn exp_of(t: Seq<char>) -> int {
    dec_val(exp_digits_of(t))
}

/// The identity a token's text carries.
pub open spec fn email_of(t: Seq<char>) -> Seq<char> {
    message_of(t).skip(digit_run(message_of(t)) as int + 1)
}

/// Structural well-formedness: tag, dot, nonempty digit field that fits in
/// `u64`, dot, identity.
pub open spec fn token_struct_wf(t: Seq<char>) -> bool {
    let m = message_of(t);
    let k = digit_run(m) as int;
    &&& t.len() > 65
    &&& t[64] == '.'
    &&& k >= 1
    &&& k < m.len()
    &&& m[k] == '.'
    &&& exp_of(t) <= u64::MAX
}

/// Whether the tag is the HMAC of the message under `key`.
pub open spec fn token_sig_ok(key: Seq<char>, t: Seq<char>) -> bool {
    tag_of(t) == hex_of(mac_of(key, message_of(t)))
}

/// Abstract value of `Claims`.
pub ghost struct ClaimsV {
    pub sub: Seq<char>,
    pub exp: u64,
}

/// The identity and expiry recovered from a validated token.
#[derive(Debug, Eq, PartialEq)]
pub struct Claims {
    pub sub: String,
    pub exp: u64,
}

impl Clone for Claims {
    fn clone(&self) -> (r: Self)
        ensures
            r == *self,
    {
        Claims { sub: self.sub.clone(), exp: self.exp }
    }
}

impl View for Claims {
    type V = ClaimsV;

    open spec fn view(&self) -> ClaimsV {
        ClaimsV { sub: self.sub@, exp: self.exp }
    }
}

/// Why a token was rejected.
#[derive(Clone, Copy, Debug, PartialEq, Eq, Structural)]
pub enum TokenValidationError {
    /// Not even the right shape; checked before anything else.
    MalformedToken,
    /// The tag is not the HMAC of the message under the process key.
    BadSignature,
    /// Structure and signature are fine but the expiry has passed.
    Expired,
    /// Valid but revoked; only ever reported after the cheap checks pass.
    Revoked,
    /// The revocation store could not answer.
    StoreFailed,
}

/// The full validation pipeline as one function of the token text: shape,
/// then signature, then expiry, then revocation.
pub open spec fn validate_outcome(
    key: Seq<char>,
    banned: Set<Seq<char>>,
    t: Seq<char>,
    now: u64,
) -> Result<ClaimsV, TokenValidationError> {
    if !token_struct_wf(t) {
        Err(TokenValidationError::MalformedToken)
    } else if !token_sig_ok(key, t) {
        Err(TokenValidationError::BadSignature)
    } else if exp_of(t) <= now {
        Err(TokenValidationError::Expired)
    } else if banned.contains(t) {
        Err(TokenValidationError::Revoked)
    } else {
        Ok(ClaimsV { sub: email_of(t), exp: exp_of(t) as u64 })
    }
}

// ---------------------------------------------------------------------------
// Minting and validating
// ---------------------------------------------------------------------------

/// Mints the session token for `email` expiring at `now + TOKEN_TTL_SECONDS`,
/// signed under `key`. No storage is touched.
pub fn generate_auth_token(email: &Email, key: &str, now: u64) -> (r: String)
    requires
        now + TOKEN_TTL_SECONDS <= u64::MAX,
    ensures
        r@ == token_for(key@, email@, (now + TOKEN_TTL_SECONDS) as nat),
        mac_of(key@, token_message(email@, (now + TOKEN_TTL_SECONDS) as nat)).len() == 32,
{
    let exp: u64 = now + TOKEN_TTL_SECONDS;
    let mut msg = to_dec_string(exp);
    msg.append(".");
    msg.append(email.as_ref());
    proof {
        reveal_strlit(".");
        assert("."@ =~= seq!['.']);
        assert(msg@ =~= token_message(email@, exp as nat));
    }
    let tag_bytes = hmac_sha256_tag(key, msg.as_str());
    let mut token = to_hex_string(&tag_bytes);
    token.append(".");
    token.append(msg.as_str());
    proof {
        assert(token@ =~= token_for(key@, email@, exp as nat));
    }
    token
}

fn is_digit_char_exec(c: char) -> (r: bool)
    ensures
        r == is_digit_char(c),
{
    let u: u32 = c as u32;
    48 <= u && u <= 57
}

/// Validates a token: signature first (cheap, no I/O), then expiry, then —
/// only if both pass — the revocation store. Returns the claims carried by
/// the token, or the first failure in that order.
pub fn validate_token<B: BannedTokenStore>(
    token: &str,
    banned_token_store: &B,
    key: &str,
    now: u64,
) -> (r: Result<Claims, TokenValidationError>)
    ensures
        r matches Ok(c) ==> validate_outcome(key@, banned_token_store.tokens(), token@, now)
            == Ok::<ClaimsV, TokenValidationError>(c@),
        r is Err && r->Err_0 != TokenValidationError::StoreFailed ==> validate_outcome(
            key@,
            banned_token_store.tokens(),
            token@,
            now,
        ) == Err::<ClaimsV, TokenValidationError>(r->Err_0),
        !token_struct_wf(token@) ==> r == Err::<Claims, TokenValidationError>(
            TokenValidationError::MalformedToken,
        ),
        token_struct_wf(token@) && !token_sig_ok(key@, token@) ==> r == Err::<
            Claims,
            TokenValidationError,
        >(TokenValidationError::BadSignature),
        token_struct_wf(token@) && token_sig_ok(key@, token@) && exp_of(token@) <= now ==> r
            == Err::<Claims, TokenValidationError>(TokenValidationError::Expired),
{
    let ghost m = token@.skip(65);
    let n: usize = token.unicode_len();
    if n < 66 {
        return Err(TokenValidationError::MalformedToken);
    }
    if token.get_char(64) != '.' {
        return Err(TokenValidationError::MalformedToken);
    }
    let msg_len: usize = n - 65;

    // Measure the leading digit run of the message.
    let mut k: usize = 0;
    while k < msg_len
        invariant
            0 <= k <= msg_len,
            n == token@.len(),
            n >= 66,
            msg_len == n - 65,
            m == token@.skip(65),
            forall|j: int| 0 <= j < k ==> is_digit_char(#[trigger] m[j]),
        ensures
            0 <= k <= msg_len,
            n == token@.len(),
            msg_len == n - 65,
            forall|j: int| 0 <= j < k ==> is_digit_char(#[trigger] m[j]),
            k < msg_len ==> !is_digit_char(m[k as int]),
        decreases msg_len - k,
    {
        let c = token.get_char(65 + k);
        proof {
            assert(m[k as int] == token@[65 + k as int]);
        }
        if !is_digit_char_exec(c) {
            break ;
        }
        k = k + 1;
    }
    proof {
        lemma_digit_run_is(m, k as int);
    }
    if k == 0 {
        return Err(TokenValidationError::MalformedToken);
    }
    if k >= msg_len {
        return Err(TokenValidationError::MalformedToken);
    }
    if token.get_char(65 + k) != '.' {
        proof {
            assert(m[k as int] == token@[65 + k as int]);
        }
        return Err(TokenValidationError::MalformedToken);
    }
    proof {
        assert(m[k as int] == token@[65 + k as int]);
    }

    // Parse the expiry field, rejecting values that do not fit in u64.
    let ghost digits = m.take(k as int);
    let mut exp: u64 = 0;
    let mut i: usize = 0;
    proof {
        assert(digits.take(0) =~= Seq::<char>::empty());
    }
    while i < k
        invariant
            0 <= i <= k,
            k <= msg_len,
            n == token@.len(),
            n >= 66,
            msg_len == n - 65,
            m == token@.skip(65),
            digits == m.take(k as int),
            forall|j: int| 0 <= j < k ==> is_digit_char(#[trigger] m[j]),
            exp == dec_val(digits.take(i as int)),
            digit_run(m) == k,
        decreases k - i,
    {
        let c = token.get_char(65 + i);
        proof {
            assert(m[i as int] == token@[65 + i as int]);
            assert(digits[i as int] == m[i as int]);
        }
        let d: u64 = (c as u32 - 48) as u64;
        if exp > (u64::MAX - d) / 10 {
            // The full digit field can only be larger still.
            proof {
                lemma_token_exp_overflow(m, digits, i as int, k as int, exp, d);
            }
            return Err(TokenValidationError::MalformedToken);
        }
        proof {
            assert(digits.take(i + 1).drop_last() =~= digits.take(i as int));
            assert(exp * 10 + d <= u64::MAX) by {
                lemma_mul_div_le(exp as int, d as int);
            }
        }
        exp = exp * 10 + d;
        i = i + 1;
    }
    proof {
        assert(digits.take(k as int) =~= digits);
        assert(exp_digits_of(token@) =~= digits);
        assert(token_struct_wf(token@));
    }

    // Signature check: recompute the tag over the message.
    let msg_str = token.substring_char(65, n);
    proof {
        assert(msg_str@ =~= m);
    }
    let computed = to_hex_string(&hmac_sha256_tag(key, msg_str));
    let tag_owned = token.substring_char(0, 64).to_owned();
    proof {
        assert(tag_owned@ =~= tag_of(token@));
    }
    if !(computed == tag_owned) {
        return Err(TokenValidationError::BadSignature);
    }

    // Expiry check.
    if exp <= now {
        return Err(TokenValidationError::Expired);
    }

    // Revocation check, last because it may do I/O.
    match banned_token_store.contains_token(token) {
        Err(_) => Err(TokenValidationError::StoreFailed),
        Ok(true) => Err(TokenValidationError::Revoked),
        Ok(false) => {
            let sub = token.substring_char(65 + k + 1, n).to_owned();
            proof {
                assert(sub@ =~= email_of(token@));
            }
            Ok(Claims { sub, exp })
        },
    }
}

/// Helper bound: if one more digit would overflow, the whole field does.
proof fn lemma_token_exp_overflow(
    m: Seq<char>,
    digits: Seq<char>,
    i: int,
    k: int,
    exp: u64,
    d: u64,
)
    requires
        0 <= i < k <= m.len(),
        digits == m.take(k),
        forall|j: int| 0 <= j < k ==> is_digit_char(#[trigger] m[j]),
        exp == dec_val(digits.take(i)),
        d == digit_char_val(digits[i]),
        exp > (u64::MAX - d) / 10,
        digit_run(m) == k,
    ensures
        dec_val(exp_digits_of_msg(m)) > u64::MAX,
{
    assert(forall|j: int| 0 <= j < digits.len() ==> is_digit_char(#[trigger] digits[j]));
    assert(digits.take(i + 1).drop_last() =~= digits.take(i));
    assert(dec_val(digits.take(i + 1)) == exp * 10 + d);
    assert(exp * 10 + d > u64::MAX) by {
        lemma_mul_div_gt(exp as int, d as int);
    }
    lemma_dec_val_prefix_monotone(digits, i + 1, digits.len() as int);
    assert(digits.take(digits.len() as int) =~= digits);
    assert(exp_digits_of_msg(m) =~= digits);
}

/// The expiry digit field of a message (the part of a token after the tag).
pub open spec fn exp_digits_of_msg(m: Seq<char>) -> Seq<char> {
    m.take(digit_run(m) as int)
}

// ---------------------------------------------------------------------------
// Laws
// ---------------------------------------------------------------------------

/// Law: a token just minted validates successfully. For any identity,
/// expiry in the future, and key, the minted text passes the shape,
/// signature and expiry checks and, as long as it has not been revoked,
/// yields back exactly the identity and expiry it was minted with. (The tag
/// length premise is what every call of the HMAC wrapper establishes.)
#[verifier::rlimit(100)]
pub proof fn lemma_minted_token_validates(
    key: Seq<char>,
    email: Seq<char>,
    exp: nat,
    banned: Set<Seq<char>>,
    now: u64,
)
    requires
        now < exp,
        exp <= u64::MAX,
        mac_of(key, token_message(email, exp)).len() == 32,
        !banned.contains(token_for(key, email, exp)),
    ensures
        validate_outcome(key, banned, token_for(key, email, exp), now) == Ok::<
            ClaimsV,
            TokenValidationError,
        >(ClaimsV { sub: email, exp: exp as u64 }),
{
    let msg = token_message(email, exp);
    let mac = mac_of(key, msg);
    let tag = hex_of(mac);
    let t = token_for(key, email, exp);
    let k = dec_of(exp).len() as int;
    assert(tag.len() == 64) by {
        lemma_hex_of_len(mac);
    }
    assert(t.len() == 64 + 1 + msg.len());
    assert(msg.len() == k + 1 + email.len());
    assert(tag_of(t) =~= tag);
    assert(message_of(t) =~= msg);
    assert(t[64] == '.');
    assert(digit_run(msg) == k) by {
        lemma_dec_of_digits(exp);
        assert forall|j: int| 0 <= j < k implies is_digit_char(#[trigger] msg[j]) by {
            assert(msg[j] == dec_of(exp)[j]);
        }
        assert(msg[k] == '.');
        assert(!is_digit_char('.'));
        lemma_digit_run_is(msg, k);
    }
    assert(exp_digits_of(t) =~= dec_of(exp));
    assert(exp_of(t) == exp) by {
        lemma_dec_round_trip(exp);
    }
    assert(token_struct_wf(t));
    assert(token_sig_ok(key, t));
    assert(email_of(t) =~= email);
    assert(validate_outcome(key, banned, t, now) == Ok::<ClaimsV, TokenValidationError>(
        ClaimsV { sub: email_of(t), exp: exp as u64 },
    ));
}

/// Law: a revoked token never validates, whatever the time and key.
pub proof fn lemma_revoked_token_is_rejected(
    key: Seq<char>,
    banned: Set<Seq<char>>,
    t: Seq<char>,
    now: u64,
)
    requires
        banned.contains(t),
    ensures
        validate_outcome(key, banned, t, now) is Err,
{
}

/// Law: revocation alone is what rejects a token whose shape, signature and
/// expiry are all still individually valid.
pub proof fn lemma_revoked_valid_token_reports_revoked(
    key: Seq<char>,
    banned: Set<Seq<char>>,
    t: Seq<char>,
    now: u64,
)
    requires
        banned.contains(t),
        token_struct_wf(t),
        token_sig_ok(key, t),
        now < exp_of(t),
    ensures
        validate_outcome(key, banned, t, now) == Err::<ClaimsV, TokenValidationError>(
            TokenValidationError::Revoked,
        ),
{
}

proof fn lemma_mul_div_le(e: int, d: int)
    requires
        0 <= e,
        0 <= d < 10,
        e <= (u64::MAX - d) / 10,
    ensures
        e * 10 + d <= u64::MAX,
{
    assert(e * 10 <= ((u64::MAX - d) / 10) * 10) by (nonlinear_arith)
        requires
            0 <= e,
            e <= (u64::MAX - d) / 10,
    ;
    assert(((u64::MAX - d) / 10) * 10 <= u64::MAX - d);
}

proof fn lemma_mul_div_gt(e: int, d: int)
    requires
        0 <= e,
        0 <= d < 10,
        e > (u64::MAX - d) / 10,
    ensures
        e * 10 + d > u64::MAX,
{
    assert(e >= (u64::MAX - d) / 10 + 1);
    assert(e * 10 >= ((u64::MAX - d) / 10 + 1) * 10) by (nonlinear_arith)
        requires
            e >= (u64::MAX - d) / 10 + 1,
    ;
    assert(((u64::MAX - d) / 10 + 1) * 10 > u64::MAX - d);
}

} // verus!

