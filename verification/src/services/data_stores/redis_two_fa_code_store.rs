//! Key and value layout of the externally persisted second-factor
//! challenge store. The store itself is a key-value server reached over
//! the network, so reads and writes live outside the verified core; what
//! is verified here is the exact framing of its keys and values. Each
//! record carries the ten-minute time-to-live of a challenge.

use vstd::prelude::*;

use crate::domain::data_stores::is_two_fa_code;
use crate::domain::data_stores::is_uuid_str;
use crate::domain::data_stores::LoginAttemptId;
use crate::domain::data_stores::TwoFACode;
use crate::domain::email::Email;

verus! {

/// Time-to-live of a persisted challenge record, in seconds.
pub const TEN_MINUTES_IN_SECONDS: u64 = 600;

/// The record key for an identity's pending challenge: a fixed prefix to
/// prevent collisions and organize the keyspace, then the address itself.
pub fn get_key(email: &Email) -> (r: String)
    ensures
        r@ == "two_fa_code:"@ + email@,
{
    let mut key = "two_fa_code:".to_owned();
    key.append(email.as_ref());
    key
}

/// The exact record value for a challenge: the 36-character attempt id, a
/// colon (which occurs in neither field), and the six-digit code.
pub open spec fn two_fa_tuple_text(id: Seq<char>, code: Seq<char>) -> Seq<char> {
    id + seq![':'] + code
}

/// Frames a challenge for storage.
pub fn encode_two_fa_tuple(login_attempt_id: &LoginAttemptId, code: &TwoFACode) -> (r: String)
    ensures
        r@ == two_fa_tuple_text(login_attempt_id@, code@),
{
    let mut s = login_attempt_id.as_ref().to_owned();
    s.append(":");
    s.append(code.as_ref());
    proof {
        reveal_strlit(":");
        assert(":"@ =~= seq![':']);
        assert(s@ =~= two_fa_tuple_text(login_attempt_id@, code@));
    }
    s
}

/// Whether stored text has the exact shape `encode_two_fa_tuple` produces.
pub open spec fn two_fa_tuple_text_wf(s: Seq<char>) -> bool {
    &&& s.len() == 43
    &&& is_uuid_str(s.take(36))
    &&& s[36] == ':'
    &&& is_two_fa_code(s.skip(37))
}

/// Reads a stored challenge back; accepts exactly what the encoder writes.
pub fn decode_two_fa_tuple(s: &str) -> (r: Option<(LoginAttemptId, TwoFACode)>)
    ensures
        r is Some <==> two_fa_tuple_text_wf(s@),
        r matches Some(p) ==> p.0@ == s@.take(36) && p.1@ == s@.skip(37),
{
    let n: usize = s.unicode_len();
    if n != 43 {
        return None;
    }
    if s.get_char(36) != ':' {
        return None;
    }
    let id_part = s.substring_char(0, 36).to_owned();
    let code_part = s.substring_char(37, 43).to_owned();
    let login_attempt_id = match LoginAttemptId::parse(id_part) {
        Ok(login_attempt_id) => login_attempt_id,
        Err(_) => return None,
    };
    let code = match TwoFACode::parse(code_part) {
        Ok(code) => code,
        Err(_) => return None,
    };
    Some((login_attempt_id, code))
}

/// Law: framing a challenge and reading it back yields the challenge.
pub proof fn lemma_two_fa_tuple_round_trip(id: Seq<char>, code: Seq<char>)
    requires
        is_uuid_str(id),
        is_two_fa_code(code),
    ensures
        two_fa_tuple_text_wf(two_fa_tuple_text(id, code)),
        two_fa_tuple_text(id, code).take(36) == id,
        two_fa_tuple_text(id, code).skip(37) == code,
{
    let s = two_fa_tuple_text(id, code);
    assert(s.take(36) =~= id);
    assert(s.skip(37) =~= code);
    assert(s[36] == ':');
}

} // verus!
