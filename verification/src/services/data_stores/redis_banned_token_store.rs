//! Key layout of the externally persisted revocation store. The store
//! itself is a key-value server reached over the network, so reads and
//! writes live outside the verified core; what is verified here is the
//! exact shape of the keys it is driven with. Each record carries a
//! time-to-live of `TOKEN_TTL_SECONDS`, the same constant used at minting.

use vstd::prelude::*;

verus! {

/// The record key for a revoked token: a fixed prefix to prevent
/// collisions and organize the keyspace, then the token text itself.
pub fn get_key(token: &str) -> (r: String)
    ensures
        r@ == "banned_token:"@ + token@,
{
    let mut key = "banned_token:".to_owned();
    key.append(token);
    key
}

} // verus!
