//! The in-memory backing of the revocation store: a deduplicated list of
//! token strings, read as a set.

use vstd::prelude::*;

use crate::domain::data_stores::BannedTokenStore;
use crate::domain::data_stores::BannedTokenStoreError;

verus! {

spec fn tokens_set(s: Seq<String>) -> Set<Seq<char>> {
    Set::new(|t: Seq<char>| exists|i: int| 0 <= i < s.len() && #[trigger] s[i]@ == t)
}

/// Revoked tokens held in process memory; records do not survive a restart.
#[derive(Default)]
pub struct HashsetBannedTokenStore {
    tokens: Vec<String>,
}

impl HashsetBannedTokenStore {
    /// An empty store.
    pub fn new() -> (r: Self)
        ensures
            r.tokens() == Set::<Seq<char>>::empty(),
    {
        let r = HashsetBannedTokenStore { tokens: Vec::new() };
        proof {
            assert(r.tokens() =~= Set::<Seq<char>>::empty());
        }
        r
    }

    /// Index of the stored token equal to `token`, if any.
    fn find_index(&self, token: &str) -> (r: Option<usize>)
        ensures
            r matches Some(i) ==> i < self.tokens@.len() && self.tokens@[i as int]@ == token@,
            r is None ==> forall|j: int|
                0 <= j < self.tokens@.len() ==> #[trigger] self.tokens@[j]@ != token@,
    {
        let needle = token.to_owned();
        let mut i: usize = 0;
        while i < self.tokens.len()
            invariant
                i <= self.tokens@.len(),
                needle@ == token@,
                forall|j: int| 0 <= j < i ==> #[trigger] self.tokens@[j]@ != token@,
            decreases self.tokens@.len() - i,
        {
            if self.tokens[i] == needle {
                return Some(i);
            }
            i = i + 1;
        }
        None
    }
}

impl BannedTokenStore for HashsetBannedTokenStore {
    closed spec fn tokens(&self) -> Set<Seq<char>> {
        tokens_set(self.tokens@)
    }

    fn store_token(&mut self, token: String) -> (r: Result<(), BannedTokenStoreError>)
        ensures
            r is Ok,
            final(self).tokens() == old(self).tokens().insert(token@),
    {
        match self.find_index(token.as_str()) {
            Some(_) => {
                proof {
                    assert(final(self).tokens() =~= old(self).tokens().insert(token@));
                }
            },
            None => {
                let ghost s_old = self.tokens@;
                self.tokens.push(token);
                proof {
                    assert forall|t: Seq<char>| #[trigger] tokens_set(self.tokens@).contains(
                        t,
                    ) implies tokens_set(s_old).insert(s_old.push(token).last()@).contains(t) by {
                        let i = choose|i: int|
                            0 <= i < self.tokens@.len() && #[trigger] self.tokens@[i]@ == t;
                        if i < s_old.len() {
                            assert(s_old[i]@ == t);
                        }
                    }
                    assert forall|t: Seq<char>|
                        tokens_set(s_old).insert(
                            s_old.push(token).last()@,
                        ).contains(t) implies #[trigger] tokens_set(self.tokens@).contains(t) by {
                        if tokens_set(s_old).contains(t) {
                            let i = choose|i: int|
                                0 <= i < s_old.len() && #[trigger] s_old[i]@ == t;
                            assert(self.tokens@[i]@ == t);
                        } else {
                            assert(self.tokens@[s_old.len() as int]@ == t);
                        }
                    }
                    assert(final(self).tokens() =~= old(self).tokens().insert(token@));
                }
            },
        }
        Ok(())
    }

    fn contains_token(&self, token: &str) -> (r: Result<bool, BannedTokenStoreError>)
        ensures
            r matches Ok(b) ==> b == self.tokens().contains(token@),
            r is Ok,
    {
        match self.find_index(token) {
            Some(_) => Ok(true),
            None => Ok(false),
        }
    }
}

} // verus!
