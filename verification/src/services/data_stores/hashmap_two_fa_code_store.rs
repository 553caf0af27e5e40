//! The in-memory backing of the second-factor challenge store: a flat list
//! of challenges with pairwise-distinct identities, read as a map.

use vstd::prelude::*;

use crate::domain::data_stores::LoginAttemptId;
use crate::domain::data_stores::TwoFACode;
use crate::domain::data_stores::TwoFACodeStore;
use crate::domain::data_stores::TwoFACodeStoreError;
use crate::domain::email::Email;

verus! {

type CodeEntry = (Email, LoginAttemptId, TwoFACode);

spec fn entry_keys_distinct(s: Seq<CodeEntry>) -> bool {
    forall|i: int, j: int| #![trigger s[i].0@, s[j].0@] 0 <= i < j < s.len() ==> s[i].0@ != s[j].0@
}

spec fn entries_map(s: Seq<CodeEntry>) -> Map<Seq<char>, (Seq<char>, Seq<char>)> {
    Map::new(
        |k: Seq<char>| exists|i: int| 0 <= i < s.len() && #[trigger] s[i].0@ == k,
        |k: Seq<char>|
            {
                let i = choose|i: int| 0 <= i < s.len() && #[trigger] s[i].0@ == k;
                (s[i].1@, s[i].2@)
            },
    )
}

proof fn lemma_entries_map_at(s: Seq<CodeEntry>, i: int)
    requires
        entry_keys_distinct(s),
        0 <= i < s.len(),
    ensures
        entries_map(s).contains_key(s[i].0@),
        entries_map(s)[s[i].0@] == (s[i].1@, s[i].2@),
{
    let k = s[i].0@;
    assert(entries_map(s).contains_key(k));
    let j = choose|j: int| 0 <= j < s.len() && #[trigger] s[j].0@ == k;
    assert(j == i);
}

proof fn lemma_entries_map_push(s: Seq<CodeEntry>, e: CodeEntry)
    requires
        entry_keys_distinct(s),
        forall|i: int| 0 <= i < s.len() ==> #[trigger] s[i].0@ != e.0@,
    ensures
        entry_keys_distinct(s.push(e)),
        entries_map(s.push(e)) == entries_map(s).insert(e.0@, (e.1@, e.2@)),
{
    let s2 = s.push(e);
    assert forall|i: int, j: int| #![trigger s2[i].0@, s2[j].0@] 0 <= i < j < s2.len() implies s2[i].0@ != s2[j].0@ by {
        if j < s.len() {
            assert(s2[i] == s[i] && s2[j] == s[j]);
        } else {
            assert(s2[j] == e && s2[i] == s[i]);
        }
    }
    let m1 = entries_map(s2);
    let m2 = entries_map(s).insert(e.0@, (e.1@, e.2@));
    assert forall|k: Seq<char>| #[trigger] m1.contains_key(k) implies m2.contains_key(k) && m1[k]
        == m2[k] by {
        let i = choose|i: int| 0 <= i < s2.len() && #[trigger] s2[i].0@ == k;
        if i < s.len() {
            assert(s[i].0@ == k);
            lemma_entries_map_at(s, i);
            lemma_entries_map_at(s2, i);
        } else {
            assert(s2[i] == e);
            lemma_entries_map_at(s2, i);
        }
    }
    assert forall|k: Seq<char>| #[trigger] m2.contains_key(k) implies m1.contains_key(k) by {
        if k == e.0@ {
            assert(s2[s.len() as int].0@ == k);
        } else {
            let i = choose|i: int| 0 <= i < s.len() && #[trigger] s[i].0@ == k;
            assert(s2[i].0@ == k);
        }
    }
    assert(m1 =~= m2);
}

proof fn lemma_entries_map_remove(s: Seq<CodeEntry>, i: int)
    requires
        entry_keys_distinct(s),
        0 <= i < s.len(),
    ensures
        entry_keys_distinct(s.remove(i)),
        entries_map(s.remove(i)) == entries_map(s).remove(s[i].0@),
        forall|j: int| 0 <= j < s.remove(i).len() ==> #[trigger] s.remove(i)[j].0@ != s[i].0@,
{
    let s2 = s.remove(i);
    let k0 = s[i].0@;
    assert forall|a: int, b: int| #![trigger s2[a].0@, s2[b].0@] 0 <= a < b < s2.len() implies s2[a].0@ != s2[b].0@ by {
        let a0 = if a < i { a } else { a + 1 };
        let b0 = if b < i { b } else { b + 1 };
        assert(s2[a] == s[a0] && s2[b] == s[b0]);
    }
    assert forall|j: int| 0 <= j < s2.len() implies #[trigger] s2[j].0@ != k0 by {
        let j0 = if j < i { j } else { j + 1 };
        assert(s2[j] == s[j0]);
    }
    let m1 = entries_map(s2);
    let m2 = entries_map(s).remove(k0);
    assert forall|k: Seq<char>| #[trigger] m1.contains_key(k) implies m2.contains_key(k) && m1[k]
        == m2[k] by {
        let j = choose|j: int| 0 <= j < s2.len() && #[trigger] s2[j].0@ == k;
        let j0 = if j < i { j } else { j + 1 };
        assert(s2[j] == s[j0]);
        lemma_entries_map_at(s, j0);
        lemma_entries_map_at(s2, j);
    }
    assert forall|k: Seq<char>| #[trigger] m2.contains_key(k) implies m1.contains_key(k) by {
        let j0 = choose|j0: int| 0 <= j0 < s.len() && #[trigger] s[j0].0@ == k;
        let j = if j0 < i { j0 } else { j0 - 1 };
        assert(j0 != i);
        assert(s2[j] == s[j0]);
    }
    assert(m1 =~= m2);
}

/// One pending challenge per identity, held in process memory; challenges
/// do not survive a restart.
#[derive(Default)]
pub struct HashmapTwoFACodeStore {
    codes: Vec<CodeEntry>,
}

impl HashmapTwoFACodeStore {
    #[verifier::type_invariant]
    spec fn wf(self) -> bool {
        entry_keys_distinct(self.codes@)
    }

    /// An empty store.
    pub fn new() -> (r: Self)
        ensures
            r.codes() == Map::<Seq<char>, (Seq<char>, Seq<char>)>::empty(),
    {
        let r = HashmapTwoFACodeStore { codes: Vec::new() };
        proof {
            assert(r.codes() =~= Map::<Seq<char>, (Seq<char>, Seq<char>)>::empty());
        }
        r
    }

    /// How many challenges are pending.
    pub fn count(&self) -> (r: usize)
        ensures
            r == self.codes().dom().len(),
    {
        proof {
            use_type_invariant(&*self);
            lemma_entries_dom_len(self.codes@);
        }
        self.codes.len()
    }

    /// Index of the entry for `email`, if any.
    fn find_index(&self, email: &Email) -> (r: Option<usize>)
        ensures
            r matches Some(i) ==> i < self.codes@.len() && self.codes@[i as int].0@ == email@,
            r is None ==> forall|j: int|
                0 <= j < self.codes@.len() ==> #[trigger] self.codes@[j].0@ != email@,
    {
        find_entry(&self.codes, email)
    }
}

/// The number of entries is the size of the map they denote.
proof fn lemma_entries_dom_len(s: Seq<CodeEntry>)
    requires
        entry_keys_distinct(s),
    ensures
        entries_map(s).dom().len() == s.len(),
        entries_map(s).dom().finite(),
    decreases s.len(),
{
    if s.len() == 0 {
        assert(entries_map(s).dom() =~= Set::<Seq<char>>::empty());
    } else {
        let s0 = s.drop_last();
        let e = s.last();
        assert(entry_keys_distinct(s0));
        assert(forall|i: int| 0 <= i < s0.len() ==> #[trigger] s0[i].0@ != e.0@) by {
            assert(forall|i: int| 0 <= i < s0.len() ==> s0[i] == s[i]);
        }
        lemma_entries_dom_len(s0);
        lemma_entries_map_push(s0, e);
        assert(s0.push(e) =~= s);
        assert(entries_map(s).dom() =~= entries_map(s0).dom().insert(e.0@));
        assert(!entries_map(s0).dom().contains(e.0@));
    }
}

impl TwoFACodeStore for HashmapTwoFACodeStore {
    closed spec fn codes(&self) -> Map<Seq<char>, (Seq<char>, Seq<char>)> {
        entries_map(self.codes@)
    }

    fn add_code(&mut self, email: Email, login_attempt_id: LoginAttemptId, code: TwoFACode) -> (r:
        Result<(), TwoFACodeStoreError>)
        ensures
            r is Ok,
            final(self).codes() == old(self).codes().insert(email@, (login_attempt_id@, code@)),
    {
        proof {
            use_type_invariant(&*self);
        }
        let ghost s_old = self.codes@;
        let mut v: Vec<CodeEntry> = Vec::new();
        std::mem::swap(&mut v, &mut self.codes);
        match find_entry(&v, &email) {
            Some(i) => {
                proof {
                    lemma_entries_map_remove(v@, i as int);
                }
                v.remove(i);
                let ghost s_mid = v@;
                v.push((email, login_attempt_id, code));
                proof {
                    lemma_entries_map_push(s_mid, v@.last());
                    assert(entries_map(v@) =~= entries_map(s_old).insert(
                        v@.last().0@,
                        (v@.last().1@, v@.last().2@),
                    ));
                }
            },
            None => {
                let ghost s_mid = v@;
                v.push((email, login_attempt_id, code));
                proof {
                    lemma_entries_map_push(s_mid, v@.last());
                }
            },
        }
        std::mem::swap(&mut v, &mut self.codes);
        Ok(())
    }

    fn remove_code(&mut self, email: &Email) -> (r: Result<(), TwoFACodeStoreError>)
        ensures
            r is Ok <==> old(self).codes().contains_key(email@),
            r is Ok ==> final(self).codes() == old(self).codes().remove(email@),
            r is Err ==> r == Err::<(), TwoFACodeStoreError>(
                TwoFACodeStoreError::LoginAttemptIdNotFound,
            ) && final(self).codes() == old(self).codes(),
    {
        proof {
            use_type_invariant(&*self);
        }
        let mut v: Vec<CodeEntry> = Vec::new();
        std::mem::swap(&mut v, &mut self.codes);
        let r = match find_entry(&v, email) {
            Some(i) => {
                proof {
                    lemma_entries_map_at(v@, i as int);
                    lemma_entries_map_remove(v@, i as int);
                }
                v.remove(i);
                Ok(())
            },
            None => Err(TwoFACodeStoreError::LoginAttemptIdNotFound),
        };
        std::mem::swap(&mut v, &mut self.codes);
        r
    }

    fn get_code(&self, email: &Email) -> (r: Result<
        (LoginAttemptId, TwoFACode),
        TwoFACodeStoreError,
    >)
        ensures
            r is Ok <==> self.codes().contains_key(email@),
            r matches Ok(p) ==> self.codes()[email@] == (p.0@, p.1@),
            r is Err ==> r == Err::<(LoginAttemptId, TwoFACode), TwoFACodeStoreError>(
                TwoFACodeStoreError::LoginAttemptIdNotFound,
            ),
    {
        proof {
            use_type_invariant(&*self);
        }
        match self.find_index(email) {
            Some(i) => {
                proof {
                    lemma_entries_map_at(self.codes@, i as int);
                }
                let entry = &self.codes[i];
                Ok((entry.1.clone(), entry.2.clone()))
            },
            None => Err(TwoFACodeStoreError::LoginAttemptIdNotFound),
        }
    }
}

/// Index of the entry for `email` in a bare entry list, if any.
fn find_entry(v: &Vec<CodeEntry>, email: &Email) -> (r: Option<usize>)
    ensures
        r matches Some(i) ==> i < v@.len() && v@[i as int].0@ == email@,
        r is None ==> forall|j: int| 0 <= j < v@.len() ==> #[trigger] v@[j].0@ != email@,
{
    let mut i: usize = 0;
    while i < v.len()
        invariant
            i <= v@.len(),
            forall|j: int| 0 <= j < i ==> #[trigger] v@[j].0@ != email@,
        decreases v@.len() - i,
    {
        if v[i].0.same_as(email) {
            return Some(i);
        }
        i = i + 1;
    }
    None
}

} // verus!
