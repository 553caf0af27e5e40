//! The in-memory backing of the identity store: a flat list of users with
//! pairwise-distinct addresses, read as a map.

use vstd::prelude::*;

use crate::domain::data_stores::UserStore;
use crate::domain::data_stores::UserStoreError;
use crate::domain::email::Email;
use crate::domain::password::PasswordVerifyError;
use crate::domain::user::User;
use crate::domain::user::UserV;

verus! {

spec fn user_keys_distinct(s: Seq<User>) -> bool {
    forall|i: int, j: int| #![trigger s[i].email@, s[j].email@] 0 <= i < j < s.len() ==> s[i].email@ != s[j].email@
}

spec fn users_map(s: Seq<User>) -> Map<Seq<char>, UserV> {
    Map::new(
        |k: Seq<char>| exists|i: int| 0 <= i < s.len() && #[trigger] s[i].email@ == k,
        |k: Seq<char>|
            {
                let i = choose|i: int| 0 <= i < s.len() && #[trigger] s[i].email@ == k;
                s[i]@
            },
    )
}

proof fn lemma_users_map_at(s: Seq<User>, i: int)
    requires
        user_keys_distinct(s),
        0 <= i < s.len(),
    ensures
        users_map(s).contains_key(s[i].email@),
        users_map(s)[s[i].email@] == s[i]@,
{
    let k = s[i].email@;
    assert(users_map(s).contains_key(k));
    let j = choose|j: int| 0 <= j < s.len() && #[trigger] s[j].email@ == k;
    assert(j == i);
}

proof fn lemma_users_map_push(s: Seq<User>, u: User)
    requires
        user_keys_distinct(s),
        forall|i: int| 0 <= i < s.len() ==> #[trigger] s[i].email@ != u.email@,
    ensures
        user_keys_distinct(s.push(u)),
        users_map(s.push(u)) == users_map(s).insert(u.email@, u@),
{
    let s2 = s.push(u);
    assert forall|i: int, j: int| #![trigger s2[i].email@, s2[j].email@]
        0 <= i < j < s2.len() implies s2[i].email@ != s2[j].email@ by {
        if j < s.len() {
            assert(s2[i] == s[i] && s2[j] == s[j]);
        } else {
            assert(s2[j] == u && s2[i] == s[i]);
        }
    }
    let m1 = users_map(s2);
    let m2 = users_map(s).insert(u.email@, u@);
    assert forall|k: Seq<char>| #[trigger] m1.contains_key(k) implies m2.contains_key(k) && m1[k]
        == m2[k] by {
        let i = choose|i: int| 0 <= i < s2.len() && #[trigger] s2[i].email@ == k;
        if i < s.len() {
            assert(s[i].email@ == k);
            lemma_users_map_at(s, i);
            lemma_users_map_at(s2, i);
        } else {
            assert(s2[i] == u);
            lemma_users_map_at(s2, i);
        }
    }
    assert forall|k: Seq<char>| #[trigger] m2.contains_key(k) implies m1.contains_key(k) by {
        if k == u.email@ {
            assert(s2[s.len() as int].email@ == k);
        } else {
            let i = choose|i: int| 0 <= i < s.len() && #[trigger] s[i].email@ == k;
            assert(s2[i].email@ == k);
        }
    }
    assert(m1 =~= m2);
}

/// Identity storage in process memory; users do not survive a restart.
#[derive(Default)]
pub struct HashmapUserStore {
    users: Vec<User>,
}

impl HashmapUserStore {
    #[verifier::type_invariant]
    spec fn wf(self) -> bool {
        user_keys_distinct(self.users@)
    }

    /// An empty store.
    pub fn new() -> (r: Self)
        ensures
            r.users() == Map::<Seq<char>, UserV>::empty(),
    {
        let r = HashmapUserStore { users: Vec::new() };
        proof {
            assert(r.users() =~= Map::<Seq<char>, UserV>::empty());
        }
        r
    }

    /// Index of the record for `email`, if any.
    fn find_index(&self, email: &Email) -> (r: Option<usize>)
        ensures
            r matches Some(i) ==> i < self.users@.len() && self.users@[i as int].email@ == email@,
            r is None ==> forall|j: int|
                0 <= j < self.users@.len() ==> #[trigger] self.users@[j].email@ != email@,
    {
        let mut i: usize = 0;
        while i < self.users.len()
            invariant
                i <= self.users@.len(),
                forall|j: int| 0 <= j < i ==> #[trigger] self.users@[j].email@ != email@,
            decreases self.users@.len() - i,
        {
            if self.users[i].email.same_as(email) {
                return Some(i);
            }
            i = i + 1;
        }
        None
    }
}

impl UserStore for HashmapUserStore {
    closed spec fn users(&self) -> Map<Seq<char>, UserV> {
        users_map(self.users@)
    }

    fn add_user(&mut self, user: User) -> (r: Result<(), UserStoreError>)
        ensures
            r is Ok <==> !old(self).users().contains_key(user.email@),
            r is Ok ==> final(self).users() == old(self).users().insert(user.email@, user@),
            r is Err ==> r == Err::<(), UserStoreError>(UserStoreError::UserAlreadyExists)
                && final(self).users() == old(self).users(),
    {
        proof {
            use_type_invariant(&*self);
        }
        match self.find_index(&user.email) {
            Some(i) => {
                proof {
                    lemma_users_map_at(self.users@, i as int);
                }
                Err(UserStoreError::UserAlreadyExists)
            },
            None => {
                let ghost s_old = self.users@;
                let mut v: Vec<User> = Vec::new();
                std::mem::swap(&mut v, &mut self.users);
                v.push(user);
                proof {
                    lemma_users_map_push(s_old, v@.last());
                }
                std::mem::swap(&mut v, &mut self.users);
                Ok(())
            },
        }
    }

    fn get_user(&self, email: &Email) -> (r: Result<User, UserStoreError>)
        ensures
            r is Ok <==> self.users().contains_key(email@),
            r matches Ok(u) ==> u@ == self.users()[email@],
            r is Err ==> r == Err::<User, UserStoreError>(UserStoreError::UserNotFound),
    {
        proof {
            use_type_invariant(&*self);
        }
        match self.find_index(email) {
            Some(i) => {
                proof {
                    lemma_users_map_at(self.users@, i as int);
                }
                Ok(self.users[i].clone())
            },
            None => Err(UserStoreError::UserNotFound),
        }
    }

    fn validate_user(&self, email: &Email, raw_password: &str) -> (r: Result<(), UserStoreError>)
        ensures
            r is Ok ==> self.users().contains_key(email@)
                && crate::domain::password::argon2_matches(
                self.users()[email@].password,
                raw_password@,
            ),
            r matches Err(e) && e == UserStoreError::UserNotFound ==> !self.users().contains_key(
                email@,
            ),
            r is Err && self.users().contains_key(email@)
                && crate::domain::password::argon2_wf(self.users()[email@].password)
                ==> !crate::domain::password::argon2_matches(
                self.users()[email@].password,
                raw_password@,
            ),
            r is Err && self.users().contains_key(email@) ==> r == Err::<(), UserStoreError>(
                UserStoreError::InvalidCredentials,
            ),
            !self.users().contains_key(email@) ==> r == Err::<(), UserStoreError>(
                UserStoreError::UserNotFound,
            ),
    {
        proof {
            use_type_invariant(&*self);
        }
        match self.find_index(email) {
            Some(i) => {
                proof {
                    lemma_users_map_at(self.users@, i as int);
                }
                match self.users[i].password.verify_raw_password(raw_password) {
                    Ok(()) => Ok(()),
                    Err(PasswordVerifyError::Mismatch) => Err(UserStoreError::InvalidCredentials),
                    Err(PasswordVerifyError::VerificationFailed) => Err(
                        UserStoreError::InvalidCredentials,
                    ),
                }
            },
            None => Err(UserStoreError::UserNotFound),
        }
    }
}

} // verus!
