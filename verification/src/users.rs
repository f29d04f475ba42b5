//! An in-memory user collection keyed by `UserID`, with name-based
//! lookup and password checking against the hashing capability.
use vstd::prelude::*;

use crate::StoreError;
use crate::auth::{valid_hash, verifies};
use crate::user::{User, UserID};

verus! {

broadcast use vstd::seq::group_seq_axioms;

/// Position `i` holds a user with this username.
pub open spec fn match_at(s: Seq<User>, name: Seq<char>, i: int) -> bool {
    0 <= i < s.len() && s[i].username@ == name
}

/// Position `i` holds a user with this identifier.
pub open spec fn id_at(s: Seq<User>, id: Seq<char>, i: int) -> bool {
    0 <= i < s.len() && s[i].user_id@ == id
}

/// How many users carry this username.
pub open spec fn count_matches(s: Seq<User>, name: Seq<char>) -> nat
    decreases s.len(),
{
    if s.len() == 0 {
        0
    } else {
        count_matches(s.drop_last(), name) + if s.last().username@ == name {
            1nat
        } else {
            0nat
        }
    }
}

/// The position of a user carrying this username, when one exists.
pub open spec fn name_witness(s: Seq<User>, name: Seq<char>) -> int {
    choose|i: int| match_at(s, name, i)
}

proof fn lemma_count_take_step(s: Seq<User>, name: Seq<char>, i: int)
    requires
        0 <= i < s.len(),
    ensures
        count_matches(s.take(i + 1), name) == count_matches(s.take(i), name) + if s[i].username@
            == name {
            1nat
        } else {
            0nat
        },
{
    assert(s.take(i + 1).drop_last() =~= s.take(i));
    assert(s.take(i + 1).last() == s[i]);
}

proof fn lemma_match_count_at_least_one(s: Seq<User>, name: Seq<char>, i: int)
    requires
        match_at(s, name, i),
    ensures
        count_matches(s, name) >= 1,
    decreases s.len(),
{
    if i < s.len() - 1 {
        assert(s.drop_last()[i] == s[i]);
        lemma_match_count_at_least_one(s.drop_last(), name, i);
    }
}

proof fn lemma_two_matches(s: Seq<User>, name: Seq<char>, i: int, j: int)
    requires
        match_at(s, name, i),
        match_at(s, name, j),
        i < j,
    ensures
        count_matches(s, name) >= 2,
    decreases s.len(),
{
    if j == s.len() - 1 {
        assert(s.drop_last()[i] == s[i]);
        lemma_match_count_at_least_one(s.drop_last(), name, i);
    } else {
        assert(s.drop_last()[i] == s[i]);
        assert(s.drop_last()[j] == s[j]);
        lemma_two_matches(s.drop_last(), name, i, j);
    }
}

/// In-memory user collection; at most one user per identifier.
pub struct Users {
    users: Vec<User>,
}

impl View for Users {
    type V = Seq<User>;

    closed spec fn view(&self) -> Seq<User> {
        self.users@
    }
}

impl Users {
    /// Identifiers are pairwise distinct.
    pub open spec fn wf(&self) -> bool {
        forall|i: int, j: int|
            0 <= i < j < self@.len() ==> self@[i].user_id@ != self@[j].user_id@
    }

    fn index_of_id(&self, user_id: &UserID) -> (r: Option<usize>)
        ensures
            match r {
                Some(i) => id_at(self@, user_id@, i as int),
                None => forall|i: int| !id_at(self@, user_id@, i),
            },
    {
        let mut i: usize = 0;
        while i < self.users.len()
            invariant
                i <= self@.len(),
                forall|j: int| 0 <= j < i ==> !id_at(self@, user_id@, j),
            decreases self@.len() - i,
        {
            if self.users[i].user_id.0 == user_id.0 {
                return Some(i);
            }
            i = i + 1;
        }
        None
    }

    /// Inserts `user`, keyed by its identifier: an existing user with
    /// the same identifier is overwritten in place, any other is
    /// appended. Returns the inserted user.
    pub fn add_user(&mut self, user: User) -> (r: Result<User, StoreError>)
        requires
            old(self).wf(),
        ensures
            final(self).wf(),
            r == Ok::<User, StoreError>(user),
            if exists|i: int| id_at(old(self)@, user.user_id@, i) {
                exists|i: int|
                    id_at(old(self)@, user.user_id@, i) && final(self)@ == old(self)@.update(
                        i,
                        user,
                    )
            } else {
                final(self)@ == old(self)@.push(user)
            },
    {
        match self.index_of_id(&user.user_id) {
            Some(i) => {
                self.users[i] = user.clone();
                proof {
                    assert forall|x: int, y: int| 0 <= x < y < self@.len() implies self@[x].user_id@
                        != self@[y].user_id@ by {
                        assert(old(self)@[x].user_id@ != old(self)@[y].user_id@);
                        assert(old(self)@[i as int].user_id@ == user.user_id@);
                    }
                }
                Ok(user)
            },
            None => {
                self.users.push(user.clone());
                proof {
                    assert forall|x: int, y: int| 0 <= x < y < self@.len() implies self@[x].user_id@
                        != self@[y].user_id@ by {
                        if y == self@.len() - 1 {
                            assert(!id_at(old(self)@, user.user_id@, x));
                        } else {
                            assert(old(self)@[x].user_id@ != old(self)@[y].user_id@);
                        }
                    }
                }
                Ok(user)
            },
        }
    }

    /// Removes and returns the user with this identifier; `NotFound` if
    /// there is none.
    pub fn delete_user(&mut self, user_id: UserID) -> (r: Result<User, StoreError>)
        requires
            old(self).wf(),
        ensures
            final(self).wf(),
            match r {
                Ok(u) => exists|i: int|
                    id_at(old(self)@, user_id@, i) && old(self)@[i] == u && final(self)@ == old(
                        self,
                    )@.remove(i),
                Err(e) => e == StoreError::NotFound && (forall|i: int|
                    !id_at(old(self)@, user_id@, i)) && final(self)@ == old(self)@,
            },
    {
        match self.index_of_id(&user_id) {
            Some(i) => {
                let u = self.users.remove(i);
                proof {
                    assert forall|x: int, y: int| 0 <= x < y < self@.len() implies self@[x].user_id@
                        != self@[y].user_id@ by {
                        let x2 = if x < i { x } else { x + 1 };
                        let y2 = if y < i { y } else { y + 1 };
                        assert(self@[x] == old(self)@[x2]);
                        assert(self@[y] == old(self)@[y2]);
                    }
                }
                Ok(u)
            },
            None => Err(StoreError::NotFound),
        }
    }

    /// All users, in insertion order.
    pub fn get_users(&self) -> (r: Result<Vec<User>, StoreError>)
        ensures
            match r {
                Ok(v) => v@ == self@,
                Err(_) => false,
            },
    {
        let mut out: Vec<User> = Vec::new();
        let mut i: usize = 0;
        while i < self.users.len()
            invariant
                i <= self@.len(),
                out@ == self@.take(i as int),
            decreases self@.len() - i,
        {
            out.push(self.users[i].clone());
            proof {
                assert(self@.take(i + 1 as int) =~= self@.take(i as int).push(self@[i as int]));
            }
            i = i + 1;
        }
        proof {
            assert(self@.take(self@.len() as int) =~= self@);
        }
        Ok(out)
    }

    /// The user with this identifier; `NotFound` if there is none.
    pub fn get_user_by_id(&self, user_id: UserID) -> (r: Result<User, StoreError>)
        ensures
            match r {
                Ok(u) => exists|i: int| id_at(self@, user_id@, i) && self@[i] == u,
                Err(e) => e == StoreError::NotFound && (forall|i: int| !id_at(self@, user_id@, i)),
            },
    {
        match self.index_of_id(&user_id) {
            Some(i) => Ok(self.users[i].clone()),
            None => Err(StoreError::NotFound),
        }
    }

    /// The user carrying this username, provided exactly one does;
    /// `None` when the name is absent or ambiguous.
    pub fn get_user_by_name(&self, username: &str) -> (r: Option<User>)
        ensures
            match r {
                Some(u) => count_matches(self@, username@) == 1 && exists|i: int|
                    match_at(self@, username@, i) && self@[i] == u,
                None => count_matches(self@, username@) != 1,
            },
    {
        let uname: String = username.to_owned();
        let mut i: usize = 0;
        let mut count: usize = 0;
        let mut found: usize = 0;
        while i < self.users.len()
            invariant
                i <= self@.len(),
                count <= i,
                count == count_matches(self@.take(i as int), username@),
                uname@ == username@,
                count > 0 ==> match_at(self@, username@, found as int),
            decreases self@.len() - i,
        {
            proof {
                lemma_count_take_step(self@, username@, i as int);
            }
            if self.users[i].username == uname {
                count = count + 1;
                found = i;
            }
            i = i + 1;
        }
        proof {
            assert(self@.take(self@.len() as int) =~= self@);
        }
        if count == 1 {
            Some(self.users[found].clone())
        } else {
            None
        }
    }

    /// A collection holding one sample user, named `testuser`.
    pub fn example() -> (r: Self)
        ensures
            r.wf(),
            r@.len() == 1,
            r@[0].username@ == "testuser"@,
            verifies(r@[0].password_hash@, "grr"@),
    {
        proof {
            reveal_strlit("grr");
        }
        let test_user = User::new("testuser".to_owned(), "grr".to_owned());
        let mut users = Users { users: Vec::new() };
        let _added = users.add_user(test_user);
        users
    }

    /// Whether `password` matches the stored hash of the single user
    /// carrying `username`; an absent or ambiguous name never matches.
    pub fn valid_password(&self, username: &str, password: &str) -> (r: bool)
        ensures
            r == (count_matches(self@, username@) == 1 && verifies(
                self@[name_witness(self@, username@)].password_hash@,
                password@,
            )),
    {
        match self.get_user_by_name(username) {
            Some(u) => {
                proof {
                    let i = choose|i: int| match_at(self@, username@, i) && self@[i] == u;
                    assert(match_at(self@, username@, i));
                    let w = name_witness(self@, username@);
                    assert(match_at(self@, username@, w));
                    if w < i {
                        lemma_two_matches(self@, username@, w, i);
                    }
                    if i < w {
                        lemma_two_matches(self@, username@, i, w);
                    }
                    assert(self@[w] == u);
                }
                valid_hash(u.password_hash.as_str(), password)
            },
            None => false,
        }
    }
}

} // verus!
