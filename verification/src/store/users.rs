//! The credential store: find-by-username / find-by-id, insert under a
//! uniqueness constraint on the username, field updates, delete, list.

use crate::codec::str_eq;
use crate::config::MAX_TIMESTAMP;
use crate::errors::AppError;
use crate::models::clone_opt_string;
use crate::models::user::{User, UserRole};
use vstd::prelude::*;

verus! {

pub open spec fn has_username(s: Seq<User>, name: Seq<char>) -> bool {
    exists|i: int| 0 <= i < s.len() && (#[trigger] s[i].username@) == name
}

/// The index of the user with this username (unique under `wf`).
pub open spec fn username_idx(s: Seq<User>, name: Seq<char>) -> int {
    choose|i: int| 0 <= i < s.len() && (#[trigger] s[i].username@) == name
}

pub open spec fn usernames_unique(s: Seq<User>) -> bool {
    forall|i: int, j: int|
        0 <= i < j < s.len() ==> (#[trigger] s[i].username@) != (#[trigger] s[j].username@)
}

pub open spec fn user_ids_unique(s: Seq<User>) -> bool {
    forall|i: int, j: int| 0 <= i < j < s.len() ==> (#[trigger] s[i].id) != (#[trigger] s[j].id)
}

pub open spec fn has_user_id(s: Seq<User>, id: u64) -> bool {
    exists|i: int| 0 <= i < s.len() && (#[trigger] s[i].id) == Some(id)
}

/// The index of the user with this id (unique under `wf`).
pub open spec fn user_idx(s: Seq<User>, id: u64) -> int {
    choose|i: int| 0 <= i < s.len() && (#[trigger] s[i].id) == Some(id)
}

pub proof fn lemma_username_idx_is(s: Seq<User>, name: Seq<char>, i: int)
    requires
        usernames_unique(s),
        0 <= i < s.len(),
        s[i].username@ == name,
    ensures
        has_username(s, name),
        username_idx(s, name) == i,
{
    assert(has_username(s, name));
    let k = username_idx(s, name);
    if k < i {
        assert(s[k].username@ != s[i].username@);
    } else if i < k {
        assert(s[i].username@ != s[k].username@);
    }
}

pub proof fn lemma_user_idx_is(s: Seq<User>, id: u64, i: int)
    requires
        user_ids_unique(s),
        0 <= i < s.len(),
        s[i].id == Some(id),
    ensures
        has_user_id(s, id),
        user_idx(s, id) == i,
{
    assert(has_user_id(s, id));
    let k = user_idx(s, id);
    if k < i {
        assert(s[k].id != s[i].id);
    } else if i < k {
        assert(s[i].id != s[k].id);
    }
}

/// Whether renaming the user with `id` to the requested username would
/// collide with another record.
pub open spec fn rename_conflict(s: Seq<User>, id: u64, username: Option<String>) -> bool {
    username matches Some(name) && exists|j: int|
        0 <= j < s.len() && (#[trigger] s[j].username@) == name@ && s[j].id != Some(id)
}

/// A user record with the requested fields replaced and the update
/// instant stamped.
pub open spec fn apply_update(
    u: User,
    username: Option<String>,
    email: Option<String>,
    role: Option<UserRole>,
    password_hash: Option<String>,
    now: i64,
) -> User {
    User {
        username: if username is Some {
            username->0
        } else {
            u.username
        },
        email: if email is Some {
            email
        } else {
            u.email
        },
        role: if role is Some {
            role->0
        } else {
            u.role
        },
        password_hash: if password_hash is Some {
            password_hash->0
        } else {
            u.password_hash
        },
        updated_at: now,
        ..u
    }
}

pub struct UserStore {
    pub users: Vec<User>,
    pub next_id: u64,
}

impl UserStore {
    pub open spec fn wf(&self) -> bool {
        &&& usernames_unique(self.users@)
        &&& user_ids_unique(self.users@)
        &&& forall|i: int|
            0 <= i < self.users@.len() ==> {
                &&& (#[trigger] self.users@[i]).wf()
                &&& self.users@[i].id is Some
                &&& self.users@[i].id->0 < self.next_id
            }
    }

    pub fn new() -> (r: UserStore)
        ensures
            r.wf(),
            r.users@ == Seq::<User>::empty(),
            r.next_id == 0,
    {
        let r = UserStore { users: Vec::new(), next_id: 0 };
        proof {
            assert(r.users@ =~= Seq::<User>::empty());
        }
        r
    }

    /// A copy of the user with this username, if any.
    pub fn find_by_username(&self, name: &str) -> (r: Option<User>)
        requires
            self.wf(),
        ensures
            r is Some <==> has_username(self.users@, name@),
            r matches Some(u) ==> u == self.users@[username_idx(self.users@, name@)],
    {
        let n = self.users.len();
        let mut i: usize = 0;
        while i < n
            invariant
                0 <= i <= n == self.users@.len(),
                self.wf(),
                forall|j: int| 0 <= j < i ==> (#[trigger] self.users@[j].username@) != name@,
            decreases n - i,
        {
            if str_eq(self.users[i].username.as_str(), name) {
                proof {
                    lemma_username_idx_is(self.users@, name@, i as int);
                }
                return Some(self.users[i].duplicate());
            }
            i = i + 1;
        }
        None
    }

    /// A copy of the user with this id, if any.
    pub fn find_by_id(&self, id: u64) -> (r: Option<User>)
        requires
            self.wf(),
        ensures
            r is Some <==> has_user_id(self.users@, id),
            r matches Some(u) ==> u == self.users@[user_idx(self.users@, id)],
    {
        let n = self.users.len();
        let mut i: usize = 0;
        while i < n
            invariant
                0 <= i <= n == self.users@.len(),
                self.wf(),
                forall|j: int| 0 <= j < i ==> (#[trigger] self.users@[j].id) != Some(id),
            decreases n - i,
        {
            let hit = match self.users[i].id {
                Some(x) => x == id,
                None => false,
            };
            if hit {
                proof {
                    lemma_user_idx_is(self.users@, id, i as int);
                }
                return Some(self.users[i].duplicate());
            }
            i = i + 1;
        }
        None
    }

    /// Inserts a fresh record under the uniqueness constraint on the
    /// username; returns the assigned id.
    pub fn insert(&mut self, user: User) -> (r: Result<u64, AppError>)
        requires
            old(self).wf(),
            user.wf(),
            user.id is None,
        ensures
            final(self).wf(),
            match r {
                Ok(id) => {
                    &&& !has_username(old(self).users@, user.username@)
                    &&& old(self).next_id < u64::MAX
                    &&& id == old(self).next_id
                    &&& final(self).users@ == old(self).users@ + seq![
                        User { id: Some(id), ..user },
                    ]
                    &&& final(self).next_id == old(self).next_id + 1
                },
                Err(e) => {
                    &&& e is PersistenceError
                    &&& *final(self) == *old(self)
                    &&& (has_username(old(self).users@, user.username@) || old(self).next_id
                        == u64::MAX)
                },
            },
    {
        if self.next_id == u64::MAX {
            return Err(AppError::PersistenceError);
        }
        if self.find_by_username(user.username.as_str()).is_some() {
            return Err(AppError::PersistenceError);
        }
        let id = self.next_id;
        let mut stored = user;
        stored.id = Some(id);
        let ghost pre = *self;
        self.users.push(stored);
        self.next_id = self.next_id + 1;
        proof {
            assert(self.users@ =~= pre.users@ + seq![stored]);
            assert forall|a: int, b: int| 0 <= a < b < self.users@.len() implies (
            #[trigger] self.users@[a].username@) != (#[trigger] self.users@[b].username@) by {
                if b == pre.users@.len() as int {
                    assert(pre.users@[a].username@ != stored.username@);
                } else {
                    assert(pre.users@[a].username@ != pre.users@[b].username@);
                }
            }
            assert forall|a: int, b: int| 0 <= a < b < self.users@.len() implies (
            #[trigger] self.users@[a].id) != (#[trigger] self.users@[b].id) by {
                if b == pre.users@.len() as int {
                    assert(pre.users@[a].id->0 < pre.next_id);
                } else {
                    assert(pre.users@[a].id != pre.users@[b].id);
                }
            }
        }
        Ok(id)
    }

    /// Records the most recently issued token for this subject; returns
    /// the number of records modified (0 or 1).
    pub fn update_last_token(&mut self, id: u64, token: String) -> (modified: u64)
        requires
            old(self).wf(),
        ensures
            final(self).wf(),
            final(self).next_id == old(self).next_id,
            has_user_id(old(self).users@, id) ==> modified == 1 && final(self).users@ == old(
                self,
            ).users@.update(
                user_idx(old(self).users@, id),
                User {
                    last_token: Some(token),
                    ..old(self).users@[user_idx(old(self).users@, id)]
                },
            ),
            !has_user_id(old(self).users@, id) ==> modified == 0 && *final(self) == *old(self),
    {
        let n = self.users.len();
        let mut i: usize = 0;
        while i < n
            invariant
                0 <= i <= n == self.users@.len(),
                self.wf(),
                *self == *old(self),
                forall|j: int| 0 <= j < i ==> (#[trigger] self.users@[j].id) != Some(id),
            decreases n - i,
        {
            let hit = match self.users[i].id {
                Some(x) => x == id,
                None => false,
            };
            if hit {
                proof {
                    lemma_user_idx_is(self.users@, id, i as int);
                }
                let mut u = self.users[i].duplicate();
                u.last_token = Some(token);
                let ghost pre = self.users@;
                self.users.set(i, u);
                proof {
                    assert forall|a: int, b: int| 0 <= a < b < self.users@.len() implies (
                    #[trigger] self.users@[a].username@) != (#[trigger] self.users@[b].username@)
                        by {
                        assert(pre[a].username@ != pre[b].username@);
                    }
                    assert forall|a: int, b: int| 0 <= a < b < self.users@.len() implies (
                    #[trigger] self.users@[a].id) != (#[trigger] self.users@[b].id) by {
                        assert(pre[a].id != pre[b].id);
                    }
                }
                return 1;
            }
            i = i + 1;
        }
        0
    }

    /// Applies an admin-side field update to the user with this id;
    /// returns how many records matched (0 or 1). Renaming to a username
    /// another record already holds is a store-level failure, and the
    /// write goes through exactly when no such conflict exists.
    pub fn update_fields(
        &mut self,
        id: u64,
        username: Option<String>,
        email: Option<String>,
        role: Option<UserRole>,
        password_hash: Option<String>,
        now: i64,
    ) -> (r: Result<u64, AppError>)
        requires
            old(self).wf(),
            0 <= now <= MAX_TIMESTAMP,
        ensures
            final(self).wf(),
            final(self).next_id == old(self).next_id,
            match r {
                Ok(matched) => {
                    &&& (matched == 0 || matched == 1)
                    &&& matched == 0 ==> !has_user_id(old(self).users@, id) && *final(self)
                        == *old(self)
                    &&& matched == 1 ==> !rename_conflict(old(self).users@, id, username)
                    &&& matched == 1 ==> has_user_id(old(self).users@, id) && final(self).users@
                        == old(self).users@.update(
                        user_idx(old(self).users@, id),
                        apply_update(
                            old(self).users@[user_idx(old(self).users@, id)],
                            username,
                            email,
                            role,
                            password_hash,
                            now,
                        ),
                    )
                },
                Err(e) => {
                    &&& e is PersistenceError
                    &&& *final(self) == *old(self)
                    &&& has_user_id(old(self).users@, id)
                    &&& rename_conflict(old(self).users@, id, username)
                },
            },
    {
        let n = self.users.len();
        let mut i: usize = 0;
        while i < n
            invariant
                0 <= i <= n == self.users@.len(),
                self.wf(),
                *self == *old(self),
                0 <= now <= MAX_TIMESTAMP,
                forall|j: int| 0 <= j < i ==> (#[trigger] self.users@[j].id) != Some(id),
            decreases n - i,
        {
            let hit = match self.users[i].id {
                Some(x) => x == id,
                None => false,
            };
            if hit {
                proof {
                    lemma_user_idx_is(self.users@, id, i as int);
                }
                // The uniqueness constraint on usernames still holds
                // after a rename, or the write is refused.
                if let Some(name) = &username {
                    let mut j: usize = 0;
                    while j < n
                        invariant
                            0 <= j <= n == self.users@.len(),
                            self.wf(),
                            *self == *old(self),
                            i < n,
                            self.users@[i as int].id == Some(id),
                            username is Some,
                            name == username->0,
                            forall|k: int|
                                0 <= k < j ==> !((#[trigger] self.users@[k].username@) == name@
                                    && self.users@[k].id != Some(id)),
                        decreases n - j,
                    {
                        if j != i && str_eq(self.users[j].username.as_str(), name.as_str()) {
                            proof {
                                if self.users@[j as int].id == Some(id) {
                                    assert(self.users@[j as int].id != self.users@[i as int].id);
                                }
                                assert((#[trigger] old(self).users@[j as int].username@) == (
                                username->0)@ && old(self).users@[j as int].id != Some(id));
                                assert((#[trigger] old(self).users@[i as int].id) == Some(id));
                                assert(has_user_id(old(self).users@, id));
                            }
                            return Err(AppError::PersistenceError);
                        }
                        proof {
                            if j as int != i as int && self.users@[j as int].username@ == name@ {
                                assert(false);
                            }
                        }
                        j = j + 1;
                    }
                }
                let base = self.users[i].duplicate();
                let updated = User {
                    username: match &username {
                        Some(name) => name.clone(),
                        None => base.username,
                    },
                    email: match &email {
                        Some(_) => clone_opt_string(&email),
                        None => base.email,
                    },
                    role: match &role {
                        Some(r0) => *r0,
                        None => base.role,
                    },
                    password_hash: match &password_hash {
                        Some(h) => h.clone(),
                        None => base.password_hash,
                    },
                    updated_at: now,
                    id: base.id,
                    created_at: base.created_at,
                    last_token: base.last_token,
                };
                let ghost pre = self.users@;
                self.users.set(i, updated);
                proof {
                    assert(updated == apply_update(
                        pre[i as int],
                        username,
                        email,
                        role,
                        password_hash,
                        now,
                    ));
                    assert forall|a: int, b: int| 0 <= a < b < self.users@.len() implies (
                    #[trigger] self.users@[a].username@) != (#[trigger] self.users@[b].username@)
                        by {
                        assert(pre[a].username@ != pre[b].username@);
                        if username is Some {
                            if a == i as int && self.users@[b].username@ == updated.username@ {
                                assert(pre[b].id != Some(id));
                            }
                            if b == i as int && self.users@[a].username@ == updated.username@ {
                                assert(pre[a].id != Some(id));
                            }
                        }
                    }
                    assert forall|a: int, b: int| 0 <= a < b < self.users@.len() implies (
                    #[trigger] self.users@[a].id) != (#[trigger] self.users@[b].id) by {
                        assert(pre[a].id != pre[b].id);
                    }
                }
                return Ok(1);
            }
            i = i + 1;
        }
        Ok(0)
    }

    /// Deletes the user with this id; returns the number of records
    /// deleted (0 or 1).
    pub fn delete(&mut self, id: u64) -> (deleted: u64)
        requires
            old(self).wf(),
        ensures
            final(self).wf(),
            final(self).next_id == old(self).next_id,
            has_user_id(old(self).users@, id) ==> deleted == 1 && final(self).users@ == old(
                self,
            ).users@.remove(user_idx(old(self).users@, id)),
            !has_user_id(old(self).users@, id) ==> deleted == 0 && *final(self) == *old(self),
    {
        let n = self.users.len();
        let mut i: usize = 0;
        while i < n
            invariant
                0 <= i <= n == self.users@.len(),
                self.wf(),
                *self == *old(self),
                forall|j: int| 0 <= j < i ==> (#[trigger] self.users@[j].id) != Some(id),
            decreases n - i,
        {
            let hit = match self.users[i].id {
                Some(x) => x == id,
                None => false,
            };
            if hit {
                proof {
                    lemma_user_idx_is(self.users@, id, i as int);
                }
                let ghost pre = self.users@;
                self.users.remove(i);
                proof {
                    assert forall|a: int, b: int| 0 <= a < b < self.users@.len() implies (
                    #[trigger] self.users@[a].username@) != (#[trigger] self.users@[b].username@)
                        by {
                        let a2 = if a < i as int {
                            a
                        } else {
                            a + 1
                        };
                        let b2 = if b < i as int {
                            b
                        } else {
                            b + 1
                        };
                        assert(pre[a2].username@ != pre[b2].username@);
                    }
                    assert forall|a: int, b: int| 0 <= a < b < self.users@.len() implies (
                    #[trigger] self.users@[a].id) != (#[trigger] self.users@[b].id) by {
                        let a2 = if a < i as int {
                            a
                        } else {
                            a + 1
                        };
                        let b2 = if b < i as int {
                            b
                        } else {
                            b + 1
                        };
                        assert(pre[a2].id != pre[b2].id);
                    }
                    assert forall|a: int| 0 <= a < self.users@.len() implies {
                        &&& (#[trigger] self.users@[a]).wf()
                        &&& self.users@[a].id is Some
                        &&& self.users@[a].id->0 < self.next_id
                    } by {
                        let a2 = if a < i as int {
                            a
                        } else {
                            a + 1
                        };
                        assert(pre[a2].wf());
                    }
                }
                return 1;
            }
            i = i + 1;
        }
        0
    }

    /// A copy of every stored user, in store order.
    pub fn list(&self) -> (r: Vec<User>)
        requires
            self.wf(),
        ensures
            r@ == self.users@,
    {
        let n = self.users.len();
        let mut r: Vec<User> = Vec::new();
        let mut i: usize = 0;
        while i < n
            invariant
                0 <= i <= n == self.users@.len(),
                r@ =~= self.users@.take(i as int),
            decreases n - i,
        {
            r.push(self.users[i].duplicate());
            proof {
                assert(r@ =~= self.users@.take(i as int + 1));
            }
            i = i + 1;
        }
        proof {
            assert(self.users@.take(n as int) =~= self.users@);
        }
        r
    }
}

} // verus!
