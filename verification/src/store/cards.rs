//! The card store: find-by-code, all-or-nothing batch insert under a
//! uniqueness constraint on the code, owner-filtered delete and list, and
//! the conditional activation write.
//!
//! The conditional write is the one atomic primitive the at-most-once
//! activation guarantee rests on: it flips `is_activated` only if the
//! flag is still clear at write time, and reports how many records it
//! modified.

use crate::codec::str_eq;
use crate::config::MAX_TIMESTAMP;
use crate::errors::AppError;
use crate::models::Card;
use vstd::prelude::*;

verus! {

pub open spec fn has_code(s: Seq<Card>, code: Seq<char>) -> bool {
    exists|i: int| 0 <= i < s.len() && (#[trigger] s[i].card_number@) == code
}

/// The index of the card with this code (unique when `codes_unique`).
pub open spec fn code_idx(s: Seq<Card>, code: Seq<char>) -> int {
    choose|i: int| 0 <= i < s.len() && (#[trigger] s[i].card_number@) == code
}

pub open spec fn codes_unique(s: Seq<Card>) -> bool {
    forall|i: int, j: int|
        0 <= i < j < s.len() ==> (#[trigger] s[i].card_number@) != (#[trigger] s[j].card_number@)
}

pub open spec fn ids_unique(s: Seq<Card>) -> bool {
    forall|i: int, j: int| 0 <= i < j < s.len() ==> (#[trigger] s[i].id) != (#[trigger] s[j].id)
}

/// Whether `owner` may touch `c`: no filter, or the card was created by
/// that owner.
pub open spec fn owner_ok(c: Card, owner: Option<u64>) -> bool {
    match owner {
        None => true,
        Some(o) => c.created_by == Some(o),
    }
}

pub open spec fn has_id_match(s: Seq<Card>, id: u64, owner: Option<u64>) -> bool {
    exists|i: int| 0 <= i < s.len() && (#[trigger] s[i].id) == Some(id) && owner_ok(s[i], owner)
}

pub open spec fn id_match_idx(s: Seq<Card>, id: u64, owner: Option<u64>) -> int {
    choose|i: int| 0 <= i < s.len() && (#[trigger] s[i].id) == Some(id) && owner_ok(s[i], owner)
}

pub proof fn lemma_code_idx_is(s: Seq<Card>, code: Seq<char>, i: int)
    requires
        codes_unique(s),
        0 <= i < s.len(),
        s[i].card_number@ == code,
    ensures
        has_code(s, code),
        code_idx(s, code) == i,
{
    assert(has_code(s, code));
    let k = code_idx(s, code);
    if k < i {
        assert(s[k].card_number@ != s[i].card_number@);
    } else if i < k {
        assert(s[i].card_number@ != s[k].card_number@);
    }
}

pub proof fn lemma_id_match_idx_is(s: Seq<Card>, id: u64, owner: Option<u64>, i: int)
    requires
        ids_unique(s),
        0 <= i < s.len(),
        s[i].id == Some(id),
        owner_ok(s[i], owner),
    ensures
        has_id_match(s, id, owner),
        id_match_idx(s, id, owner) == i,
{
    assert(has_id_match(s, id, owner));
    let k = id_match_idx(s, id, owner);
    if k < i {
        assert(s[k].id != s[i].id);
    } else if i < k {
        assert(s[i].id != s[k].id);
    }
}

pub struct CardStore {
    pub cards: Vec<Card>,
    pub next_id: u64,
}

/// The batch with store ids assigned from `base` on.
pub open spec fn stamped(new: Seq<Card>, base: u64) -> Seq<Card> {
    Seq::new(new.len(), |j: int| Card { id: Some((base + j) as u64), ..new[j] })
}

/// Whether a batch can be inserted: codes distinct within the batch and
/// absent from the store.
pub open spec fn batch_insertable(s: Seq<Card>, new: Seq<Card>) -> bool {
    &&& forall|i: int, j: int|
        0 <= i < j < new.len() ==> (#[trigger] new[i].card_number@) != (
        #[trigger] new[j].card_number@)
    &&& forall|j: int| 0 <= j < new.len() ==> !has_code(s, (#[trigger] new[j].card_number@))
}

/// The card store after a conditional activation, with the modified
/// count: the write applies only where the code exists and the flag is
/// still clear.
pub open spec fn cas_activate(
    s: Seq<Card>,
    code: Seq<char>,
    now: i64,
    used_by: Option<u64>,
    used_by_identifier: Option<String>,
) -> (Seq<Card>, int) {
    if has_code(s, code) && !s[code_idx(s, code)].is_activated {
        (
            s.update(
                code_idx(s, code),
                s[code_idx(s, code)].activated_spec(now, used_by, used_by_identifier),
            ),
            1,
        )
    } else {
        (s, 0)
    }
}

impl CardStore {
    pub open spec fn wf(&self) -> bool {
        &&& codes_unique(self.cards@)
        &&& ids_unique(self.cards@)
        &&& forall|i: int|
            0 <= i < self.cards@.len() ==> {
                &&& (#[trigger] self.cards@[i]).wf()
                &&& self.cards@[i].id is Some
                &&& self.cards@[i].id->0 < self.next_id
            }
    }

    pub fn new() -> (r: CardStore)
        ensures
            r.wf(),
            r.cards@ == Seq::<Card>::empty(),
            r.next_id == 0,
    {
        let r = CardStore { cards: Vec::new(), next_id: 0 };
        proof {
            assert(r.cards@ =~= Seq::<Card>::empty());
        }
        r
    }

    /// A copy of the card with this code, if any.
    pub fn find_by_code(&self, code: &str) -> (r: Option<Card>)
        requires
            self.wf(),
        ensures
            r is Some <==> has_code(self.cards@, code@),
            r matches Some(c) ==> c == self.cards@[code_idx(self.cards@, code@)],
    {
        let n = self.cards.len();
        let mut i: usize = 0;
        while i < n
            invariant
                0 <= i <= n == self.cards@.len(),
                self.wf(),
                forall|j: int| 0 <= j < i ==> (#[trigger] self.cards@[j].card_number@) != code@,
            decreases n - i,
        {
            if str_eq(self.cards[i].card_number.as_str(), code) {
                proof {
                    lemma_code_idx_is(self.cards@, code@, i as int);
                }
                return Some(self.cards[i].duplicate());
            }
            i = i + 1;
        }
        None
    }

    /// The atomic conditional activation: set the activation fields where
    /// the code matches and `is_activated` is still false; returns the
    /// number of records modified (0 or 1).
    pub fn conditional_activate(
        &mut self,
        code: &str,
        now: i64,
        used_by: Option<u64>,
        used_by_identifier: Option<String>,
    ) -> (modified: u64)
        requires
            old(self).wf(),
            0 <= now <= MAX_TIMESTAMP,
        ensures
            final(self).wf(),
            final(self).next_id == old(self).next_id,
            (final(self).cards@, modified as int) == cas_activate(
                old(self).cards@,
                code@,
                now,
                used_by,
                used_by_identifier,
            ),
    {
        let n = self.cards.len();
        let mut i: usize = 0;
        while i < n
            invariant
                0 <= i <= n == self.cards@.len(),
                self.wf(),
                *self == *old(self),
                forall|j: int| 0 <= j < i ==> (#[trigger] self.cards@[j].card_number@) != code@,
                0 <= now <= MAX_TIMESTAMP,
            decreases n - i,
        {
            if str_eq(self.cards[i].card_number.as_str(), code) {
                proof {
                    lemma_code_idx_is(self.cards@, code@, i as int);
                }
                if !self.cards[i].is_activated {
                    let updated = self.cards[i].with_activation(now, used_by, used_by_identifier);
                    let ghost pre = self.cards@;
                    self.cards.set(i, updated);
                    proof {
                        assert(self.cards@ =~= pre.update(
                            i as int,
                            pre[i as int].activated_spec(now, used_by, used_by_identifier),
                        ));
                        assert forall|a: int, b: int| 0 <= a < b < self.cards@.len() implies (
                        #[trigger] self.cards@[a].card_number@) != (
                        #[trigger] self.cards@[b].card_number@) by {
                            assert(pre[a].card_number@ != pre[b].card_number@);
                        }
                        assert forall|a: int, b: int| 0 <= a < b < self.cards@.len() implies (
                        #[trigger] self.cards@[a].id) != (#[trigger] self.cards@[b].id) by {
                            assert(pre[a].id != pre[b].id);
                        }
                    }
                    return 1;
                } else {
                    return 0;
                }
            }
            i = i + 1;
        }
        0
    }

    /// All-or-nothing batch insert. Succeeds exactly when the batch codes
    /// are distinct, none is already stored, and ids do not run out; on
    /// failure the store is unchanged.
    pub fn insert_many(&mut self, new_cards: Vec<Card>) -> (r: Result<Vec<Card>, AppError>)
        requires
            old(self).wf(),
            forall|j: int|
                0 <= j < new_cards@.len() ==> (#[trigger] new_cards@[j]).wf()
                    && new_cards@[j].id is None,
        ensures
            final(self).wf(),
            match r {
                Ok(inserted) => {
                    &&& batch_insertable(old(self).cards@, new_cards@)
                    &&& old(self).next_id + new_cards@.len() <= u64::MAX
                    &&& inserted@ == stamped(new_cards@, old(self).next_id)
                    &&& final(self).cards@ == old(self).cards@ + inserted@
                    &&& final(self).next_id == old(self).next_id + new_cards@.len()
                },
                Err(e) => {
                    &&& e is PersistenceError
                    &&& *final(self) == *old(self)
                    &&& !(batch_insertable(old(self).cards@, new_cards@) && old(self).next_id
                        + new_cards@.len() <= u64::MAX)
                },
            },
    {
        let count = new_cards.len();
        if count as u64 > u64::MAX - self.next_id {
            return Err(AppError::PersistenceError);
        }
        // Check the uniqueness constraint before touching the store.
        let mut j: usize = 0;
        while j < count
            invariant
                0 <= j <= count == new_cards@.len(),
                self.wf(),
                *self == *old(self),
                forall|a: int, b: int|
                    0 <= a < b < j ==> (#[trigger] new_cards@[a].card_number@) != (
                    #[trigger] new_cards@[b].card_number@),
                forall|a: int|
                    0 <= a < j ==> !has_code(self.cards@, (#[trigger] new_cards@[a].card_number@)),
            decreases count - j,
        {
            if self.find_by_code(new_cards[j].card_number.as_str()).is_some() {
                return Err(AppError::PersistenceError);
            }
            let mut a: usize = 0;
            while a < j
                invariant
                    0 <= a <= j < count == new_cards@.len(),
                    self.wf(),
                    *self == *old(self),
                    forall|b: int|
                        0 <= b < a ==> (#[trigger] new_cards@[b].card_number@)
                            != new_cards@[j as int].card_number@,
                decreases j - a,
            {
                if str_eq(new_cards[a].card_number.as_str(), new_cards[j].card_number.as_str()) {
                    return Err(AppError::PersistenceError);
                }
                a = a + 1;
            }
            j = j + 1;
        }
        let ghost pre = *self;
        let mut inserted: Vec<Card> = Vec::new();
        let mut k: usize = 0;
        while k < count
            invariant
                0 <= k <= count == new_cards@.len(),
                self.next_id == pre.next_id,
                self.cards@ =~= pre.cards@ + stamped(new_cards@, pre.next_id).take(k as int),
                inserted@ =~= stamped(new_cards@, pre.next_id).take(k as int),
                pre.wf(),
                pre.next_id + count <= u64::MAX,
                batch_insertable(pre.cards@, new_cards@),
                forall|j2: int|
                    0 <= j2 < new_cards@.len() ==> (#[trigger] new_cards@[j2]).wf()
                        && new_cards@[j2].id is None,
            decreases count - k,
        {
            let mut c = new_cards[k].duplicate();
            c.id = Some(self.next_id + k as u64);
            let c2 = c.duplicate();
            self.cards.push(c);
            inserted.push(c2);
            proof {
                let st = stamped(new_cards@, pre.next_id);
                assert(st[k as int] == (Card {
                    id: Some((pre.next_id + k) as u64),
                    ..new_cards@[k as int]
                }));
                assert(self.cards@ =~= pre.cards@ + st.take(k as int + 1));
                assert(inserted@ =~= st.take(k as int + 1));
            }
            k = k + 1;
        }
        self.next_id = self.next_id + count as u64;
        proof {
            let st = stamped(new_cards@, pre.next_id);
            assert(st.take(count as int) =~= st);
            assert(self.cards@ =~= pre.cards@ + st);
            assert forall|i: int| 0 <= i < self.cards@.len() implies {
                &&& (#[trigger] self.cards@[i]).wf()
                &&& self.cards@[i].id is Some
                &&& self.cards@[i].id->0 < self.next_id
            } by {
                if i < pre.cards@.len() {
                    assert(pre.cards@[i].wf());
                } else {
                    assert(self.cards@[i] == st[i - pre.cards@.len()]);
                }
            }
            assert forall|a: int, b: int| 0 <= a < b < self.cards@.len() implies (
            #[trigger] self.cards@[a].card_number@) != (#[trigger] self.cards@[b].card_number@) by {
                let pn = pre.cards@.len() as int;
                if b >= pn {
                    assert(self.cards@[b].card_number@ == new_cards@[b - pn].card_number@);
                    if a >= pn {
                        assert(new_cards@[a - pn].card_number@ != new_cards@[b - pn].card_number@);
                    } else {
                        assert(!has_code(pre.cards@, new_cards@[b - pn].card_number@));
                        assert(pre.cards@[a].card_number@ != new_cards@[b - pn].card_number@);
                    }
                }
            }
            assert forall|a: int, b: int| 0 <= a < b < self.cards@.len() implies (
            #[trigger] self.cards@[a].id) != (#[trigger] self.cards@[b].id) by {
                let pn = pre.cards@.len() as int;
                if b >= pn {
                    if a >= pn {
                    } else {
                        assert(pre.cards@[a].id->0 < pre.next_id);
                    }
                }
            }
        }
        Ok(inserted)
    }

    /// Deletes the card with this id, seen through the owner filter;
    /// returns the number of records deleted (0 or 1). A card that exists
    /// but fails the filter is indistinguishable from an absent one.
    pub fn delete(&mut self, id: u64, owner: Option<u64>) -> (deleted: u64)
        requires
            old(self).wf(),
        ensures
            final(self).wf(),
            final(self).next_id == old(self).next_id,
            has_id_match(old(self).cards@, id, owner) ==> deleted == 1 && final(self).cards@
                == old(self).cards@.remove(id_match_idx(old(self).cards@, id, owner)),
            !has_id_match(old(self).cards@, id, owner) ==> deleted == 0 && *final(self) == *old(
                self,
            ),
    {
        let n = self.cards.len();
        let mut i: usize = 0;
        while i < n
            invariant
                0 <= i <= n == self.cards@.len(),
                self.wf(),
                *self == *old(self),
                forall|j: int|
                    0 <= j < i ==> !((#[trigger] self.cards@[j].id) == Some(id) && owner_ok(
                        self.cards@[j],
                        owner,
                    )),
            decreases n - i,
        {
            let id_hit = match self.cards[i].id {
                Some(x) => x == id,
                None => false,
            };
            let owner_hit = match owner {
                None => true,
                Some(o) => match self.cards[i].created_by {
                    Some(cb) => cb == o,
                    None => false,
                },
            };
            if id_hit && owner_hit {
                proof {
                    lemma_id_match_idx_is(self.cards@, id, owner, i as int);
                }
                let ghost pre = self.cards@;
                self.cards.remove(i);
                proof {
                    assert forall|a: int, b: int| 0 <= a < b < self.cards@.len() implies (
                    #[trigger] self.cards@[a].card_number@) != (
                    #[trigger] self.cards@[b].card_number@) by {
                        let a2 = if a < i as int {
                            a
                        } else {
                            a + 1
                        };
                        let b2 = if b < i as int {
                            b
                        } else {
                            b + 1
                        };
                        assert(pre[a2].card_number@ != pre[b2].card_number@);
                    }
                    assert forall|a: int, b: int| 0 <= a < b < self.cards@.len() implies (
                    #[trigger] self.cards@[a].id) != (#[trigger] self.cards@[b].id) by {
                        let a2 = if a < i as int {
                            a
                        } else {
                            a + 1
                        };
                        let b2 = if b < i as int {
                            b
                        } else {
                            b + 1
                        };
                        assert(pre[a2].id != pre[b2].id);
                    }
                    assert forall|a: int| 0 <= a < self.cards@.len() implies {
                        &&& (#[trigger] self.cards@[a]).wf()
                        &&& self.cards@[a].id is Some
                        &&& self.cards@[a].id->0 < self.next_id
                    } by {
                        let a2 = if a < i as int {
                            a
                        } else {
                            a + 1
                        };
                        assert(pre[a2].wf());
                    }
                }
                return 1;
            }
            i = i + 1;
        }
        0
    }

    /// The cards visible through the owner filter, in store order.
    pub fn list(&self, owner: Option<u64>) -> (r: Vec<Card>)
        requires
            self.wf(),
        ensures
            r@ == self.cards@.filter(|c: Card| owner_ok(c, owner)),
    {
        let n = self.cards.len();
        let mut r: Vec<Card> = Vec::new();
        proof {
            reveal(Seq::filter);
            assert(self.cards@.take(0) =~= Seq::<Card>::empty());
            assert(r@ =~= self.cards@.take(0).filter(|c: Card| owner_ok(c, owner)));
        }
        let mut i: usize = 0;
        while i < n
            invariant
                0 <= i <= n == self.cards@.len(),
                self.wf(),
                r@ == self.cards@.take(i as int).filter(|c: Card| owner_ok(c, owner)),
            decreases n - i,
        {
            let keep = match owner {
                None => true,
                Some(o) => match self.cards[i].created_by {
                    Some(cb) => cb == o,
                    None => false,
                },
            };
            proof {
                reveal(Seq::filter);
                assert(self.cards@.take(i as int + 1).drop_last() =~= self.cards@.take(i as int));
                assert(self.cards@.take(i as int + 1).last() == self.cards@[i as int]);
            }
            if keep {
                r.push(self.cards[i].duplicate());
            }
            i = i + 1;
        }
        proof {
            assert(self.cards@.take(n as int) =~= self.cards@);
        }
        r
    }
}

} // verus!
