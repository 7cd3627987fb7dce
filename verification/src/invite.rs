//! One-shot admission tokens and the registry that issues and consumes them.
//!
//! An invite binds one user to one room under an unguessable key. The
//! registry records every key it has ever handed out: a key, once consumed —
//! or never issued — never admits anyone, and no key is issued twice. The
//! registry is a plain value; callers serialise access to it (one lock or
//! one owning task), which makes a consume atomic per key.

use vstd::prelude::*;
use vstd::string::StringExecFns;
use crate::json::str_eq;
use crate::types::{UserId, InvalidInvite};

verus! {

/// A one-shot token authorizing `user_id` to join `room_id`.
#[derive(Clone, Debug, PartialEq)]
pub struct Invite {
    pub key: String,
    pub user_id: UserId,
    pub room_id: String,
}

/// Model of an `Invite`.
pub struct InviteV {
    pub key: Seq<char>,
    pub user_id: Seq<char>,
    pub room_id: Seq<char>,
}

impl View for Invite {
    type V = InviteV;

    open spec fn view(&self) -> InviteV {
        InviteV { key: self.key@, user_id: self.user_id@, room_id: self.room_id@ }
    }
}

/// Relies on `uuid::Uuid::new_v4` and its `to_string`: a token drawn from a
/// cryptographically strong random source. Nothing is promised of its value.
/// Panics only if the operating system's random source fails, a state of the
/// machine, not an input.
#[verifier::external_body]
fn random_key() -> (r: String) {
    uuid::Uuid::new_v4().to_string()
}

impl Invite {
    /// A fresh invite binding `user_id` to `room_id`, under a random key.
    pub fn new(user_id: UserId, room_id: &str) -> (r: Invite)
        ensures
            r@.user_id == user_id@,
            r@.room_id == room_id@,
    {
        Invite { key: random_key(), user_id, room_id: String::from_str(room_id) }
    }
}

/// The longest view length among these strings.
pub open spec fn max_len(s: Seq<String>) -> nat
    decreases s.len(),
{
    if s.len() == 0 {
        0
    } else {
        let m = max_len(s.drop_last());
        if s.last()@.len() > m {
            s.last()@.len()
        } else {
            m
        }
    }
}

proof fn lemma_max_len(s: Seq<String>, i: int)
    requires
        0 <= i < s.len(),
    ensures
        s[i]@.len() <= max_len(s),
    decreases s.len(),
{
    if i < s.len() - 1 {
        lemma_max_len(s.drop_last(), i);
    }
}

/// The one structure shared across rooms: the pending invites and every key
/// ever issued.
pub struct InviteRegistry {
    pending: Vec<Invite>,
    used: Vec<String>,
}

impl InviteRegistry {
    /// The bindings that currently admit someone.
    pub closed spec fn pending_view(self) -> Seq<InviteV> {
        Seq::new(self.pending@.len(), |i: int| self.pending@[i]@)
    }

    /// Whether `key` was ever handed out, consumed or not.
    pub closed spec fn key_used(self, key: Seq<char>) -> bool {
        exists|i: int| 0 <= i < self.used@.len() && self.used@[i]@ == key
    }

    /// Whether `key` currently admits someone.
    pub closed spec fn has_pending(self, key: Seq<char>) -> bool {
        exists|i: int| 0 <= i < self.pending@.len() && self.pending@[i]@.key == key
    }

    /// Every pending key was issued, and no two pending invites share a key.
    pub closed spec fn wf(self) -> bool {
        &&& forall|i: int|
            0 <= i < self.pending@.len() ==> self.key_used(#[trigger] self.pending@[i]@.key)
        &&& forall|i: int, k: int|
            0 <= i < k < self.pending@.len() ==> (#[trigger] self.pending@[i]@.key) != (
            #[trigger] self.pending@[k]@.key)
    }

    /// An empty registry: nothing pending, nothing issued.
    pub fn new() -> (r: InviteRegistry)
        ensures
            r.wf(),
            r.pending_view() == Seq::<InviteV>::empty(),
            forall|k: Seq<char>| !r.key_used(k),
    {
        let r = InviteRegistry { pending: Vec::new(), used: Vec::new() };
        proof {
            assert(r.pending_view() =~= Seq::<InviteV>::empty());
        }
        r
    }

    /// Whether `key` was ever issued.
    fn is_used(&self, key: &String) -> (r: bool)
        ensures
            r == self.key_used(key@),
    {
        let n = self.used.len();
        let mut i: usize = 0;
        while i < n
            invariant
                n == self.used@.len(),
                0 <= i <= n,
                forall|k: int| 0 <= k < i ==> self.used@[k]@ != key@,
            decreases n - i,
        {
            if str_eq(self.used[i].as_str(), key.as_str()) {
                return true;
            }
            i = i + 1;
        }
        false
    }

    /// Records a fresh binding of `user_id` to `room_id` and returns its
    /// invite. The key is new: it differs from every key this registry has
    /// ever issued, so every outstanding invite keeps a distinct key.
    pub fn issue(&mut self, user_id: &str, room_id: &str) -> (r: Invite)
        requires
            old(self).wf(),
        ensures
            final(self).wf(),
            r@.user_id == user_id@,
            r@.room_id == room_id@,
            !old(self).key_used(r@.key),
            final(self).pending_view() == old(self).pending_view().push(r@),
            final(self).key_used(r@.key),
            forall|k: Seq<char>| old(self).key_used(k) ==> final(self).key_used(k),
            forall|k: Seq<char>| final(self).key_used(k) ==> old(self).key_used(k) || k == r@.key,
    {
        let ghost max = max_len(self.used@) as int;
        let mut key = random_key();
        let mut taken = self.is_used(&key);
        while taken
            invariant
                *self == *old(self),
                max == max_len(self.used@) as int,
                taken == self.key_used(key@),
            decreases (if key@.len() <= max {
                max + 1 - key@.len()
            } else {
                0
            }),
        {
            proof {
                reveal_strlit("x");
                let i = choose|i: int|
                    0 <= i < self.used@.len() && self.used@[i]@ == key@;
                lemma_max_len(self.used@, i);
            }
            key.append("x");
            taken = self.is_used(&key);
        }
        let invite = Invite {
            key: key.clone(),
            user_id: String::from_str(user_id),
            room_id: String::from_str(room_id),
        };
        let stored = Invite {
            key: invite.key.clone(),
            user_id: invite.user_id.clone(),
            room_id: invite.room_id.clone(),
        };
        self.used.push(key);
        self.pending.push(stored);
        proof {
            assert(self.pending_view() =~= old(self).pending_view().push(invite@));
            assert(self.key_used(invite@.key)) by {
                assert(self.used@[self.used@.len() - 1]@ == invite@.key);
            }
            assert forall|k: Seq<char>| old(self).key_used(k) implies self.key_used(k) by {
                let i = choose|i: int| 0 <= i < old(self).used@.len() && old(self).used@[i]@ == k;
                assert(self.used@[i]@ == k);
            }
            assert forall|i: int|
                0 <= i < self.pending@.len() implies self.key_used(
                #[trigger] self.pending@[i]@.key,
            ) by {
                if i < old(self).pending@.len() {
                    assert(old(self).key_used(old(self).pending@[i]@.key));
                }
            }
        }
        invite
    }

    /// Records a binding brought in from outside (an issuance channel of the
    /// caller's choosing). It is accepted only under a key this registry has
    /// never seen; otherwise nothing changes and the caller gets
    /// `InvalidInvite`.
    pub fn register(&mut self, invite: Invite) -> (r: Result<(), InvalidInvite>)
        requires
            old(self).wf(),
        ensures
            final(self).wf(),
            match r {
                Ok(()) => !old(self).key_used(invite@.key) && final(self).pending_view() == old(self).pending_view().push(invite@) && final(self).key_used(invite@.key),
                Err(_) => old(self).key_used(invite@.key) && *final(self) == *old(self),
            },
            forall|k: Seq<char>| old(self).key_used(k) ==> final(self).key_used(k),
    {
        if self.is_used(&invite.key) {
            return Err(InvalidInvite);
        }
        let ghost keyv = invite@.key;
        let ghost iv = invite@;
        self.used.push(invite.key.clone());
        self.pending.push(invite);
        proof {
            assert(self.pending_view() =~= old(self).pending_view().push(iv));
            assert(self.key_used(keyv)) by {
                assert(self.used@[self.used@.len() - 1]@ == keyv);
            }
            assert forall|k: Seq<char>| old(self).key_used(k) implies self.key_used(k) by {
                let i = choose|i: int| 0 <= i < old(self).used@.len() && old(self).used@[i]@ == k;
                assert(self.used@[i]@ == k);
            }
            assert forall|i: int|
                0 <= i < self.pending@.len() implies self.key_used(
                #[trigger] self.pending@[i]@.key,
            ) by {
                if i < old(self).pending@.len() {
                    assert(old(self).key_used(old(self).pending@[i]@.key));
                }
            }
        }
        Ok(())
    }

    /// Consumes `key`: exactly the keys with a pending binding succeed, the
    /// binding is removed — so a second consume of the same key fails — and
    /// every other key is `InvalidInvite`. Callers serialise access, which
    /// makes two racing consumes of one key resolve to one success and one
    /// failure.
    pub fn consume(&mut self, key: &str) -> (r: Result<(UserId, String), InvalidInvite>)
        requires
            old(self).wf(),
        ensures
            final(self).wf(),
            forall|k: Seq<char>| final(self).key_used(k) <==> old(self).key_used(k),
            r is Ok <==> old(self).has_pending(key@),
            match r {
                Ok((user, room)) => exists|i: int|
                    0 <= i < old(self).pending_view().len()
                        && (#[trigger] old(self).pending_view()[i]).key == key@
                        && user@ == old(self).pending_view()[i].user_id
                        && room@ == old(self).pending_view()[i].room_id
                        && final(self).pending_view() == old(self).pending_view().remove(i),
                Err(_) => *final(self) == *old(self),
            },
            r is Ok ==> !final(self).has_pending(key@),
    {
        let n = self.pending.len();
        let mut i: usize = 0;
        while i < n
            invariant
                old(self).wf(),
                *self == *old(self),
                n == self.pending@.len(),
                0 <= i <= n,
                forall|k: int| 0 <= k < i ==> (#[trigger] self.pending@[k]@.key) != key@,
            decreases n - i,
        {
            if str_eq(self.pending[i].key.as_str(), key) {
                let invite = self.pending.remove(i);
                proof {
                    lemma_remove_pending(*old(self), *self, i as int, key@);
                    assert(old(self).has_pending(key@)) by {
                        assert(old(self).pending@[i as int]@.key == key@);
                    }
                    assert((#[trigger] old(self).pending_view()[i as int]).key == key@
                        && invite.user_id@ == old(self).pending_view()[i as int].user_id
                        && invite.room_id@ == old(self).pending_view()[i as int].room_id
                        && self.pending_view() == old(self).pending_view().remove(i as int));
                }
                return Ok((invite.user_id, invite.room_id));
            }
            i = i + 1;
        }
        proof {
            if old(self).has_pending(key@) {
                let k = choose|k: int|
                    0 <= k < old(self).pending@.len() && old(self).pending@[k]@.key == key@;
                assert((#[trigger] self.pending@[k]@.key) == key@);
            }
        }
        Err(InvalidInvite)
    }
}

/// Removing one pending binding keeps the registry well-formed, removes its
/// key from the pending set, and hands out no key.
proof fn lemma_remove_pending(r0: InviteRegistry, r1: InviteRegistry, i: int, key: Seq<char>)
    requires
        r0.wf(),
        0 <= i < r0.pending@.len(),
        r0.pending@[i]@.key == key,
        r1.pending@ == r0.pending@.remove(i),
        r1.used@ == r0.used@,
    ensures
        r1.wf(),
        !r1.has_pending(key),
        forall|k: Seq<char>| r1.key_used(k) <==> r0.key_used(k),
        r1.pending_view() == r0.pending_view().remove(i),
{
    r0.pending@.remove_ensures(i);
    r0.pending_view().remove_ensures(i);
    assert(r1.pending_view() =~= r0.pending_view().remove(i));
    assert forall|k: Seq<char>| r1.key_used(k) <==> r0.key_used(k) by {
        if r1.key_used(k) {
            let j = choose|j: int| 0 <= j < r1.used@.len() && r1.used@[j]@ == k;
            assert(r0.used@[j]@ == k);
        }
        if r0.key_used(k) {
            let j = choose|j: int| 0 <= j < r0.used@.len() && r0.used@[j]@ == k;
            assert(r1.used@[j]@ == k);
        }
    }
    assert forall|a: int, b: int| 0 <= a < b < r1.pending@.len() implies (
    #[trigger] r1.pending@[a]@.key) != (#[trigger] r1.pending@[b]@.key) by {
        let a0: int = if a < i {
            a
        } else {
            a + 1
        };
        let b0: int = if b < i {
            b
        } else {
            b + 1
        };
        assert(r1.pending@[a] == r0.pending@.remove(i)[a]);
        assert(r1.pending@[b] == r0.pending@.remove(i)[b]);
        assert(r1.pending@[a] == r0.pending@[a0]);
        assert(r1.pending@[b] == r0.pending@[b0]);
    }
    assert forall|a: int| 0 <= a < r1.pending@.len() implies r1.key_used(
        #[trigger] r1.pending@[a]@.key,
    ) by {
        let a0: int = if a < i {
            a
        } else {
            a + 1
        };
        assert(r1.pending@[a] == r0.pending@.remove(i)[a]);
        assert(r1.pending@[a] == r0.pending@[a0]);
        assert(r0.key_used(r0.pending@[a0]@.key));
        let j = choose|j: int| 0 <= j < r0.used@.len() && r0.used@[j]@ == r0.pending@[a0]@.key;
        assert(r1.used@[j]@ == r0.pending@[a0]@.key);
    }
    assert(!r1.has_pending(key)) by {
        if exists|k: int| 0 <= k < r1.pending@.len() && (#[trigger] r1.pending@[k]@.key) == key {
            let k = choose|k: int|
                0 <= k < r1.pending@.len() && (#[trigger] r1.pending@[k]@.key) == key;
            let k0: int = if k < i {
                k
            } else {
                k + 1
            };
            assert(r1.pending@[k] == r0.pending@.remove(i)[k]);
            assert(r1.pending@[k] == r0.pending@[k0]);
            if k0 < i {
                assert(r0.pending@[k0]@.key != r0.pending@[i]@.key);
            } else {
                assert(r0.pending@[i]@.key != r0.pending@[k0]@.key);
            }
        }
    }
}

/// Law: invite uniqueness. In a well-formed registry — and `issue` keeps it
/// so by always drawing a never-issued key — any two outstanding invites
/// carry distinct keys.
pub proof fn lemma_pending_keys_distinct(r: InviteRegistry, i: int, k: int)
    requires
        r.wf(),
        0 <= i < k < r.pending_view().len(),
    ensures
        r.pending_view()[i].key != r.pending_view()[k].key,
{
}

/// Law: invite single use. Once a consume of `key` has removed its binding,
/// `key` is pending nowhere in the registry that results, so consuming it
/// again must fail.
pub proof fn lemma_consume_single_use(
    before: InviteRegistry,
    after: InviteRegistry,
    i: int,
    key: Seq<char>,
)
    requires
        before.wf(),
        0 <= i < before.pending_view().len(),
        before.pending_view()[i].key == key,
        after.pending_view() == before.pending_view().remove(i),
    ensures
        !after.has_pending(key),
{
    let pv = before.pending_view();
    pv.remove_ensures(i);
    if after.has_pending(key) {
        let k = choose|k: int| 0 <= k < after.pending@.len() && after.pending@[k]@.key == key;
        assert(after.pending_view()[k] == after.pending@[k]@);
        let k0: int = if k < i {
            k
        } else {
            k + 1
        };
        assert(pv[k0].key == key);
        assert(before.pending@[k0]@.key == key);
        assert(before.pending@[i]@.key == key);
        if k0 < i {
            assert(before.pending@[k0]@.key != before.pending@[i]@.key);
        } else {
            assert(before.pending@[i]@.key != before.pending@[k0]@.key);
        }
    }
}

/// A pending binding's key is pending.
pub proof fn lemma_pending_index(r: InviteRegistry, i: int)
    requires
        0 <= i < r.pending_view().len(),
    ensures
        r.has_pending(r.pending_view()[i].key),
{
    assert(r.pending@[i]@.key == r.pending_view()[i].key);
}

/// Two different outstanding invites of a well-formed registry never share
/// a key.
pub proof fn lemma_pending_keys_unique(r: InviteRegistry, i: int, j: int)
    requires
        r.wf(),
        0 <= i < r.pending_view().len(),
        0 <= j < r.pending_view().len(),
        i != j,
    ensures
        r.pending_view()[i].key != r.pending_view()[j].key,
{
}

} // verus!
