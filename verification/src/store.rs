//! The persistence core: users with a username index, nonce-keyed
//! pending users with sliding expiry, and per-(user, hostname)
//! append-only message logs with a bounded read window.
//!
//! The backing key-value store is modelled in memory with a logical
//! clock: every operation's effect on the abstract [`StoreView`] is
//! stated exactly, and expiry is driven by [`RedisDatabaseService::advance_clock`]
//! rather than by wall-clock time. In the backing store all four record
//! kinds share one keyspace of derived string keys; the injectivity
//! lemmas of [`crate::schema`] show those keys cannot collide across or
//! within kinds, which is what justifies modelling the namespaces here
//! as separate maps.
use vstd::prelude::*;
use vstd::hash_map::StringHashMap;

use crate::StoreError;
use crate::message::{MessageBackend, MessageKey};
use crate::ttl::{MAX_CLOCK_SECS, MESSAGE_TTL_SECS, PENDING_USER_TTL_SECS};
use crate::user::User;
use crate::user::UserID;

verus! {

broadcast use vstd::seq::group_seq_axioms;

/// Reads of one message sequence return at most this many entries,
/// always from the head (the oldest messages).
pub const MAX_READ_MESSAGES: usize = 1000;

/// A staged registration: the full user payload and the deadline at
/// which its nonce stops resolving.
pub struct PendingEntry {
    pub user: User,
    pub expires_at: u64,
}

/// One append-only message log: the derived (user, hostname) key, the
/// messages in insertion order, and the log's expiry deadline.
pub struct MessageLog {
    pub user_id: UserID,
    pub hostname: String,
    pub items: Vec<MessageBackend>,
    pub expires_at: u64,
}

/// Abstract pending record.
pub ghost struct PendingRec {
    pub user: User,
    pub expires_at: u64,
}

/// Abstract message log: items in insertion order, and expiry deadline.
pub ghost struct MsgRec {
    pub items: Seq<MessageBackend>,
    pub expires_at: u64,
}

/// Abstract state of the store: only records that are still alive at
/// the current logical time appear in `pending` and `msgs`.
#[verifier::ext_equal]
pub ghost struct StoreView {
    pub users: Map<Seq<char>, User>,
    pub names: Map<Seq<char>, Seq<char>>,
    pub pending: Map<Seq<char>, PendingRec>,
    pub msgs: Map<(Seq<char>, Seq<char>), MsgRec>,
    pub now: u64,
}

/// The store holding nothing, at time zero.
pub open spec fn empty_store() -> StoreView {
    StoreView {
        users: Map::empty(),
        names: Map::empty(),
        pending: Map::empty(),
        msgs: Map::empty(),
        now: 0u64,
    }
}

/// Effect of writing the username-index entry of `u`.
pub open spec fn add_user_index_spec(s: StoreView, u: User) -> StoreView {
    StoreView { names: s.names.insert(u.username@, u.user_id@), ..s }
}

/// Effect of persisting `u`: the record write followed by the index
/// write. Re-creating a user with the same identifier overwrites.
pub open spec fn add_user_spec(s: StoreView, u: User) -> StoreView {
    add_user_index_spec(StoreView { users: s.users.insert(u.user_id@, u), ..s }, u)
}

/// Effect of deleting a user record. The username index is left as it
/// is: an orphaned index entry is a documented limitation.
pub open spec fn delete_user_spec(s: StoreView, id: Seq<char>) -> StoreView {
    StoreView { users: s.users.remove(id), ..s }
}

/// Effect of staging `u` under `nonce`, applying the pending-user TTL.
/// A reused nonce is overwritten silently.
pub open spec fn stage_pending_spec(s: StoreView, u: User, nonce: Seq<char>) -> StoreView {
    StoreView {
        pending: s.pending.insert(
            nonce,
            (PendingRec { user: u, expires_at: (s.now + PENDING_USER_TTL_SECS) as u64 }),
        ),
        ..s
    }
}

/// Effect of deleting the pending record under `nonce`.
pub open spec fn delete_pending_spec(s: StoreView, nonce: Seq<char>) -> StoreView {
    StoreView { pending: s.pending.remove(nonce), ..s }
}

/// The user staged under `nonce`, if that nonce is alive.
pub open spec fn get_pending_spec(s: StoreView, nonce: Seq<char>) -> Option<User> {
    if s.pending.contains_key(nonce) {
        Some(s.pending[nonce].user)
    } else {
        None
    }
}

/// The persisted user with identifier `id`, if any.
pub open spec fn get_user_by_id_spec(s: StoreView, id: Seq<char>) -> Option<User> {
    if s.users.contains_key(id) {
        Some(s.users[id])
    } else {
        None
    }
}

/// Name-based lookup: resolve the username index, then delegate to the
/// lookup by identifier. An absent index entry is no error; an index
/// entry pointing at a deleted record is `NotFound`.
pub open spec fn get_user_by_name_spec(s: StoreView, name: Seq<char>) -> Result<
    Option<User>,
    StoreError,
> {
    if s.names.contains_key(name) {
        match get_user_by_id_spec(s, s.names[name]) {
            Some(u) => Ok(Some(u)),
            None => Err(StoreError::NotFound),
        }
    } else {
        Ok(None)
    }
}

/// Effect of confirming the pending record under `nonce` (which the
/// caller has checked is alive): persist the staged user — under the
/// identifier fixed at staging time — then delete the pending record.
pub open spec fn confirm_pending_spec(s: StoreView, nonce: Seq<char>) -> StoreView {
    delete_pending_spec(add_user_spec(s, s.pending[nonce].user), nonce)
}

/// Effect of appending `m` to the sequence at `k`: the message goes to
/// the tail, and the whole key's TTL is refreshed (sliding expiration).
pub open spec fn append_message_spec(
    s: StoreView,
    k: (Seq<char>, Seq<char>),
    m: MessageBackend,
) -> StoreView {
    let prior = if s.msgs.contains_key(k) {
        s.msgs[k].items
    } else {
        Seq::empty()
    };
    StoreView {
        msgs: s.msgs.insert(
            k,
            (MsgRec { items: prior.push(m), expires_at: (s.now + MESSAGE_TTL_SECS) as u64 }),
        ),
        ..s
    }
}

/// The bounded read window at `k`: at most [`MAX_READ_MESSAGES`]
/// messages from the head of the sequence, in insertion order. An
/// absent sequence reads as empty.
pub open spec fn find_messages_spec(s: StoreView, k: (Seq<char>, Seq<char>)) -> Seq<
    MessageBackend,
> {
    if s.msgs.contains_key(k) {
        let items = s.msgs[k].items;
        if items.len() <= MAX_READ_MESSAGES {
            items
        } else {
            items.take(MAX_READ_MESSAGES as int)
        }
    } else {
        Seq::empty()
    }
}

/// The hostnames under which `id` has live message sequences.
pub open spec fn hostnames_spec(s: StoreView, id: Seq<char>) -> Set<Seq<char>> {
    Set::new(|h: Seq<char>| s.msgs.contains_key((id, h)))
}

/// `v` enumerates exactly the hostnames of `id`'s live message
/// sequences, each once.
pub open spec fn hostname_listing(s: StoreView, id: Seq<char>, v: Seq<String>) -> bool {
    &&& forall|x: int| 0 <= x < v.len() ==> hostnames_spec(s, id).contains(#[trigger] v[x]@)
    &&& forall|h: Seq<char>|
        hostnames_spec(s, id).contains(h) ==> exists|x: int|
            0 <= x < v.len() && #[trigger] v[x]@ == h
    &&& forall|x: int, y: int| 0 <= x < y < v.len() ==> v[x]@ != v[y]@
}

/// Effect of the logical clock advancing by `secs`: records whose
/// deadline has been reached drop out.
pub open spec fn advance_spec(s: StoreView, secs: u64) -> StoreView {
    let t = (s.now + secs) as u64;
    StoreView {
        users: s.users,
        names: s.names,
        pending: Map::new(
            |n: Seq<char>| s.pending.contains_key(n) && t < s.pending[n].expires_at,
            |n: Seq<char>| s.pending[n],
        ),
        msgs: Map::new(
            |k: (Seq<char>, Seq<char>)| s.msgs.contains_key(k) && t < s.msgs[k].expires_at,
            |k: (Seq<char>, Seq<char>)| s.msgs[k],
        ),
        now: t,
    }
}

spec fn log_key(e: MessageLog) -> (Seq<char>, Seq<char>) {
    (e.user_id@, e.hostname@)
}

spec fn live_at(s: Seq<MessageLog>, k: (Seq<char>, Seq<char>), now: u64, i: int) -> bool {
    0 <= i < s.len() && log_key(s[i]) == k && now < s[i].expires_at
}

spec fn unique_keys(s: Seq<MessageLog>) -> bool {
    forall|i: int, j: int| 0 <= i < j < s.len() ==> log_key(s[i]) != log_key(s[j])
}

spec fn msgs_view(s: Seq<MessageLog>, now: u64) -> Map<(Seq<char>, Seq<char>), MsgRec> {
    Map::new(
        |k: (Seq<char>, Seq<char>)| exists|i: int| live_at(s, k, now, i),
        |k: (Seq<char>, Seq<char>)|
            {
                let i = choose|i: int| live_at(s, k, now, i);
                MsgRec { items: s[i].items@, expires_at: s[i].expires_at }
            },
    )
}

spec fn names_view(m: Map<Seq<char>, String>) -> Map<Seq<char>, Seq<char>> {
    Map::new(|n: Seq<char>| m.contains_key(n), |n: Seq<char>| m[n]@)
}

spec fn pending_view(m: Map<Seq<char>, PendingEntry>, now: u64) -> Map<Seq<char>, PendingRec> {
    Map::new(
        |n: Seq<char>| m.contains_key(n) && now < m[n].expires_at,
        |n: Seq<char>| PendingRec { user: m[n].user, expires_at: m[n].expires_at },
    )
}

proof fn lemma_msgs_view_live(s: Seq<MessageLog>, now: u64, i: int)
    requires
        unique_keys(s),
        0 <= i < s.len(),
        now < s[i].expires_at,
    ensures
        msgs_view(s, now).contains_key(log_key(s[i])),
        msgs_view(s, now)[log_key(s[i])] == (MsgRec {
            items: s[i].items@,
            expires_at: s[i].expires_at,
        }),
{
    let k = log_key(s[i]);
    assert(live_at(s, k, now, i));
    let j = choose|j: int| live_at(s, k, now, j);
    assert(live_at(s, k, now, j));
    if j != i {
        assert(log_key(s[i]) != log_key(s[j]));
        assert(false);
    }
}

/// The in-memory store service, with its logical clock.
pub struct RedisDatabaseService {
    users: StringHashMap<User>,
    names: StringHashMap<String>,
    pending: StringHashMap<PendingEntry>,
    messages: Vec<MessageLog>,
    now: u64,
}

impl View for RedisDatabaseService {
    type V = StoreView;

    closed spec fn view(&self) -> StoreView {
        StoreView {
            users: self.users@,
            names: names_view(self.names@),
            pending: pending_view(self.pending@, self.now),
            msgs: msgs_view(self.messages@, self.now),
            now: self.now,
        }
    }
}

impl RedisDatabaseService {
    /// The clock stays clear of overflow, and live message logs have
    /// pairwise distinct keys.
    pub closed spec fn wf(&self) -> bool {
        &&& self.now <= MAX_CLOCK_SECS
        &&& unique_keys(self.messages@)
    }

    /// A fresh, empty store at logical time zero.
    pub fn new() -> (r: Self)
        ensures
            r.wf(),
            r@ == empty_store(),
    {
        let r = RedisDatabaseService {
            users: StringHashMap::new(),
            names: StringHashMap::new(),
            pending: StringHashMap::new(),
            messages: Vec::new(),
            now: 0,
        };
        proof {
            assert(names_view(r.names@) =~= Map::<Seq<char>, Seq<char>>::empty());
            assert(pending_view(r.pending@, 0) =~= Map::<Seq<char>, PendingRec>::empty());
            assert(msgs_view(r.messages@, 0) =~= Map::<(Seq<char>, Seq<char>), MsgRec>::empty());
            assert(r@ =~= empty_store());
        }
        r
    }

    /// Advances the logical clock by `secs`; staged users and message
    /// logs whose deadline is reached expire.
    pub fn advance_clock(&mut self, secs: u64)
        requires
            old(self).wf(),
            old(self)@.now + secs <= MAX_CLOCK_SECS,
        ensures
            final(self).wf(),
            final(self)@ == advance_spec(old(self)@, secs),
    {
        let ghost pre = self@;
        self.now = self.now + secs;
        proof {
            let t = self.now;
            assert(pending_view(self.pending@, t) =~= advance_spec(pre, secs).pending);
            let m_new = msgs_view(self.messages@, t);
            let m_spec = advance_spec(pre, secs).msgs;
            assert forall|k: (Seq<char>, Seq<char>)| #[trigger] m_new.contains_key(k) implies
                m_spec.contains_key(k) && m_new[k] == m_spec[k] by {
                let i = choose|i: int| live_at(self.messages@, k, t, i);
                assert(live_at(self.messages@, k, t, i));
                assert(live_at(self.messages@, k, pre.now, i));
                lemma_msgs_view_live(self.messages@, pre.now, i);
                lemma_msgs_view_live(self.messages@, t, i);
            }
            assert forall|k: (Seq<char>, Seq<char>)| #[trigger] m_spec.contains_key(k) implies
                m_new.contains_key(k) by {
                let i = choose|i: int| live_at(self.messages@, k, pre.now, i);
                assert(live_at(self.messages@, k, pre.now, i));
                lemma_msgs_view_live(self.messages@, pre.now, i);
                assert(pre.msgs[k].expires_at == self.messages@[i].expires_at);
                assert(live_at(self.messages@, k, t, i));
            }
            assert(m_new =~= m_spec);
            assert(self@ =~= advance_spec(pre, secs));
        }
    }

    /// Writes the username-index entry of `user`: the username now
    /// resolves to this user's identifier.
    pub fn add_user_index(&mut self, user: &User)
        requires
            old(self).wf(),
        ensures
            final(self).wf(),
            final(self)@ == add_user_index_spec(old(self)@, *user),
    {
        let ghost pre = self@;
        self.names.insert(user.username.clone(), user.user_id.0.clone());
        proof {
            assert(names_view(self.names@) =~= pre.names.insert(user.username@, user.user_id@));
            assert(self@ =~= add_user_index_spec(pre, *user));
        }
    }

    /// Persists `user` under its record key, then writes the username
    /// index entry. Re-creating with the same identifier overwrites.
    pub fn add_user(&mut self, user: &User)
        requires
            old(self).wf(),
        ensures
            final(self).wf(),
            final(self)@ == add_user_spec(old(self)@, *user),
    {
        let ghost pre = self@;
        self.users.insert(user.user_id.0.clone(), user.clone());
        proof {
            assert(self@ =~= (StoreView { users: pre.users.insert(user.user_id@, *user), ..pre }));
        }
        self.add_user_index(user);
    }

    /// Deletes the user record. The username-index entry is not
    /// removed: an orphaned index entry is a documented limitation, and
    /// callers must not read index absence as proof of deletion.
    pub fn delete_user(&mut self, user_id: &UserID)
        requires
            old(self).wf(),
        ensures
            final(self).wf(),
            final(self)@ == delete_user_spec(old(self)@, user_id@),
    {
        let ghost pre = self@;
        self.users.remove(user_id.0.as_str());
        proof {
            assert(self@ =~= delete_user_spec(pre, user_id@));
        }
    }

    /// Fetches the user record with this identifier; `NotFound` if it
    /// is absent.
    pub fn get_user_by_id(&self, user_id: &UserID) -> (r: Result<User, StoreError>)
        requires
            self.wf(),
        ensures
            match r {
                Ok(u) => get_user_by_id_spec(self@, user_id@) == Some(u),
                Err(e) => e == StoreError::NotFound && get_user_by_id_spec(self@, user_id@)
                    is None,
            },
    {
        match self.users.get(user_id.0.as_str()) {
            Some(u) => Ok(u.clone()),
            None => Err(StoreError::NotFound),
        }
    }

    /// Resolves the username through the index, then delegates to the
    /// lookup by identifier. An absent index entry yields `Ok(None)`;
    /// an index entry whose record is gone yields `NotFound`.
    pub fn get_user_by_name(&self, username: &str) -> (r: Result<Option<User>, StoreError>)
        requires
            self.wf(),
        ensures
            r == get_user_by_name_spec(self@, username@),
    {
        match self.names.get(username) {
            Some(id) => {
                match self.users.get(id.as_str()) {
                    Some(u) => Ok(Some(u.clone())),
                    None => Err(StoreError::NotFound),
                }
            },
            None => Ok(None),
        }
    }

    /// Stages `user` under `nonce` with the pending-user TTL applied;
    /// a reused nonce is overwritten silently.
    pub fn add_user_pending(&mut self, user: &User, nonce: &str) -> (r: Result<(), StoreError>)
        requires
            old(self).wf(),
        ensures
            final(self).wf(),
            r is Ok,
            final(self)@ == stage_pending_spec(old(self)@, *user, nonce@),
    {
        let ghost pre = self@;
        let expires_at = self.now + PENDING_USER_TTL_SECS;
        self.pending.insert(
            nonce.to_owned(),
            PendingEntry { user: user.clone(), expires_at },
        );
        proof {
            assert(pending_view(self.pending@, self.now) =~= stage_pending_spec(
                pre,
                *user,
                nonce@,
            ).pending);
            assert(self@ =~= stage_pending_spec(pre, *user, nonce@));
        }
        Ok(())
    }

    /// Fetches the user staged under `nonce`; `NotFound` if the nonce
    /// never existed, was consumed, or has expired.
    pub fn get_user_pending(&self, nonce: &str) -> (r: Result<User, StoreError>)
        requires
            self.wf(),
        ensures
            match r {
                Ok(u) => get_pending_spec(self@, nonce@) == Some(u),
                Err(e) => e == StoreError::NotFound && get_pending_spec(self@, nonce@) is None,
            },
    {
        match self.pending.get(nonce) {
            Some(entry) => {
                if self.now < entry.expires_at {
                    Ok(entry.user.clone())
                } else {
                    Err(StoreError::NotFound)
                }
            },
            None => Err(StoreError::NotFound),
        }
    }

    /// Deletes the pending record under `nonce`, if any.
    pub fn delete_user_pending(&mut self, nonce: &str)
        requires
            old(self).wf(),
        ensures
            final(self).wf(),
            final(self)@ == delete_pending_spec(old(self)@, nonce@),
    {
        let ghost pre = self@;
        self.pending.remove(nonce);
        proof {
            assert(pending_view(self.pending@, self.now) =~= pre.pending.remove(nonce@));
            assert(self@ =~= delete_pending_spec(pre, nonce@));
        }
    }

    /// Confirms the registration staged under `nonce`: persists the
    /// staged user — keeping the identifier fixed at staging time —
    /// and consumes the pending record. `NotFound` if the nonce is
    /// absent or expired, in which case nothing changes.
    pub fn confirm_user_pending(&mut self, nonce: &str) -> (r: Result<(), StoreError>)
        requires
            old(self).wf(),
        ensures
            final(self).wf(),
            match r {
                Ok(_) => old(self)@.pending.contains_key(nonce@) && final(self)@
                    == confirm_pending_spec(old(self)@, nonce@),
                Err(e) => e == StoreError::NotFound && !old(self)@.pending.contains_key(nonce@)
                    && final(self)@ == old(self)@,
            },
    {
        match self.get_user_pending(nonce) {
            Ok(user) => {
                self.add_user(&user);
                self.delete_user_pending(nonce);
                Ok(())
            },
            Err(e) => Err(e),
        }
    }

    fn log_index(&self, key: &MessageKey) -> (r: Option<usize>)
        ensures
            match r {
                Some(i) => i < self.messages@.len() && log_key(self.messages@[i as int])
                    == key.pair(),
                None => forall|j: int|
                    0 <= j < self.messages@.len() ==> log_key(self.messages@[j]) != key.pair(),
            },
    {
        let mut i: usize = 0;
        while i < self.messages.len()
            invariant
                i <= self.messages@.len(),
                forall|j: int| 0 <= j < i ==> log_key(self.messages@[j]) != key.pair(),
            decreases self.messages@.len() - i,
        {
            let e = &self.messages[i];
            if e.user_id.0 == key.user_id.0 && e.hostname == key.hostname {
                return Some(i);
            }
            i = i + 1;
        }
        None
    }

    /// Appends `message` to the tail of the sequence at `key` and
    /// refreshes the whole key's TTL, so an actively-logging host's
    /// history never expires while an idle one ages out.
    pub fn add_message(&mut self, key: &MessageKey, message: &MessageBackend) -> (r: Result<
        (),
        StoreError,
    >)
        requires
            old(self).wf(),
        ensures
            final(self).wf(),
            r is Ok,
            final(self)@ == append_message_spec(old(self)@, key.pair(), *message),
    {
        let ghost pre = self@;
        let ghost k = key.pair();
        let expires_at = self.now + MESSAGE_TTL_SECS;
        match self.log_index(key) {
            Some(i) => {
                let mut e = self.messages.remove(i);
                let ghost removed = pre.msgs.remove(k);
                proof {
                    lemma_msgs_view_remove(old(self).messages@, self.now, i as int);
                }
                if self.now < e.expires_at {
                    proof {
                        lemma_msgs_view_live(old(self).messages@, self.now, i as int);
                    }
                    e.items.push(message.clone());
                } else {
                    proof {
                        lemma_msgs_view_dead(old(self).messages@, self.now, k);
                    }
                    e.items = Vec::new();
                    e.items.push(message.clone());
                }
                e.expires_at = expires_at;
                let ghost mid = self.messages@;
                proof {
                    assert(msgs_view(mid, self.now) == removed);
                }
                self.messages.push(e);
                proof {
                    lemma_msgs_view_push(mid, self.now, self.messages@[mid.len() as int]);
                    assert(self@.msgs =~= append_message_spec(pre, k, *message).msgs) by {
                        assert(removed.insert(
                            k,
                            (MsgRec { items: self.messages@[mid.len() as int].items@, expires_at }),
                        ) =~= append_message_spec(pre, k, *message).msgs);
                    }
                    assert(self@ =~= append_message_spec(pre, k, *message));
                }
            },
            None => {
                let mut items: Vec<MessageBackend> = Vec::new();
                items.push(message.clone());
                let e = MessageLog {
                    user_id: key.user_id.clone(),
                    hostname: key.hostname.clone(),
                    items,
                    expires_at,
                };
                let ghost mid = self.messages@;
                self.messages.push(e);
                proof {
                    lemma_msgs_view_dead(mid, self.now, k);
                    lemma_msgs_view_push(mid, self.now, self.messages@[mid.len() as int]);
                    assert(self@.msgs =~= append_message_spec(pre, k, *message).msgs) by {
                        assert(pre.msgs.remove(k) =~= pre.msgs);
                        assert(pre.msgs.insert(
                            k,
                            (MsgRec { items: self.messages@[mid.len() as int].items@, expires_at }),
                        ) =~= append_message_spec(pre, k, *message).msgs);
                    }
                    assert(self@ =~= append_message_spec(pre, k, *message));
                }
            },
        }
        Ok(())
    }

    /// Reads the sequence at `key` from the head: at most
    /// [`MAX_READ_MESSAGES`] messages, in insertion order. An absent or
    /// expired sequence reads as empty.
    pub fn find_messages(&self, key: &MessageKey) -> (r: Result<Vec<MessageBackend>, StoreError>)
        requires
            self.wf(),
        ensures
            match r {
                Ok(v) => v@ == find_messages_spec(self@, key.pair()),
                Err(_) => false,
            },
    {
        let ghost k = key.pair();
        let mut out: Vec<MessageBackend> = Vec::new();
        match self.log_index(key) {
            None => {
                proof {
                    lemma_msgs_view_dead(self.messages@, self.now, k);
                }
                Ok(out)
            },
            Some(i) => {
                if self.now < self.messages[i].expires_at {
                    proof {
                        lemma_msgs_view_live(self.messages@, self.now, i as int);
                    }
                    let e = &self.messages[i];
                    let n = if e.items.len() <= MAX_READ_MESSAGES {
                        e.items.len()
                    } else {
                        MAX_READ_MESSAGES
                    };
                    let mut j: usize = 0;
                    while j < n
                        invariant
                            j <= n,
                            n <= e.items@.len(),
                            out@ == e.items@.take(j as int),
                        decreases n - j,
                    {
                        out.push(e.items[j].clone());
                        proof {
                            assert(e.items@.take(j + 1 as int) =~= e.items@.take(j as int).push(
                                e.items@[j as int],
                            ));
                        }
                        j = j + 1;
                    }
                    proof {
                        if e.items@.len() <= MAX_READ_MESSAGES {
                            assert(e.items@.take(n as int) =~= e.items@);
                        }
                    }
                    Ok(out)
                } else {
                    proof {
                        lemma_msgs_view_dead(self.messages@, self.now, k);
                    }
                    Ok(out)
                }
            },
        }
    }

    /// Enumerates the hostnames under which `user_id` has live message
    /// sequences: each exactly once, in no promised order.
    #[verifier::rlimit(50)]
    pub fn get_hostnames_of_user(&self, user_id: &UserID) -> (r: Result<Vec<String>, StoreError>)
        requires
            self.wf(),
        ensures
            match r {
                Ok(v) => hostname_listing(self@, user_id@, v@),
                Err(_) => false,
            },
    {
        let mut out: Vec<String> = Vec::new();
        let mut i: usize = 0;
        while i < self.messages.len()
            invariant
                self.wf(),
                i <= self.messages@.len(),
                forall|x: int|
                    0 <= x < out@.len() ==> exists|j: int|
                        live_at(self.messages@, (user_id@, #[trigger] out@[x]@), self.now, j) && j
                            < i,
                forall|j: int|
                    0 <= j < i && live_at(
                        self.messages@,
                        (user_id@, self.messages@[j].hostname@),
                        self.now,
                        j,
                    ) && self.messages@[j].user_id@ == user_id@ ==> exists|x: int|
                        0 <= x < out@.len() && #[trigger] out@[x]@ == self.messages@[j].hostname@,
                forall|x: int, y: int| 0 <= x < y < out@.len() ==> out@[x]@ != out@[y]@,
            decreases self.messages@.len() - i,
        {
            let ghost prev = out@;
            let e = &self.messages[i];
            if e.user_id.0 == user_id.0 && self.now < e.expires_at {
                proof {
                    assert(live_at(self.messages@, (user_id@, e.hostname@), self.now, i as int));
                    if exists|x: int| 0 <= x < prev.len() && #[trigger] prev[x]@ == e.hostname@ {
                        let x = choose|x: int|
                            0 <= x < prev.len() && #[trigger] prev[x]@ == e.hostname@;
                        let j = choose|j: int|
                            live_at(self.messages@, (user_id@, prev[x]@), self.now, j) && j < i;
                        assert(live_at(self.messages@, (user_id@, prev[x]@), self.now, j));
                        assert(log_key(self.messages@[j]) == log_key(
                            self.messages@[i as int],
                        ));
                        assert(false);
                    }
                }
                out.push(e.hostname.clone());
            }
            proof {
                assert forall|x: int| 0 <= x < out@.len() implies exists|j: int|
                    live_at(self.messages@, (user_id@, #[trigger] out@[x]@), self.now, j) && j < i
                        + 1 by {
                    if x < prev.len() {
                        assert(out@[x] == prev[x]);
                        let j = choose|j: int|
                            live_at(self.messages@, (user_id@, prev[x]@), self.now, j) && j < i;
                        assert(live_at(self.messages@, (user_id@, out@[x]@), self.now, j) && j < i
                            + 1);
                    } else {
                        assert(live_at(self.messages@, (user_id@, out@[x]@), self.now, i as int)
                            && i < i + 1);
                    }
                }
                assert forall|j: int|
                    0 <= j < i + 1 && live_at(
                        self.messages@,
                        (user_id@, self.messages@[j].hostname@),
                        self.now,
                        j,
                    ) && self.messages@[j].user_id@ == user_id@ implies exists|x: int|
                    0 <= x < out@.len() && #[trigger] out@[x]@ == self.messages@[j].hostname@ by {
                    if j < i {
                        let x = choose|x: int|
                            0 <= x < prev.len() && #[trigger] prev[x]@
                                == self.messages@[j].hostname@;
                        assert(0 <= x < out@.len() && out@[x]@ == self.messages@[j].hostname@);
                    } else {
                        assert(0 <= out@.len() - 1 < out@.len() && out@[out@.len() - 1]@
                            == self.messages@[j].hostname@);
                    }
                }
            }
            i = i + 1;
        }
        proof {
            assert forall|h: Seq<char>|
                hostnames_spec(self@, user_id@).contains(h) implies exists|x: int|
                0 <= x < out@.len() && #[trigger] out@[x]@ == h by {
                assert(self@.msgs.contains_key((user_id@, h)));
                let j = choose|j: int| live_at(self.messages@, (user_id@, h), self.now, j);
                assert(live_at(self.messages@, (user_id@, h), self.now, j));
                assert(self.messages@[j].hostname@ == h);
                assert(self.messages@[j].user_id@ == user_id@);
                assert(live_at(
                    self.messages@,
                    (user_id@, self.messages@[j].hostname@),
                    self.now,
                    j,
                ));
                assert(exists|x: int|
                    0 <= x < out@.len() && #[trigger] out@[x]@ == self.messages@[j].hostname@);
            }
            assert forall|x: int| 0 <= x < out@.len() implies hostnames_spec(
                self@,
                user_id@,
            ).contains(#[trigger] out@[x]@) by {
                let j = choose|j: int|
                    live_at(self.messages@, (user_id@, out@[x]@), self.now, j) && j < i;
                assert(live_at(self.messages@, (user_id@, out@[x]@), self.now, j));
                lemma_msgs_view_live(self.messages@, self.now, j);
            }
            assert(hostname_listing(self@, user_id@, out@));
        }
        Ok(out)
    }
}

proof fn lemma_msgs_view_dead(s: Seq<MessageLog>, now: u64, k: (Seq<char>, Seq<char>))
    requires
        forall|i: int| 0 <= i < s.len() ==> !live_at(s, k, now, i),
    ensures
        !msgs_view(s, now).contains_key(k),
{
}

proof fn lemma_msgs_view_remove(s: Seq<MessageLog>, now: u64, i: int)
    requires
        unique_keys(s),
        0 <= i < s.len(),
    ensures
        unique_keys(s.remove(i)),
        msgs_view(s.remove(i), now) == msgs_view(s, now).remove(log_key(s[i])),
{
    let k = log_key(s[i]);
    let s2 = s.remove(i);
    assert forall|x: int, y: int| 0 <= x < y < s2.len() implies log_key(s2[x]) != log_key(
        s2[y],
    ) by {
        let x2 = if x < i { x } else { x + 1 };
        let y2 = if y < i { y } else { y + 1 };
        assert(s2[x] == s[x2]);
        assert(s2[y] == s[y2]);
    }
    let m_new = msgs_view(s2, now);
    let m_rhs = msgs_view(s, now).remove(k);
    assert forall|k2: (Seq<char>, Seq<char>)| #[trigger] m_new.contains_key(k2) implies
        m_rhs.contains_key(k2) && m_new[k2] == m_rhs[k2] by {
        let w = choose|w: int| live_at(s2, k2, now, w);
        assert(live_at(s2, k2, now, w));
        let w2 = if w < i { w } else { w + 1 };
        assert(s2[w] == s[w2]);
        assert(live_at(s, k2, now, w2));
        if k2 == k {
            assert(log_key(s[w2]) == log_key(s[i]));
            assert(w2 != i);
            assert(false);
        }
        lemma_msgs_view_live(s, now, w2);
        lemma_msgs_view_live(s2, now, w);
    }
    assert forall|k2: (Seq<char>, Seq<char>)| #[trigger] m_rhs.contains_key(k2) implies
        m_new.contains_key(k2) by {
        let w = choose|w: int| live_at(s, k2, now, w);
        assert(live_at(s, k2, now, w));
        assert(k2 != k);
        assert(w != i);
        let w2 = if w < i { w } else { w - 1 };
        assert(s2[w2] == s[w]);
        assert(live_at(s2, k2, now, w2));
    }
    assert(m_new =~= m_rhs);
}

proof fn lemma_msgs_view_push(s: Seq<MessageLog>, now: u64, e: MessageLog)
    requires
        unique_keys(s),
        forall|j: int| 0 <= j < s.len() ==> log_key(s[j]) != log_key(e),
        now < e.expires_at,
    ensures
        unique_keys(s.push(e)),
        msgs_view(s.push(e), now) == msgs_view(s, now).insert(
            log_key(e),
            (MsgRec { items: e.items@, expires_at: e.expires_at }),
        ),
{
    let k = log_key(e);
    let s2 = s.push(e);
    assert forall|x: int, y: int| 0 <= x < y < s2.len() implies log_key(s2[x]) != log_key(
        s2[y],
    ) by {
        if y == s.len() {
            assert(s2[x] == s[x]);
            assert(s2[y] == e);
        } else {
            assert(s2[x] == s[x]);
            assert(s2[y] == s[y]);
        }
    }
    let m_new = msgs_view(s2, now);
    let m_rhs = msgs_view(s, now).insert(k, MsgRec { items: e.items@, expires_at: e.expires_at });
    assert(s2[s.len() as int] == e);
    assert(live_at(s2, k, now, s.len() as int));
    lemma_msgs_view_live(s2, now, s.len() as int);
    assert forall|k2: (Seq<char>, Seq<char>)| #[trigger] m_new.contains_key(k2) implies
        m_rhs.contains_key(k2) && m_new[k2] == m_rhs[k2] by {
        if k2 == k {
            assert(m_new[k2] == (MsgRec { items: e.items@, expires_at: e.expires_at }));
        } else {
            let w = choose|w: int| live_at(s2, k2, now, w);
            assert(live_at(s2, k2, now, w));
            assert(w != s.len());
            assert(s2[w] == s[w]);
            assert(live_at(s, k2, now, w));
            lemma_msgs_view_live(s, now, w);
            lemma_msgs_view_live(s2, now, w);
        }
    }
    assert forall|k2: (Seq<char>, Seq<char>)| #[trigger] m_rhs.contains_key(k2) implies
        m_new.contains_key(k2) by {
        if k2 != k {
            let w = choose|w: int| live_at(s, k2, now, w);
            assert(live_at(s, k2, now, w));
            assert(s2[w] == s[w]);
            assert(live_at(s2, k2, now, w));
        }
    }
    assert(m_new =~= m_rhs);
}

} // verus!
