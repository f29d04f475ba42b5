//! Key schema: the pure, total mapping from logical entities to the
//! colon-delimited ASCII keys of the backing key-value store.
//!
//! One scheme per entity:
//! `user:<UserID>`, `user_usernames:<username>`, `user_pending:<Nonce>`,
//! and `messages:<UserID>:<hostname>`. For identifiers that do not carry
//! the delimiter themselves, no two distinct entities render to the same
//! key (`lemma_no_cross_collisions` and the per-scheme injectivity
//! lemmas below).
use vstd::prelude::*;
use vstd::string::StringExecFns;

verus! {

broadcast use vstd::seq::group_seq_axioms;

/// An identifier that is safe to embed in a derived key: it never holds
/// the `:` delimiter.
pub open spec fn id_has_no_delimiter(s: Seq<char>) -> bool {
    forall|i: int| 0 <= i < s.len() ==> s[i] != ':'
}

/// Key of a persisted user record.
pub open spec fn user_key_spec(id: Seq<char>) -> Seq<char> {
    "user:"@ + id
}

/// Key of a username-index entry; its value is a `UserID`.
pub open spec fn username_index_key_spec(name: Seq<char>) -> Seq<char> {
    "user_usernames:"@ + name
}

/// Key of a staged, not-yet-confirmed user record.
pub open spec fn pending_key_spec(nonce: Seq<char>) -> Seq<char> {
    "user_pending:"@ + nonce
}

/// Key of one append-only message sequence.
pub open spec fn messages_key_spec(id: Seq<char>, hostname: Seq<char>) -> Seq<char> {
    "messages:"@ + id + ":"@ + hostname
}

/// Renders the key of a user record.
pub fn user_key(id: &str) -> (r: String)
    ensures
        r@ == user_key_spec(id@),
{
    let mut s = "user:".to_owned();
    s.append(id);
    s
}

/// Renders the key of a username-index entry.
pub fn username_index_key(name: &str) -> (r: String)
    ensures
        r@ == username_index_key_spec(name@),
{
    let mut s = "user_usernames:".to_owned();
    s.append(name);
    s
}

/// Renders the key of a pending-user record.
pub fn pending_key(nonce: &str) -> (r: String)
    ensures
        r@ == pending_key_spec(nonce@),
{
    let mut s = "user_pending:".to_owned();
    s.append(nonce);
    s
}

/// Renders the key of a message sequence.
pub fn messages_key(id: &str, hostname: &str) -> (r: String)
    ensures
        r@ == messages_key_spec(id@, hostname@),
{
    let mut s = "messages:".to_owned();
    s.append(id);
    s.append(":");
    s.append(hostname);
    s
}

proof fn lemma_prefix_peel(p: Seq<char>, a: Seq<char>, b: Seq<char>)
    requires
        p + a == p + b,
    ensures
        a == b,
{
    assert((p + a).len() == p.len() + a.len());
    assert((p + b).len() == p.len() + b.len());
    assert((p + a).len() == (p + b).len());
    assert(a.len() == b.len());
    assert forall|i: int| 0 <= i < a.len() implies a[i] == b[i] by {
        assert(0 <= p.len() + i < (p + a).len());
        assert((p + a)[p.len() + i] == a[i]);
        assert((p + b)[p.len() + i] == b[i]);
    }
    assert(a =~= b);
}

/// No two user-record keys coincide for distinct identifiers.
pub proof fn lemma_user_key_injective(a: Seq<char>, b: Seq<char>)
    requires
        user_key_spec(a) == user_key_spec(b),
    ensures
        a == b,
{
    lemma_prefix_peel("user:"@, a, b);
}

/// No two username-index keys coincide for distinct usernames.
pub proof fn lemma_username_index_key_injective(a: Seq<char>, b: Seq<char>)
    requires
        username_index_key_spec(a) == username_index_key_spec(b),
    ensures
        a == b,
{
    lemma_prefix_peel("user_usernames:"@, a, b);
}

/// No two pending-user keys coincide for distinct nonces.
pub proof fn lemma_pending_key_injective(a: Seq<char>, b: Seq<char>)
    requires
        pending_key_spec(a) == pending_key_spec(b),
    ensures
        a == b,
{
    lemma_prefix_peel("user_pending:"@, a, b);
}

/// A message-sequence key determines both the user identifier and the
/// hostname, provided the identifier does not carry the delimiter: the
/// first delimiter at or after position 9 closes the identifier.
pub proof fn lemma_messages_key_injective(
    id1: Seq<char>,
    host1: Seq<char>,
    id2: Seq<char>,
    host2: Seq<char>,
)
    requires
        id_has_no_delimiter(id1),
        id_has_no_delimiter(id2),
        messages_key_spec(id1, host1) == messages_key_spec(id2, host2),
    ensures
        id1 == id2,
        host1 == host2,
{
    reveal_strlit("messages:");
    reveal_strlit(":");
    let s1 = messages_key_spec(id1, host1);
    let s2 = messages_key_spec(id2, host2);
    assert(s1.len() == 10 + id1.len() + host1.len());
    assert(s2.len() == 10 + id2.len() + host2.len());
    assert(s1[9 + id1.len() as int] == ':');
    assert(s2[9 + id2.len() as int] == ':');
    if id1.len() < id2.len() {
        assert(s2[9 + id1.len() as int] == id2[id1.len() as int]);
        assert(false);
    }
    if id2.len() < id1.len() {
        assert(s1[9 + id2.len() as int] == id1[id2.len() as int]);
        assert(false);
    }
    assert forall|i: int| 0 <= i < id1.len() implies id1[i] == id2[i] by {
        assert(s1[9 + i] == id1[i]);
        assert(s2[9 + i] == id2[i]);
    }
    assert(id1 =~= id2);
    assert forall|i: int| 0 <= i < host1.len() implies host1[i] == host2[i] by {
        assert(s1[10 + id1.len() + i] == host1[i]);
        assert(s2[10 + id2.len() + i] == host2[i]);
    }
    assert(host1 =~= host2);
}

/// Keys never collide across entity types, whatever the identifiers are.
pub proof fn lemma_no_cross_collisions(
    id: Seq<char>,
    name: Seq<char>,
    nonce: Seq<char>,
    mid: Seq<char>,
    host: Seq<char>,
)
    ensures
        user_key_spec(id) != username_index_key_spec(name),
        user_key_spec(id) != pending_key_spec(nonce),
        user_key_spec(id) != messages_key_spec(mid, host),
        username_index_key_spec(name) != pending_key_spec(nonce),
        username_index_key_spec(name) != messages_key_spec(mid, host),
        pending_key_spec(nonce) != messages_key_spec(mid, host),
{
    reveal_strlit("user:");
    reveal_strlit("user_usernames:");
    reveal_strlit("user_pending:");
    reveal_strlit("messages:");
    reveal_strlit(":");
    assert(user_key_spec(id) != username_index_key_spec(name)) by {
        if user_key_spec(id) == username_index_key_spec(name) {
            assert(user_key_spec(id)[4] == ':');
            assert(username_index_key_spec(name)[4] == '_');
        }
    }
    assert(user_key_spec(id) != pending_key_spec(nonce)) by {
        if user_key_spec(id) == pending_key_spec(nonce) {
            assert(user_key_spec(id)[4] == ':');
            assert(pending_key_spec(nonce)[4] == '_');
        }
    }
    assert(user_key_spec(id) != messages_key_spec(mid, host)) by {
        if user_key_spec(id) == messages_key_spec(mid, host) {
            assert(user_key_spec(id)[0] == 'u');
            assert(messages_key_spec(mid, host)[0] == 'm');
        }
    }
    assert(username_index_key_spec(name) != pending_key_spec(nonce)) by {
        if username_index_key_spec(name) == pending_key_spec(nonce) {
            assert(username_index_key_spec(name)[5] == 'u');
            assert(pending_key_spec(nonce)[5] == 'p');
        }
    }
    assert(username_index_key_spec(name) != messages_key_spec(mid, host)) by {
        if username_index_key_spec(name) == messages_key_spec(mid, host) {
            assert(username_index_key_spec(name)[0] == 'u');
            assert(messages_key_spec(mid, host)[0] == 'm');
        }
    }
    assert(pending_key_spec(nonce) != messages_key_spec(mid, host)) by {
        if pending_key_spec(nonce) == messages_key_spec(mid, host) {
            assert(pending_key_spec(nonce)[0] == 'u');
            assert(messages_key_spec(mid, host)[0] == 'm');
        }
    }
}

} // verus!
