//! Laws of the persistence core, proved over the abstract store state:
//! each operation's contract states its exact effect as a function on
//! [`StoreView`], and these lemmas relate those effects across calls.
use vstd::prelude::*;

use crate::StoreError;
use crate::message::MessageBackend;
use crate::store::{
    MAX_READ_MESSAGES, StoreView, add_user_spec, advance_spec, append_message_spec,
    confirm_pending_spec, delete_user_spec, find_messages_spec, get_pending_spec,
    get_user_by_id_spec, get_user_by_name_spec, hostnames_spec, stage_pending_spec,
};
use crate::ttl::{MAX_CLOCK_SECS, PENDING_USER_TTL_SECS};
use crate::user::User;

verus! {

/// Round trip: creating a user and then fetching it by its identifier
/// returns a value equal to the original.
pub proof fn lemma_create_then_get_by_id(s: StoreView, u: User)
    ensures
        get_user_by_id_spec(add_user_spec(s, u), u.user_id@) == Some(u),
{
}

/// Index consistency: after creating a user, looking its username up
/// resolves through the index to the very same user, identifier
/// included.
pub proof fn lemma_create_then_get_by_name(s: StoreView, u: User)
    ensures
        get_user_by_name_spec(add_user_spec(s, u), u.username@) == Ok::<
            Option<User>,
            StoreError,
        >(Some(u)),
{
}

/// Pending-confirm idempotence on the identifier: staging a user and
/// confirming its nonce persists the user under the identifier fixed at
/// staging time, and consumes the pending record.
pub proof fn lemma_stage_then_confirm(s: StoreView, u: User, nonce: Seq<char>)
    ensures
        ({
            let s2 = confirm_pending_spec(stage_pending_spec(s, u, nonce), nonce);
            &&& get_user_by_id_spec(s2, u.user_id@) == Some(u)
            &&& get_pending_spec(s2, nonce) is None
        }),
{
}

/// Expiry: a staged user that is not confirmed stops resolving once the
/// pending-user TTL has elapsed.
pub proof fn lemma_pending_expiry(s: StoreView, u: User, nonce: Seq<char>, secs: u64)
    requires
        PENDING_USER_TTL_SECS <= secs,
        s.now + secs <= MAX_CLOCK_SECS,
    ensures
        get_pending_spec(advance_spec(stage_pending_spec(s, u, nonce), secs), nonce) is None,
{
}

/// Message ordering: appending three messages to one fresh
/// (user, hostname) key and reading the sequence back returns them in
/// exactly that order.
pub proof fn lemma_message_ordering(
    s: StoreView,
    k: (Seq<char>, Seq<char>),
    m1: MessageBackend,
    m2: MessageBackend,
    m3: MessageBackend,
)
    requires
        !s.msgs.contains_key(k),
    ensures
        find_messages_spec(
            append_message_spec(append_message_spec(append_message_spec(s, k, m1), k, m2), k, m3),
            k,
        ) == seq![m1, m2, m3],
{
    let s3 = append_message_spec(
        append_message_spec(append_message_spec(s, k, m1), k, m2),
        k,
        m3,
    );
    assert(s3.msgs[k].items =~= seq![m1, m2, m3]);
    assert(find_messages_spec(s3, k) =~= seq![m1, m2, m3]);
}

/// Bounded read: whatever a sequence holds, a read returns at most the
/// read-window cap, and what it returns is the prefix from the oldest
/// message on.
pub proof fn lemma_bounded_read(s: StoreView, k: (Seq<char>, Seq<char>))
    ensures
        find_messages_spec(s, k).len() <= MAX_READ_MESSAGES,
        s.msgs.contains_key(k) ==> find_messages_spec(s, k) == s.msgs[k].items.take(
            if s.msgs[k].items.len() <= MAX_READ_MESSAGES {
                s.msgs[k].items.len() as int
            } else {
                MAX_READ_MESSAGES as int
            },
        ),
        !s.msgs.contains_key(k) ==> find_messages_spec(s, k) == Seq::<MessageBackend>::empty(),
{
    if s.msgs.contains_key(k) {
        let items = s.msgs[k].items;
        if items.len() <= MAX_READ_MESSAGES {
            assert(items.take(items.len() as int) =~= items);
        }
    }
}

/// Hostname enumeration: appending under a (user, hostname) key makes
/// that hostname appear in the user's enumeration, and leaves every
/// other user's enumeration unchanged.
pub proof fn lemma_hostnames_after_append(
    s: StoreView,
    k: (Seq<char>, Seq<char>),
    m: MessageBackend,
)
    ensures
        hostnames_spec(append_message_spec(s, k, m), k.0) == hostnames_spec(s, k.0).insert(k.1),
        forall|id: Seq<char>|
            id != k.0 ==> #[trigger] hostnames_spec(append_message_spec(s, k, m), id)
                == hostnames_spec(s, id),
{
    let ap = append_message_spec(s, k, m);
    assert(hostnames_spec(ap, k.0) =~= hostnames_spec(s, k.0).insert(k.1)) by {
        assert forall|h: Seq<char>| #[trigger]
            hostnames_spec(ap, k.0).contains(h) == hostnames_spec(s, k.0).insert(k.1).contains(
                h,
            ) by {
            assert((k.0, h) == k <==> h == k.1);
        }
    }
    assert forall|id: Seq<char>| id != k.0 implies #[trigger] hostnames_spec(ap, id)
        == hostnames_spec(s, id) by {
        assert(hostnames_spec(ap, id) =~= hostnames_spec(s, id)) by {
            assert forall|h: Seq<char>| #[trigger]
                hostnames_spec(ap, id).contains(h) == hostnames_spec(s, id).contains(h) by {
                assert((id, h) != k);
            }
        }
    }
}

/// Deletion: after deleting a user record, the lookup by identifier
/// returns nothing.
pub proof fn lemma_delete_then_get(s: StoreView, id: Seq<char>)
    ensures
        get_user_by_id_spec(delete_user_spec(s, id), id) is None,
{
}

} // verus!
