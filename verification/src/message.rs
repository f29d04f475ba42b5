//! Messages and the derived key addressing one message sequence.
use vstd::prelude::*;

use crate::schema;
use crate::user::UserID;

verus! {

/// An appended payload: application-defined content plus the hostname it
/// originated from. Messages are never mutated or deleted individually.
#[derive(Debug)]
pub struct MessageBackend {
    pub hostname: String,
    pub content: String,
}

impl Default for MessageBackend {
    fn default() -> (r: Self)
        ensures
            r.hostname@ == Seq::<char>::empty(),
            r.content@ == Seq::<char>::empty(),
    {
        MessageBackend { hostname: String::new(), content: String::new() }
    }
}

impl Clone for MessageBackend {
    fn clone(&self) -> (r: Self)
        ensures
            r == *self,
    {
        MessageBackend { hostname: self.hostname.clone(), content: self.content.clone() }
    }
}

impl PartialEq for MessageBackend {
    fn eq(&self, other: &Self) -> (r: bool) {
        self.hostname == other.hostname && self.content == other.content
    }
}

impl vstd::std_specs::cmp::PartialEqSpecImpl for MessageBackend {
    open spec fn obeys_eq_spec() -> bool {
        true
    }

    open spec fn eq_spec(&self, other: &Self) -> bool {
        self.hostname@ == other.hostname@ && self.content@ == other.content@
    }
}

/// Composite of user identifier and hostname; identifies one append-only
/// message sequence. Derived, never stored on its own.
#[derive(Debug)]
pub struct MessageKey {
    pub user_id: UserID,
    pub hostname: String,
}

impl MessageKey {
    /// The pair of sequences this key denotes in the store model.
    pub open spec fn pair(&self) -> (Seq<char>, Seq<char>) {
        (self.user_id@, self.hostname@)
    }

    /// Renders the store key of this message sequence.
    pub fn to_redis_key(&self) -> (r: String)
        ensures
            r@ == schema::messages_key_spec(self.user_id@, self.hostname@),
    {
        schema::messages_key(self.user_id.as_str(), self.hostname.as_str())
    }
}

impl Clone for MessageKey {
    fn clone(&self) -> (r: Self)
        ensures
            r == *self,
    {
        MessageKey { user_id: self.user_id.clone(), hostname: self.hostname.clone() }
    }
}

} // verus!
