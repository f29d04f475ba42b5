//! Persistence core for a message-logging service: a key schema over a
//! key-value store, TTL policy, user store with a username index, a
//! nonce-keyed pending-user staging area, and per-(user, hostname)
//! append-only message logs with a bounded read window.
use vstd::prelude::*;

pub mod auth;
pub mod laws;
pub mod message;
pub mod schema;
pub mod store;
pub mod ttl;
pub mod user;
pub mod users;

verus! {

/// Failure kinds of the persistence layer.
///
/// `NotFound` is returned when a requested record is absent (or expired);
/// `ConnectionFailure` when the backing store is unreachable;
/// `SerializationFailure` when a stored payload does not have the
/// expected shape.
#[derive(Clone, Copy, Debug, PartialEq, Eq, Structural)]
pub enum StoreError {
    NotFound,
    ConnectionFailure,
    SerializationFailure,
}

} // verus!
