//! TTL policy: the two named expiry durations, in seconds.
//!
//! Every write that creates or extends a pending-user or message-sequence
//! key reapplies the corresponding duration, so expiry slides from the
//! most recent write. User records and the username index carry no TTL.
use vstd::prelude::*;

verus! {

/// How long a staged registration stays addressable: 15 minutes.
pub const PENDING_USER_TTL_SECS: u64 = 15 * 60;

/// How long an idle message sequence is retained: 30 days.
pub const MESSAGE_TTL_SECS: u64 = 30 * 24 * 60 * 60;

/// Upper bound on the store clock, leaving headroom so that applying
/// either TTL to the current time never overflows.
pub const MAX_CLOCK_SECS: u64 = u64::MAX - MESSAGE_TTL_SECS;

} // verus!
