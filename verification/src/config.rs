use vstd::prelude::*;

verus! {

/// Capacity of each room's history ring, and of each subscriber's backlog in
/// the broadcast hub.
pub const MAX_HISTORY_SIZE: usize = 100;

/// Grace period, in seconds, that an empty room is kept before its registry
/// entry is removed.
pub const REMOVE_AFTER_SECS: u64 = 60;

/// Deadline, in seconds, for writing a single message to a client before that
/// client's send loop is abandoned.
pub const WEBSOCKET_TIMEOUT_SECS: u64 = 5;

} // verus!
