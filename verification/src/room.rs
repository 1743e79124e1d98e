use vstd::prelude::*;

use std::collections::VecDeque;

use crate::history::{ring_push, HistoryRing};
use crate::hub::{Cursor, Hub, RecvOutcome};

verus! {

/// Lifecycle state of a room. An active room carries its live-session count;
/// a room whose last session has left is pending removal and carries the
/// identifier of the eviction timer armed for it, so the timer can be
/// cancelled by a new arrival and a stale timer can be recognised.
#[derive(Debug, PartialEq, Eq, Structural)]
pub enum RoomStatus {
    Active(u64),
    PendingRemoval(u64),
}

/// The number of live sessions a status stands for.
pub open spec fn connection_count_of(status: RoomStatus) -> nat {
    match status {
        RoomStatus::Active(n) => n as nat,
        RoomStatus::PendingRemoval(_) => 0,
    }
}

/// What the caller must do after an increment.
#[derive(Debug, PartialEq, Eq, Structural)]
pub enum IncrementOutcome {
    /// The count went up by one.
    Incremented,
    /// The room was pending removal: the eviction timer with this identifier
    /// must be cancelled; the room is active again with this one session.
    Reactivated(u64),
    /// The count was already at `u64::MAX` and was left unchanged; worth a
    /// warning, never a wrap.
    Saturated,
}

/// What the caller must do after a decrement.
#[derive(Debug, PartialEq, Eq, Structural)]
pub enum DecrementOutcome {
    /// The count went down by one; sessions remain.
    Decremented,
    /// The last session left: the room is now pending removal, and an
    /// eviction timer with the identifier that was passed in must be armed.
    BecameEmpty,
    /// The count was already zero; nothing changed; worth a warning.
    IgnoredZero,
    /// The room was already pending removal; nothing changed; worth a
    /// warning.
    IgnoredPending,
}

/// The whole effect of an increment on the status.
pub open spec fn increment_transition(status: RoomStatus) -> (RoomStatus, IncrementOutcome) {
    match status {
        RoomStatus::Active(n) => if n == u64::MAX {
            (status, IncrementOutcome::Saturated)
        } else {
            (RoomStatus::Active((n + 1) as u64), IncrementOutcome::Incremented)
        },
        RoomStatus::PendingRemoval(timer) => (
            RoomStatus::Active(1),
            IncrementOutcome::Reactivated(timer),
        ),
    }
}

/// The whole effect of a decrement on the status.
pub open spec fn decrement_transition(status: RoomStatus, timer_id: u64) -> (
    RoomStatus,
    DecrementOutcome,
) {
    match status {
        RoomStatus::Active(n) => if n == 0 {
            (status, DecrementOutcome::IgnoredZero)
        } else if n == 1 {
            (RoomStatus::PendingRemoval(timer_id), DecrementOutcome::BecameEmpty)
        } else {
            (RoomStatus::Active((n - 1) as u64), DecrementOutcome::Decremented)
        },
        RoomStatus::PendingRemoval(_) => (status, DecrementOutcome::IgnoredPending),
    }
}

/// One room: its name, its bounded history, its fan-out hub, and its
/// lifecycle status. Every transition of the status goes through the two
/// transition functions above, so arming and cancelling the eviction timer is
/// decided in the same step as the count change.
pub struct Room {
    pub name: String,
    pub status: RoomStatus,
    pub history: HistoryRing,
    pub hub: Hub,
}

impl Room {
    pub open spec fn wf(&self) -> bool {
        &&& self.name@.len() > 0
        &&& self.history.wf()
        &&& self.hub.wf()
    }

    /// A fresh room: no sessions, empty history, a hub that has seen nothing.
    pub fn new(name: String) -> (room: Room)
        requires
            name@.len() > 0,
        ensures
            room.wf(),
            room.name@ == name@,
            room.status == RoomStatus::Active(0),
            room.history@.len() == 0,
            room.hub.log@.len() == 0,
            room.hub.total == 0,
            room.hub.subscribers == 0,
    {
        Room {
            name,
            status: RoomStatus::Active(0),
            history: HistoryRing::new(),
            hub: Hub::new(),
        }
    }

    /// Append one message to the history ring only.
    pub fn add_history(&mut self, message: String)
        requires
            old(self).history.wf(),
        ensures
            final(self).history@ == ring_push(old(self).history@, message@),
            final(self).history.wf(),
            final(self).name == old(self).name,
            final(self).status == old(self).status,
            final(self).hub == old(self).hub,
    {
        self.history.append(message);
    }

    /// A copy of the history in insertion order, oldest first.
    pub fn get_history(&self) -> (copy: VecDeque<String>)
        ensures
            copy.deep_view() == self.history@,
    {
        self.history.snapshot()
    }

    /// Publish one message to the room: append it to the history, then fan it
    /// out. Both happen in this one step, so a snapshot taken after a publish
    /// returns can never miss a message a subscriber was handed. Returns the
    /// number of subscribers the fan-out reached; zero is a successful no-op.
    pub fn publish(&mut self, message: String) -> (receivers: u64)
        requires
            old(self).wf(),
            old(self).hub.total < u64::MAX,
        ensures
            final(self).wf(),
            final(self).history@ == ring_push(old(self).history@, message@),
            final(self).history@.len() > 0 && final(self).history@.last() == message@,
            final(self).hub.log@ == old(self).hub.log@.push(message@),
            final(self).hub.total == old(self).hub.total + 1,
            final(self).hub.subscribers == old(self).hub.subscribers,
            final(self).name == old(self).name,
            final(self).status == old(self).status,
            receivers == old(self).hub.subscribers,
    {
        let hub_message = message.clone();
        self.history.append(message);
        self.hub.publish(hub_message)
    }

    /// A new subscriber cursor on this room's hub; it sees only messages
    /// published after this call.
    pub fn subscribe(&mut self) -> (cursor: Cursor)
        requires
            old(self).wf(),
            old(self).hub.subscribers < u64::MAX,
        ensures
            final(self).wf(),
            final(self).hub.log == old(self).hub.log,
            final(self).hub.total == old(self).hub.total,
            final(self).hub.subscribers == old(self).hub.subscribers + 1,
            final(self).hub.valid_cursor(cursor),
            cursor.next == old(self).hub.total,
            final(self).name == old(self).name,
            final(self).status == old(self).status,
            final(self).history == old(self).history,
    {
        self.hub.subscribe()
    }

    /// A subscriber of this room's hub is gone.
    pub fn unsubscribe(&mut self)
        requires
            old(self).wf(),
        ensures
            final(self).wf(),
            final(self).hub.log == old(self).hub.log,
            final(self).hub.total == old(self).hub.total,
            final(self).hub.subscribers == if old(self).hub.subscribers > 0 {
                (old(self).hub.subscribers - 1) as u64
            } else {
                0u64
            },
            final(self).name == old(self).name,
            final(self).status == old(self).status,
            final(self).history == old(self).history,
    {
        self.hub.unsubscribe()
    }

    /// One receive step of a subscriber cursor against this room's hub.
    pub fn recv(&self, cursor: &mut Cursor) -> (out: RecvOutcome)
        requires
            self.wf(),
            self.hub.valid_cursor(*old(cursor)),
        ensures
            self.hub.valid_cursor(*final(cursor)),
            crate::hub::cursor_step(
                self.hub.log@,
                old(cursor).next as nat,
                final(cursor).next as nat,
                out,
            ),
            match out {
                RecvOutcome::Message(m) => {
                    &&& old(cursor).next < self.hub.total
                    &&& m@ == self.hub.log@[old(cursor).next as int]
                    &&& final(cursor).next == old(cursor).next + 1
                },
                RecvOutcome::Lagged(k) => {
                    &&& k == self.hub.first_retained() - old(cursor).next
                    &&& final(cursor).next == self.hub.first_retained()
                },
                RecvOutcome::Empty => {
                    &&& old(cursor).next == self.hub.total
                    &&& final(cursor).next == old(cursor).next
                },
            },
    {
        self.hub.recv(cursor)
    }

    /// Whether the room currently has no pending eviction.
    pub fn is_active(&self) -> (active: bool)
        ensures
            active == (self.status matches RoomStatus::Active(_)),
    {
        match self.status {
            RoomStatus::Active(_) => true,
            RoomStatus::PendingRemoval(_) => false,
        }
    }

    /// The live-session count; zero while the room is pending removal.
    pub fn connection_count(&self) -> (count: u64)
        ensures
            count == connection_count_of(self.status),
    {
        match self.status {
            RoomStatus::Active(n) => n,
            RoomStatus::PendingRemoval(_) => 0,
        }
    }

    /// One more live session, decided and applied in one step: an active
    /// count goes up by one; a count at `u64::MAX` is left unchanged
    /// (saturation, to be logged, never a wrap); a room pending removal is
    /// reactivated and the caller is told which timer to cancel.
    pub fn increment_connection(&mut self) -> (outcome: IncrementOutcome)
        ensures
            (final(self).status, outcome) == increment_transition(old(self).status),
            final(self).name == old(self).name,
            final(self).history == old(self).history,
            final(self).hub == old(self).hub,
    {
        match self.status {
            RoomStatus::Active(n) => {
                if n == u64::MAX {
                    IncrementOutcome::Saturated
                } else {
                    self.status = RoomStatus::Active(n + 1);
                    IncrementOutcome::Incremented
                }
            },
            RoomStatus::PendingRemoval(timer) => {
                self.status = RoomStatus::Active(1);
                IncrementOutcome::Reactivated(timer)
            },
        }
    }

    /// One live session fewer, decided and applied in one step: a count above
    /// one goes down by one; the transition from one to zero arms the
    /// eviction timer whose identifier was passed in and moves the room to
    /// pending removal; a decrement at zero or while pending removal is a
    /// caller bug, left unchanged and to be logged.
    pub fn decrement_connection_and_check(&mut self, timer_id: u64) -> (outcome: DecrementOutcome)
        ensures
            (final(self).status, outcome) == decrement_transition(old(self).status, timer_id),
            final(self).name == old(self).name,
            final(self).history == old(self).history,
            final(self).hub == old(self).hub,
    {
        match self.status {
            RoomStatus::Active(n) => {
                if n == 0 {
                    DecrementOutcome::IgnoredZero
                } else if n == 1 {
                    self.status = RoomStatus::PendingRemoval(timer_id);
                    DecrementOutcome::BecameEmpty
                } else {
                    self.status = RoomStatus::Active(n - 1);
                    DecrementOutcome::Decremented
                }
            },
            RoomStatus::PendingRemoval(_) => DecrementOutcome::IgnoredPending,
        }
    }
}

/// Incrementing and then decrementing restores the connection count exactly.
/// A room with live sessions returns to its old status; when the decrement
/// was the one-to-zero transition, the room is pending removal with the
/// freshly armed timer. (A count already at `u64::MAX` is outside this law:
/// there the increment saturates and the pair is not a round trip.)
pub proof fn lemma_increment_then_decrement(status: RoomStatus, timer_id: u64)
    requires
        status matches RoomStatus::Active(n) ==> n < u64::MAX,
    ensures
        ({
            let (st1, _) = increment_transition(status);
            let (st2, out2) = decrement_transition(st1, timer_id);
            &&& connection_count_of(st2) == connection_count_of(status)
            &&& (status matches RoomStatus::Active(n) && n > 0 ==> st2 == status)
            &&& (connection_count_of(status) == 0 ==> st2 == RoomStatus::PendingRemoval(timer_id)
                && out2 == DecrementOutcome::BecameEmpty)
        }),
{
}

/// Joins (true) minus leaves (false) in a trace of session events.
pub open spec fn net_sessions(events: Seq<bool>) -> int
    decreases events.len(),
{
    if events.len() == 0 {
        0
    } else {
        net_sessions(events.drop_last()) + if events.last() {
            1int
        } else {
            -1int
        }
    }
}

/// The status a room reaches from `status` after the session events in
/// order: a join is an increment, a leave is a decrement. The timer
/// identifier does not affect the count, so the trace need not carry one.
pub open spec fn run_sessions(status: RoomStatus, events: Seq<bool>) -> RoomStatus
    decreases events.len(),
{
    if events.len() == 0 {
        status
    } else {
        let prev = run_sessions(status, events.drop_last());
        if events.last() {
            increment_transition(prev).0
        } else {
            decrement_transition(prev, 0).0
        }
    }
}

/// A trace of session events is well formed when no prefix has more leaves
/// than joins and the live count stays below `u64::MAX`.
pub open spec fn session_trace_ok(events: Seq<bool>) -> bool {
    forall|k: int|
        0 <= k <= events.len() ==> 0 <= #[trigger] net_sessions(events.take(k)) < u64::MAX
}

/// The connection counter tracks the live sessions exactly: starting from an
/// idle room, after any well-formed trace of joins and leaves the count held
/// in the status equals joins minus leaves, and while any session is live the
/// room is `Active` with that count.
pub proof fn lemma_count_tracks_sessions(events: Seq<bool>)
    requires
        session_trace_ok(events),
    ensures
        ({
            let st = run_sessions(RoomStatus::Active(0), events);
            &&& connection_count_of(st) == net_sessions(events)
            &&& (net_sessions(events) > 0 ==> st == RoomStatus::Active(
                net_sessions(events) as u64,
            ))
        }),
    decreases events.len(),
{
    if events.len() == 0 {
    } else {
        let prefix = events.drop_last();
        assert(session_trace_ok(prefix)) by {
            assert forall|k: int| 0 <= k <= prefix.len() implies 0 <= #[trigger] net_sessions(
                prefix.take(k),
            ) < u64::MAX by {
                assert(prefix.take(k) =~= events.take(k));
                assert(0 <= net_sessions(events.take(k)) < u64::MAX);
            }
        }
        lemma_count_tracks_sessions(prefix);
        assert(events.take(events.len() as int) =~= events);
        assert(events.take(prefix.len() as int) =~= prefix);
        assert(0 <= net_sessions(events) < u64::MAX);
        assert(0 <= net_sessions(prefix) < u64::MAX);
    }
}

} // verus!
