use vstd::prelude::*;

use crate::config::MAX_HISTORY_SIZE;
use crate::history::{ring_push, HistoryRing};

verus! {

/// What one receive hands a subscriber: the next message in publish order, a
/// notice that this subscriber fell behind and lost that many messages, or
/// nothing new yet.
#[derive(Debug)]
pub enum RecvOutcome {
    Message(String),
    Lagged(u64),
    Empty,
}

/// The private read position of one subscriber, counted in messages published
/// to the hub since it was created.
pub struct Cursor {
    pub next: u64,
}

/// The fan-out primitive of one room: a shared ring of the most recently
/// published messages, with one read position per subscriber. Publishing
/// never waits for a subscriber; a subscriber that has fallen further behind
/// than the backlog capacity loses the oldest undelivered messages
/// (drop-oldest) and is told how many.
///
/// `log` is the ghost record of every message ever published, in publish
/// order; the ring retains its last `MAX_HISTORY_SIZE` entries.
pub struct Hub {
    pub backlog: HistoryRing,
    pub total: u64,
    pub subscribers: u64,
    pub log: Ghost<Seq<Seq<char>>>,
}

impl Hub {
    /// Position of the oldest message still retained in the backlog.
    pub open spec fn first_retained(&self) -> int {
        self.total - self.backlog@.len()
    }

    pub open spec fn wf(&self) -> bool {
        &&& self.backlog.wf()
        &&& self.log@.len() == self.total
        &&& self.backlog@.len() == if self.total < MAX_HISTORY_SIZE {
            self.total as int
        } else {
            MAX_HISTORY_SIZE as int
        }
        &&& self.backlog@ == self.log@.subrange(self.first_retained(), self.total as int)
    }

    /// A cursor position that this hub could have handed out.
    pub open spec fn valid_cursor(&self, cursor: Cursor) -> bool {
        cursor.next <= self.total
    }

    pub fn new() -> (hub: Hub)
        ensures
            hub.wf(),
            hub.log@.len() == 0,
            hub.total == 0,
            hub.subscribers == 0,
    {
        let hub = Hub {
            backlog: HistoryRing::new(),
            total: 0,
            subscribers: 0,
            log: Ghost(Seq::empty()),
        };
        proof {
            assert(hub.backlog@ =~= hub.log@.subrange(0, 0));
        }
        hub
    }

    /// A new subscriber: its cursor sees only messages published after this
    /// call.
    pub fn subscribe(&mut self) -> (cursor: Cursor)
        requires
            old(self).subscribers < u64::MAX,
        ensures
            final(self).backlog == old(self).backlog,
            final(self).total == old(self).total,
            final(self).log == old(self).log,
            final(self).subscribers == old(self).subscribers + 1,
            cursor.next == old(self).total,
            old(self).wf() ==> final(self).wf() && final(self).valid_cursor(cursor),
    {
        self.subscribers = self.subscribers + 1;
        Cursor { next: self.total }
    }

    /// A subscriber is gone. A count already at zero stays at zero rather
    /// than wrapping; that case is a bug in the caller, not in the hub.
    pub fn unsubscribe(&mut self)
        ensures
            final(self).backlog == old(self).backlog,
            final(self).total == old(self).total,
            final(self).log == old(self).log,
            final(self).subscribers == if old(self).subscribers > 0 {
                (old(self).subscribers - 1) as u64
            } else {
                0u64
            },
            old(self).wf() ==> final(self).wf(),
    {
        if self.subscribers > 0 {
            self.subscribers = self.subscribers - 1;
        }
    }

    /// Publish one message. Never waits for any subscriber: the message is
    /// appended to the shared ring, discarding the oldest retained message
    /// when the backlog is full. Returns how many subscribers there were;
    /// zero subscribers is a successful no-op delivery, and the caller may
    /// tell that case apart from the result.
    pub fn publish(&mut self, message: String) -> (receivers: u64)
        requires
            old(self).wf(),
            old(self).total < u64::MAX,
        ensures
            final(self).wf(),
            final(self).log@ == old(self).log@.push(message@),
            final(self).total == old(self).total + 1,
            final(self).subscribers == old(self).subscribers,
            final(self).backlog@ == ring_push(old(self).backlog@, message@),
            receivers == old(self).subscribers,
            receivers == 0 <==> old(self).subscribers == 0,
    {
        let ghost m = message@;
        self.backlog.append(message);
        self.total = self.total + 1;
        proof {
            self.log@ = self.log@.push(m);
            assert(self.backlog@ =~= self.log@.subrange(self.first_retained(), self.total as int));
        }
        self.subscribers
    }

    /// Advance a subscriber's cursor by one step: the next message if it is
    /// still retained, a lag notice covering every message this cursor lost
    /// if it fell behind the backlog, or nothing if it is caught up.
    pub fn recv(&self, cursor: &mut Cursor) -> (out: RecvOutcome)
        requires
            self.wf(),
            self.valid_cursor(*old(cursor)),
        ensures
            self.valid_cursor(*final(cursor)),
            old(cursor).next <= final(cursor).next,
            cursor_step(self.log@, old(cursor).next as nat, final(cursor).next as nat, out),
            match out {
                RecvOutcome::Message(m) => {
                    &&& old(cursor).next < self.total
                    &&& self.first_retained() <= old(cursor).next
                    &&& m@ == self.log@[old(cursor).next as int]
                    &&& final(cursor).next == old(cursor).next + 1
                },
                RecvOutcome::Lagged(k) => {
                    &&& old(cursor).next < self.first_retained()
                    &&& k == self.first_retained() - old(cursor).next
                    &&& final(cursor).next == self.first_retained()
                },
                RecvOutcome::Empty => {
                    &&& old(cursor).next == self.total
                    &&& final(cursor).next == old(cursor).next
                },
            },
    {
        let retained: usize = self.backlog.len();
        proof {
            assert(retained <= self.total);
        }
        let start: u64 = self.total - (retained as u64);
        if cursor.next == self.total {
            RecvOutcome::Empty
        } else if cursor.next < start {
            let k: u64 = start - cursor.next;
            cursor.next = start;
            RecvOutcome::Lagged(k)
        } else {
            proof {
                assert(cursor.next - start < retained as u64);
            }
            let idx: usize = (cursor.next - start) as usize;
            let message = self.backlog.get(idx).clone();
            proof {
                assert(self.backlog@[idx as int] == self.log@[cursor.next as int]);
            }
            cursor.next = cursor.next + 1;
            RecvOutcome::Message(message)
        }
    }
}

/// One observed step of a cursor against a hub whose full publish record is
/// `log`: from position `before` to position `after` with outcome `out`.
pub open spec fn cursor_step(log: Seq<Seq<char>>, before: nat, after: nat, out: RecvOutcome) -> bool {
    match out {
        RecvOutcome::Message(m) => {
            &&& before < log.len()
            &&& after == before + 1
            &&& m@ == log[before as int]
        },
        RecvOutcome::Lagged(k) => {
            &&& k > 0
            &&& after == before + k
            &&& after <= log.len()
        },
        RecvOutcome::Empty => after == before,
    }
}

/// Whether one step accounts for the message at position `p`: either the step
/// delivered exactly that message, or its lag notice covers it.
pub open spec fn step_covers(log: Seq<Seq<char>>, before: nat, out: RecvOutcome, p: nat) -> bool {
    match out {
        RecvOutcome::Message(m) => p == before && m@ == log[p as int],
        RecvOutcome::Lagged(k) => before <= p < before + k,
        RecvOutcome::Empty => false,
    }
}

/// A cursor only moves forward: across any stretch of a run of receives, the
/// position never decreases.
pub proof fn lemma_positions_monotone(
    log: Seq<Seq<char>>,
    pos: Seq<nat>,
    outs: Seq<RecvOutcome>,
    a: int,
    b: int,
)
    requires
        pos.len() == outs.len() + 1,
        forall|i: int|
            0 <= i < outs.len() ==> #[trigger] cursor_step(log, pos[i], pos[i + 1], outs[i]),
        0 <= a <= b <= outs.len(),
    ensures
        pos[a] <= pos[b],
    decreases b - a,
{
    if a < b {
        let j = b - 1;
        assert(cursor_step(log, pos[j], pos[j + 1], outs[j]));
        lemma_positions_monotone(log, pos, outs, a, j);
    }
}

/// The hub does not reorder for a subscriber: two messages delivered by one
/// cursor come out in publish order — the earlier receive delivered the
/// earlier position of the log.
pub proof fn lemma_delivery_in_publish_order(
    log: Seq<Seq<char>>,
    pos: Seq<nat>,
    outs: Seq<RecvOutcome>,
    a: int,
    b: int,
)
    requires
        pos.len() == outs.len() + 1,
        forall|i: int|
            0 <= i < outs.len() ==> #[trigger] cursor_step(log, pos[i], pos[i + 1], outs[i]),
        0 <= a < b < outs.len(),
        outs[a] matches RecvOutcome::Message(_),
        outs[b] matches RecvOutcome::Message(_),
    ensures
        pos[a] < pos[b],
        (outs[a] matches RecvOutcome::Message(m) ==> m@ == log[pos[a] as int]),
        (outs[b] matches RecvOutcome::Message(m) ==> m@ == log[pos[b] as int]),
{
    assert(cursor_step(log, pos[a], pos[a + 1], outs[a]));
    assert(cursor_step(log, pos[b], pos[b + 1], outs[b]));
    lemma_positions_monotone(log, pos, outs, a + 1, b);
}

/// Over any run of receives, every message position the cursor moved past is
/// accounted for: it was delivered by a `Message` outcome or covered by a
/// `Lagged` notification. No message in the subscribed range is skipped
/// silently.
pub proof fn lemma_every_position_accounted(
    log: Seq<Seq<char>>,
    pos: Seq<nat>,
    outs: Seq<RecvOutcome>,
    p: nat,
)
    requires
        pos.len() == outs.len() + 1,
        forall|i: int|
            0 <= i < outs.len() ==> #[trigger] cursor_step(log, pos[i], pos[i + 1], outs[i]),
        pos[0] <= p < pos[outs.len() as int],
    ensures
        exists|i: int| 0 <= i < outs.len() && #[trigger] step_covers(log, pos[i], outs[i], p),
    decreases outs.len(),
{
    let n = outs.len() as int;
    let j = n - 1;
    assert(cursor_step(log, pos[j], pos[j + 1], outs[j]));
    if p >= pos[n - 1] {
        assert(step_covers(log, pos[j], outs[j], p));
    } else {
        let shorter_pos = pos.take(n);
        let shorter_outs = outs.take(n - 1);
        assert forall|i: int| 0 <= i < shorter_outs.len() implies #[trigger] cursor_step(
            log,
            shorter_pos[i],
            shorter_pos[i + 1],
            shorter_outs[i],
        ) by {
            assert(cursor_step(log, pos[i], pos[i + 1], outs[i]));
        }
        lemma_every_position_accounted(log, shorter_pos, shorter_outs, p);
        let i = choose|i: int|
            0 <= i < shorter_outs.len() && #[trigger] step_covers(
                log,
                shorter_pos[i],
                shorter_outs[i],
                p,
            );
        assert(step_covers(log, pos[i], outs[i], p));
    }
}

} // verus!
