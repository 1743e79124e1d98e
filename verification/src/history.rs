use vstd::prelude::*;

use std::collections::VecDeque;

use crate::config::MAX_HISTORY_SIZE;

verus! {

/// The effect of appending one message to a bounded ring that currently holds
/// `s`: the message goes at the tail, and when the ring is already full the
/// oldest entry is discarded first.
pub open spec fn ring_push(s: Seq<Seq<char>>, m: Seq<char>) -> Seq<Seq<char>> {
    if s.len() < MAX_HISTORY_SIZE {
        s.push(m)
    } else {
        s.subrange(1, s.len() as int).push(m)
    }
}

/// The effect of appending each message of `ms`, in order.
pub open spec fn ring_push_all(s: Seq<Seq<char>>, ms: Seq<Seq<char>>) -> Seq<Seq<char>>
    decreases ms.len(),
{
    if ms.len() == 0 {
        s
    } else {
        ring_push_all(ring_push(s, ms[0]), ms.drop_first())
    }
}

/// Bounded FIFO of the most recent messages of one room. Appending beyond the
/// capacity discards the oldest entry; a snapshot is a copy in insertion
/// order, oldest first.
pub struct HistoryRing {
    pub entries: VecDeque<String>,
}

impl View for HistoryRing {
    type V = Seq<Seq<char>>;

    open spec fn view(&self) -> Seq<Seq<char>> {
        self.entries.deep_view()
    }
}

impl HistoryRing {
    /// The history never holds more than `MAX_HISTORY_SIZE` messages.
    pub open spec fn wf(&self) -> bool {
        self@.len() <= MAX_HISTORY_SIZE
    }

    pub fn new() -> (ring: HistoryRing)
        ensures
            ring.wf(),
            ring@.len() == 0,
    {
        let ring = HistoryRing { entries: VecDeque::new() };
        proof {
            assert(ring@.len() == 0);
        }
        ring
    }

    pub fn len(&self) -> (n: usize)
        ensures
            n == self@.len(),
    {
        self.entries.len()
    }

    pub fn get(&self, i: usize) -> (message: &String)
        requires
            i < self@.len(),
        ensures
            message@ == self@[i as int],
    {
        &self.entries[i]
    }

    /// Append at the tail; when the ring is full, the oldest entry leaves
    /// first, so the length never exceeds the capacity.
    pub fn append(&mut self, message: String)
        requires
            old(self).wf(),
        ensures
            final(self).wf(),
            final(self)@ == ring_push(old(self)@, message@),
            final(self)@.len() <= MAX_HISTORY_SIZE,
            final(self)@.len() > 0,
            final(self)@.last() == message@,
    {
        if self.entries.len() == MAX_HISTORY_SIZE {
            let _evicted = self.entries.pop_front();
        }
        self.entries.push_back(message);
        proof {
            assert(self@ =~= ring_push(old(self)@, message@));
        }
    }

    /// A copy of the history in insertion order, oldest first.
    pub fn snapshot(&self) -> (copy: VecDeque<String>)
        ensures
            copy.deep_view() == self@,
    {
        let mut copy: VecDeque<String> = VecDeque::new();
        let mut i: usize = 0;
        while i < self.entries.len()
            invariant
                i <= self.entries@.len(),
                copy@.len() == i,
                forall|j: int| 0 <= j < i ==> copy@[j] == self.entries@[j],
            decreases self.entries@.len() - i,
        {
            copy.push_back(self.entries[i].clone());
            i = i + 1;
        }
        proof {
            assert(copy@ =~= self.entries@);
            assert(copy.deep_view() =~= self@);
        }
        copy
    }
}

/// An entry of the ring survives appends as long as the ring has not yet
/// wrapped past it: the entry at index `i` is still present after up to
/// `MAX_HISTORY_SIZE - s.len() + i` further appends.
pub proof fn lemma_ring_index_survives(s: Seq<Seq<char>>, i: int, ms: Seq<Seq<char>>)
    requires
        s.len() <= MAX_HISTORY_SIZE,
        0 <= i < s.len(),
        ms.len() <= MAX_HISTORY_SIZE - s.len() + i,
    ensures
        ring_push_all(s, ms).contains(s[i]),
    decreases ms.len(),
{
    if ms.len() == 0 {
        assert(s[i] == s[i]);
    } else {
        let s1 = ring_push(s, ms[0]);
        if s.len() < MAX_HISTORY_SIZE {
            assert(s1[i] == s[i]);
            lemma_ring_index_survives(s1, i, ms.drop_first());
        } else {
            assert(s1[i - 1] == s[i]);
            lemma_ring_index_survives(s1, i - 1, ms.drop_first());
        }
    }
}

/// A message that was just appended is still present in the history until at
/// least `MAX_HISTORY_SIZE` later messages have been appended.
pub proof fn lemma_append_retained(s: Seq<Seq<char>>, m: Seq<char>, ms: Seq<Seq<char>>)
    requires
        s.len() <= MAX_HISTORY_SIZE,
        ms.len() < MAX_HISTORY_SIZE,
    ensures
        ring_push_all(ring_push(s, m), ms).contains(m),
{
    let s1 = ring_push(s, m);
    assert(s1[s1.len() - 1] == m);
    lemma_ring_index_survives(s1, s1.len() - 1, ms);
}

} // verus!
