use vstd::prelude::*;

use std::collections::VecDeque;

use crate::room::{connection_count_of, Room, RoomStatus};

verus! {

/// One row of the operator room listing: a room's name and its live-session
/// count.
pub struct RoomInfo {
    pub name: String,
    pub connection: u64,
}

/// What the caller must do after `get_or_create_room`.
#[derive(Debug, PartialEq, Eq, Structural)]
pub enum GetOrCreateOutcome {
    /// No room of that name existed; a fresh one was inserted.
    Created,
    /// The room existed and was active; nothing changed.
    Existing,
    /// The room existed but was pending removal: it was reset to idle and
    /// active, and the eviction timer with this identifier must be
    /// cancelled.
    Reactivated(u64),
}

/// A room that has just been made for `name`: idle, nothing published,
/// nothing in the history, no subscribers.
pub open spec fn fresh_room(room: Room, name: Seq<char>) -> bool {
    &&& room.wf()
    &&& room.name@ == name
    &&& room.status == RoomStatus::Active(0)
    &&& room.history@.len() == 0
    &&& room.hub.log@.len() == 0
    &&& room.hub.total == 0
    &&& room.hub.subscribers == 0
}

/// The process-wide registry: the mapping from room name to room. Names are
/// unique; rooms are created lazily by `get_or_create_room` and removed only
/// by an eviction timer whose identifier still matches.
pub struct AppState {
    pub rooms: Vec<Room>,
}

impl AppState {
    /// At most one room per name.
    pub open spec fn names_unique(&self) -> bool {
        forall|i: int, j: int|
            0 <= i < j < self.rooms@.len() ==> #[trigger] self.rooms@[i].name@
                != #[trigger] self.rooms@[j].name@
    }

    pub open spec fn wf(&self) -> bool {
        &&& self.names_unique()
        &&& forall|i: int| 0 <= i < self.rooms@.len() ==> (#[trigger] self.rooms@[i]).wf()
    }

    pub open spec fn contains_room(&self, name: Seq<char>) -> bool {
        exists|i: int| 0 <= i < self.rooms@.len() && (#[trigger] self.rooms@[i]).name@ == name
    }

    /// The index of the room of that name (meaningful only when
    /// `contains_room` holds; unique by `names_unique`).
    pub open spec fn index_of(&self, name: Seq<char>) -> int {
        choose|i: int| 0 <= i < self.rooms@.len() && (#[trigger] self.rooms@[i]).name@ == name
    }

    /// The history of the room of that name, as specifications see it.
    pub open spec fn history_of(&self, name: Seq<char>) -> Seq<Seq<char>> {
        self.rooms@[self.index_of(name)].history@
    }

    /// An empty registry.
    pub fn new() -> (state: AppState)
        ensures
            state.wf(),
            state.rooms@.len() == 0,
    {
        AppState { rooms: Vec::new() }
    }

    /// A fresh idle room for `name`, not yet inserted anywhere.
    pub fn new_room(&self, name: &String) -> (room: Room)
        requires
            name@.len() > 0,
        ensures
            fresh_room(room, name@),
    {
        Room::new(name.clone())
    }

    /// Linear scan for the room of that name.
    pub fn find_room(&self, name: &String) -> (found: Option<usize>)
        ensures
            match found {
                Some(i) => i < self.rooms@.len() && self.rooms@[i as int].name@ == name@,
                None => !self.contains_room(name@),
            },
    {
        let mut i: usize = 0;
        while i < self.rooms.len()
            invariant
                i <= self.rooms@.len(),
                forall|j: int| 0 <= j < i ==> (#[trigger] self.rooms@[j]).name@ != name@,
            decreases self.rooms@.len() - i,
        {
            if self.rooms[i].name == *name {
                return Some(i);
            }
            i = i + 1;
        }
        None
    }

    /// Look the room up, inserting a fresh idle one if the name is new, and
    /// reactivating it in the same step if it was pending removal — the
    /// caller is then told which eviction timer to cancel. Returns the index
    /// of the room, which the caller is expected to follow with an
    /// increment of its connection count.
    pub fn get_or_create_room(&mut self, name: &String) -> (result: (usize, GetOrCreateOutcome))
        requires
            old(self).wf(),
            name@.len() > 0,
        ensures
            final(self).wf(),
            get_or_create_post(*old(self), *final(self), name@, result.0 as int, result.1),
    {
        match self.find_room(name) {
            Some(i) => {
                proof {
                    lemma_unique_index(*self, i as int, name@);
                }
                let pending_timer: Option<u64> = match &self.rooms[i].status {
                    RoomStatus::PendingRemoval(timer) => Some(*timer),
                    RoomStatus::Active(_) => None,
                };
                match pending_timer {
                    Some(timer) => {
                        let room = &mut self.rooms[i];
                        room.status = RoomStatus::Active(0);
                        proof {
                            assert forall|j: int|
                                0 <= j < self.rooms@.len() implies (#[trigger] self.rooms@[j]).name@
                                == old(self).rooms@[j].name@ by {}
                        }
                        (i, GetOrCreateOutcome::Reactivated(timer))
                    },
                    None => (i, GetOrCreateOutcome::Existing),
                }
            },
            None => {
                let room = self.new_room(name);
                let idx: usize = self.rooms.len();
                self.rooms.push(room);
                proof {
                    assert(self.rooms@[idx as int].name@ == name@);
                    assert forall|j: int| 0 <= j < idx implies (#[trigger] self.rooms@[j]).name@
                        != name@ by {}
                }
                (idx, GetOrCreateOutcome::Created)
            },
        }
    }

    /// Read-only lookup: a copy of the room's history if the room exists.
    /// Never creates a room.
    pub fn get_room(&self, name: &String) -> (history: Option<VecDeque<String>>)
        requires
            self.wf(),
        ensures
            match history {
                Some(h) => self.contains_room(name@) && h.deep_view() == self.history_of(name@),
                None => !self.contains_room(name@),
            },
    {
        match self.find_room(name) {
            Some(i) => {
                proof {
                    lemma_unique_index(*self, i as int, name@);
                }
                Some(self.rooms[i].get_history())
            },
            None => None,
        }
    }

    /// The history endpoint's core: the room's history if it exists, else an
    /// empty sequence, with success either way. Never creates a room.
    pub fn history_or_empty(&self, name: &String) -> (history: VecDeque<String>)
        requires
            self.wf(),
        ensures
            self.contains_room(name@) ==> history.deep_view() == self.history_of(name@),
            !self.contains_room(name@) ==> history@.len() == 0,
    {
        match self.get_room(name) {
            Some(history) => history,
            None => VecDeque::new(),
        }
    }

    /// Name and live-session count of every room, for operator inspection.
    pub fn get_room_list(&self) -> (list: Vec<RoomInfo>)
        ensures
            list@.len() == self.rooms@.len(),
            forall|i: int|
                0 <= i < list@.len() ==> (#[trigger] list@[i]).name@ == self.rooms@[i].name@
                    && list@[i].connection == connection_count_of(self.rooms@[i].status),
    {
        let mut list: Vec<RoomInfo> = Vec::new();
        let mut i: usize = 0;
        while i < self.rooms.len()
            invariant
                i <= self.rooms@.len(),
                list@.len() == i,
                forall|j: int|
                    0 <= j < i ==> (#[trigger] list@[j]).name@ == self.rooms@[j].name@
                        && list@[j].connection == connection_count_of(self.rooms@[j].status),
            decreases self.rooms@.len() - i,
        {
            let room = &self.rooms[i];
            list.push(RoomInfo { name: room.name.clone(), connection: room.connection_count() });
            i = i + 1;
        }
        list
    }

    /// Remove the entry for `name`, but only if it still exists and is still
    /// pending removal under the matching timer identifier. Called on behalf
    /// of an eviction timer; a timer that lost the race to a reconnecting
    /// client finds another status or another identifier and removes
    /// nothing.
    pub fn remove(&mut self, name: &String, timer_id: u64) -> (removed: bool)
        requires
            old(self).wf(),
        ensures
            final(self).wf(),
            removed <==> old(self).contains_room(name@) && old(self).rooms@[old(self).index_of(
                name@,
            )].status == RoomStatus::PendingRemoval(timer_id),
            removed ==> final(self).rooms@ == old(self).rooms@.remove(old(self).index_of(name@)),
            removed ==> !final(self).contains_room(name@),
            !removed ==> final(self).rooms@ == old(self).rooms@,
    {
        match self.find_room(name) {
            Some(i) => {
                proof {
                    lemma_unique_index(*self, i as int, name@);
                }
                let timer_matches: bool = match &self.rooms[i].status {
                    RoomStatus::PendingRemoval(timer) => *timer == timer_id,
                    RoomStatus::Active(_) => false,
                };
                if timer_matches {
                    let _evicted = self.rooms.remove(i);
                    proof {
                        assert forall|j: int|
                            0 <= j < self.rooms@.len() implies (#[trigger] self.rooms@[j]).name@
                            != name@ by {
                            if j < i {
                                assert(self.rooms@[j] == old(self).rooms@[j]);
                            } else {
                                assert(self.rooms@[j] == old(self).rooms@[j + 1]);
                            }
                        }
                        assert forall|a: int, b: int|
                            0 <= a < b < self.rooms@.len() implies (#[trigger] self.rooms@[a]).name@
                            != (#[trigger] self.rooms@[b]).name@ by {
                            let a0: int = if a < i { a } else { a + 1 };
                            let b0: int = if b < i { b } else { b + 1 };
                            assert(self.rooms@[a] == old(self).rooms@[a0]);
                            assert(self.rooms@[b] == old(self).rooms@[b0]);
                        }
                        assert forall|j: int|
                            0 <= j < self.rooms@.len() implies (#[trigger] self.rooms@[j]).wf() by {
                            if j < i {
                                assert(self.rooms@[j] == old(self).rooms@[j]);
                            } else {
                                assert(self.rooms@[j] == old(self).rooms@[j + 1]);
                            }
                        }
                    }
                    true
                } else {
                    false
                }
            },
            None => false,
        }
    }
}

/// The whole effect of `get_or_create_room`: how `post` relates to `pre` for
/// each outcome, and which index was returned.
pub open spec fn get_or_create_post(
    pre: AppState,
    post: AppState,
    name: Seq<char>,
    idx: int,
    outcome: GetOrCreateOutcome,
) -> bool {
    &&& 0 <= idx < post.rooms@.len()
    &&& post.rooms@[idx].name@ == name
    &&& post.rooms@[idx].status matches RoomStatus::Active(_)
    &&& match outcome {
        GetOrCreateOutcome::Created => {
            &&& !pre.contains_room(name)
            &&& idx == pre.rooms@.len()
            &&& post.rooms@.len() == pre.rooms@.len() + 1
            &&& forall|j: int| 0 <= j < pre.rooms@.len() ==> post.rooms@[j] == pre.rooms@[j]
            &&& fresh_room(post.rooms@[idx], name)
        },
        GetOrCreateOutcome::Existing => {
            &&& pre.contains_room(name)
            &&& idx == pre.index_of(name)
            &&& pre.rooms@[idx].status matches RoomStatus::Active(_)
            &&& post.rooms@ == pre.rooms@
        },
        GetOrCreateOutcome::Reactivated(timer) => {
            &&& pre.contains_room(name)
            &&& idx == pre.index_of(name)
            &&& pre.rooms@[idx].status == RoomStatus::PendingRemoval(timer)
            &&& post.rooms@.len() == pre.rooms@.len()
            &&& forall|j: int|
                0 <= j < pre.rooms@.len() && j != idx ==> post.rooms@[j] == pre.rooms@[j]
            &&& post.rooms@[idx].status == RoomStatus::Active(0)
            &&& post.rooms@[idx].name == pre.rooms@[idx].name
            &&& post.rooms@[idx].history == pre.rooms@[idx].history
            &&& post.rooms@[idx].hub == pre.rooms@[idx].hub
        },
    }
}

/// A name that occurs at some index occurs only there: `index_of` agrees
/// with any index whose room carries the name. At most one room exists per
/// name.
pub proof fn lemma_unique_index(state: AppState, i: int, name: Seq<char>)
    requires
        state.wf(),
        0 <= i < state.rooms@.len(),
        state.rooms@[i].name@ == name,
    ensures
        state.contains_room(name),
        state.index_of(name) == i,
{
    assert(state.contains_room(name));
    let j = state.index_of(name);
    if j < i {
        assert(state.rooms@[j].name@ != state.rooms@[i].name@);
    } else if i < j {
        assert(state.rooms@[i].name@ != state.rooms@[j].name@);
    }
}

/// Two rooms with the same name are the same room.
pub proof fn lemma_registry_unique(state: AppState, i: int, j: int)
    requires
        state.wf(),
        0 <= i < state.rooms@.len(),
        0 <= j < state.rooms@.len(),
        state.rooms@[i].name@ == state.rooms@[j].name@,
    ensures
        i == j,
{
    if i < j {
        assert(state.rooms@[i].name@ != state.rooms@[j].name@);
    } else if j < i {
        assert(state.rooms@[j].name@ != state.rooms@[i].name@);
    }
}

/// `get_or_create_room` preserves well-formedness of the registry.
pub proof fn lemma_get_or_create_preserves_wf(
    pre: AppState,
    post: AppState,
    name: Seq<char>,
    idx: int,
    outcome: GetOrCreateOutcome,
)
    requires
        pre.wf(),
        get_or_create_post(pre, post, name, idx, outcome),
    ensures
        post.wf(),
{
    match outcome {
        GetOrCreateOutcome::Created => {
            assert forall|a: int, b: int|
                0 <= a < b < post.rooms@.len() implies (#[trigger] post.rooms@[a]).name@
                != (#[trigger] post.rooms@[b]).name@ by {
                if b < idx {
                    assert(post.rooms@[a] == pre.rooms@[a]);
                    assert(post.rooms@[b] == pre.rooms@[b]);
                } else {
                    assert(post.rooms@[a] == pre.rooms@[a]);
                    assert(pre.rooms@[a].name@ != name) by {
                        if pre.rooms@[a].name@ == name {
                            assert(pre.contains_room(name));
                        }
                    }
                }
            }
            assert forall|j: int| 0 <= j < post.rooms@.len() implies (
            #[trigger] post.rooms@[j]).wf() by {
                if j < idx {
                    assert(post.rooms@[j] == pre.rooms@[j]);
                }
            }
        },
        GetOrCreateOutcome::Existing => {
            assert(post.rooms@ == pre.rooms@);
        },
        GetOrCreateOutcome::Reactivated(_) => {
            assert forall|a: int, b: int|
                0 <= a < b < post.rooms@.len() implies (#[trigger] post.rooms@[a]).name@
                != (#[trigger] post.rooms@[b]).name@ by {
                assert(post.rooms@[a].name@ == pre.rooms@[a].name@);
                assert(post.rooms@[b].name@ == pre.rooms@[b].name@);
            }
            assert forall|j: int| 0 <= j < post.rooms@.len() implies (
            #[trigger] post.rooms@[j]).wf() by {
                if j != idx {
                    assert(post.rooms@[j] == pre.rooms@[j]);
                } else {
                    assert(pre.rooms@[idx].wf());
                }
            }
        },
    }
}

/// Getting or creating the same name twice, with no removal in between,
/// returns the same index — a handle to the very same room — and the second
/// call leaves the registry untouched.
pub proof fn lemma_get_or_create_idempotent(
    s0: AppState,
    s1: AppState,
    s2: AppState,
    name: Seq<char>,
    i1: int,
    o1: GetOrCreateOutcome,
    i2: int,
    o2: GetOrCreateOutcome,
)
    requires
        s0.wf(),
        get_or_create_post(s0, s1, name, i1, o1),
        get_or_create_post(s1, s2, name, i2, o2),
    ensures
        i2 == i1,
        o2 == GetOrCreateOutcome::Existing,
        s2.rooms@ == s1.rooms@,
{
    lemma_get_or_create_preserves_wf(s0, s1, name, i1, o1);
    lemma_unique_index(s1, i1, name);
    match o2 {
        GetOrCreateOutcome::Created => {
            assert(s1.contains_room(name));
        },
        GetOrCreateOutcome::Existing => {},
        GetOrCreateOutcome::Reactivated(_) => {
            assert(s1.rooms@[s1.index_of(name)].status matches RoomStatus::Active(_));
        },
    }
}

} // verus!
