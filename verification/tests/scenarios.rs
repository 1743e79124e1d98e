use meteor::config::MAX_HISTORY_SIZE;
use meteor::hub::RecvOutcome;
use meteor::registry::{AppState, GetOrCreateOutcome};
use meteor::room::{DecrementOutcome, IncrementOutcome, RoomStatus};

#[test]
fn two_client_broadcast() {
    let mut state = AppState::new();
    let name = "r1".to_owned();
    let (idx, outcome) = state.get_or_create_room(&name);
    assert_eq!(outcome, GetOrCreateOutcome::Created);
    let room = &mut state.rooms[idx];
    assert_eq!(room.increment_connection(), IncrementOutcome::Incremented);
    assert_eq!(room.increment_connection(), IncrementOutcome::Incremented);
    let mut cursor_a = room.subscribe();
    let mut cursor_b = room.subscribe();
    // A sends "hi"; both B and A (the sender's own echo) receive it.
    let receivers = room.publish("hi".to_owned());
    assert_eq!(receivers, 2);
    match room.recv(&mut cursor_b) {
        RecvOutcome::Message(m) => assert_eq!(m, "hi"),
        other => panic!("B expected hi, got {:?}", other),
    }
    match room.recv(&mut cursor_a) {
        RecvOutcome::Message(m) => assert_eq!(m, "hi"),
        other => panic!("A expected hi, got {:?}", other),
    }
    let history = state.history_or_empty(&name);
    assert_eq!(history.len(), 1);
    assert_eq!(history[0], "hi");
}

#[test]
fn history_cap_keeps_the_newest_hundred() {
    let mut state = AppState::new();
    let name = "r2".to_owned();
    let (idx, _) = state.get_or_create_room(&name);
    let room = &mut state.rooms[idx];
    assert_eq!(room.increment_connection(), IncrementOutcome::Incremented);
    for i in 1..=(MAX_HISTORY_SIZE + 1) {
        let _ = room.publish(format!("m{}", i));
    }
    let history = state.history_or_empty(&name);
    assert_eq!(history.len(), MAX_HISTORY_SIZE);
    for (offset, message) in history.iter().enumerate() {
        assert_eq!(*message, format!("m{}", offset + 2));
    }
}

#[test]
fn empty_room_is_reaped_after_the_grace_period() {
    let mut state = AppState::new();
    let name = "r3".to_owned();
    let (idx, _) = state.get_or_create_room(&name);
    let timer_id = 1u64;
    {
        let room = &mut state.rooms[idx];
        assert_eq!(room.increment_connection(), IncrementOutcome::Incremented);
        assert_eq!(room.decrement_connection_and_check(timer_id), DecrementOutcome::BecameEmpty);
    }
    // The grace period passes with no new connection: the timer fires and
    // still finds its own handle armed, so the entry goes.
    assert!(state.remove(&name, timer_id));
    assert!(state.history_or_empty(&name).is_empty());
    assert!(state.get_room(&name).is_none());
    assert!(state.get_room_list().iter().all(|info| info.name != name));
}

#[test]
fn reconnect_during_grace_period_cancels_the_eviction() {
    let mut state = AppState::new();
    let name = "r4".to_owned();
    let (idx, _) = state.get_or_create_room(&name);
    let timer_id = 5u64;
    {
        let room = &mut state.rooms[idx];
        assert_eq!(room.increment_connection(), IncrementOutcome::Incremented);
        let _ = room.publish("before".to_owned());
        assert_eq!(room.decrement_connection_and_check(timer_id), DecrementOutcome::BecameEmpty);
    }
    // B connects within the grace period: the same entry is reactivated and
    // the caller is told to cancel exactly the armed timer.
    let (idx_b, outcome) = state.get_or_create_room(&name);
    assert_eq!(idx_b, idx);
    assert_eq!(outcome, GetOrCreateOutcome::Reactivated(timer_id));
    assert_eq!(state.rooms[idx_b].increment_connection(), IncrementOutcome::Incremented);
    assert_eq!(state.rooms[idx_b].status, RoomStatus::Active(1));
    // The timer that lost the race removes nothing.
    assert!(!state.remove(&name, timer_id));
    // History from before the disconnect is preserved: same room.
    let history = state.history_or_empty(&name);
    assert_eq!(history.len(), 1);
    assert_eq!(history[0], "before");
}

#[test]
fn slow_consumer_lags_while_the_room_keeps_serving() {
    let mut state = AppState::new();
    let name = "r5".to_owned();
    let (idx, _) = state.get_or_create_room(&name);
    let room = &mut state.rooms[idx];
    assert_eq!(room.increment_connection(), IncrementOutcome::Incremented);
    assert_eq!(room.increment_connection(), IncrementOutcome::Incremented);
    let mut slow = room.subscribe();
    let mut fast = room.subscribe();
    let extra = 10;
    // The fast client keeps reading; the slow one never does.
    for i in 1..=(MAX_HISTORY_SIZE + extra) {
        let _ = room.publish(format!("m{}", i));
        match room.recv(&mut fast) {
            RecvOutcome::Message(m) => assert_eq!(m, format!("m{}", i)),
            other => panic!("fast client expected m{}, got {:?}", i, other),
        }
    }
    // The slow client observes a lag notice covering exactly what it lost,
    // then resumes from the oldest retained message, in order.
    match room.recv(&mut slow) {
        RecvOutcome::Lagged(k) => assert_eq!(k, extra as u64),
        other => panic!("slow client expected a lag notice, got {:?}", other),
    }
    for i in (extra + 1)..=(MAX_HISTORY_SIZE + extra) {
        match room.recv(&mut slow) {
            RecvOutcome::Message(m) => assert_eq!(m, format!("m{}", i)),
            other => panic!("slow client expected m{}, got {:?}", i, other),
        }
    }
    assert!(matches!(room.recv(&mut slow), RecvOutcome::Empty));
}

#[test]
fn history_of_an_unknown_room_is_empty_and_creates_nothing() {
    let mut state = AppState::new();
    let known = "known".to_owned();
    let (_, _) = state.get_or_create_room(&known);
    let unknown = "nope".to_owned();
    assert!(state.get_room(&unknown).is_none());
    assert!(state.history_or_empty(&unknown).is_empty());
    assert_eq!(state.rooms.len(), 1);
    let list = state.get_room_list();
    assert_eq!(list.len(), 1);
    assert_eq!(list[0].name, known);
}

#[test]
fn get_or_create_twice_returns_the_same_room() {
    let mut state = AppState::new();
    let name = "stable".to_owned();
    let (first, outcome_first) = state.get_or_create_room(&name);
    assert_eq!(outcome_first, GetOrCreateOutcome::Created);
    let (second, outcome_second) = state.get_or_create_room(&name);
    assert_eq!(outcome_second, GetOrCreateOutcome::Existing);
    assert_eq!(first, second);
    assert_eq!(state.rooms.len(), 1);
}

#[test]
fn registry_holds_one_room_per_name() {
    let mut state = AppState::new();
    let a = "alpha".to_owned();
    let b = "beta".to_owned();
    let _ = state.get_or_create_room(&a);
    let _ = state.get_or_create_room(&b);
    let _ = state.get_or_create_room(&a);
    let _ = state.get_or_create_room(&b);
    assert_eq!(state.rooms.len(), 2);
    let list = state.get_room_list();
    assert_eq!(list.len(), 2);
    assert_ne!(list[0].name, list[1].name);
}

#[test]
fn remove_requires_the_matching_timer() {
    let mut state = AppState::new();
    let name = "timed".to_owned();
    let (idx, _) = state.get_or_create_room(&name);
    // Not pending at all: nothing to remove.
    assert!(!state.remove(&name, 7));
    {
        let room = &mut state.rooms[idx];
        assert_eq!(room.increment_connection(), IncrementOutcome::Incremented);
        assert_eq!(room.decrement_connection_and_check(7), DecrementOutcome::BecameEmpty);
    }
    // A stale timer with another identifier removes nothing.
    assert!(!state.remove(&name, 8));
    assert_eq!(state.rooms.len(), 1);
    // The armed timer does.
    assert!(state.remove(&name, 7));
    assert_eq!(state.rooms.len(), 0);
}

#[test]
fn room_list_reports_live_connection_counts() {
    let mut state = AppState::new();
    let one = "one".to_owned();
    let two = "two".to_owned();
    let (i1, _) = state.get_or_create_room(&one);
    assert_eq!(state.rooms[i1].increment_connection(), IncrementOutcome::Incremented);
    let (i2, _) = state.get_or_create_room(&two);
    assert_eq!(state.rooms[i2].increment_connection(), IncrementOutcome::Incremented);
    assert_eq!(state.rooms[i2].increment_connection(), IncrementOutcome::Incremented);
    let list = state.get_room_list();
    assert_eq!(list.len(), 2);
    for info in &list {
        if info.name == one {
            assert_eq!(info.connection, 1);
        } else {
            assert_eq!(info.name, two);
            assert_eq!(info.connection, 2);
        }
    }
}
