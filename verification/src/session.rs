use vstd::prelude::*;

use crate::hub::RecvOutcome;

verus! {

/// Lifecycle of one connected client: opened but not yet running, running,
/// draining after either loop decided to stop, closed once both loops have
/// acknowledged.
#[derive(Debug, PartialEq, Eq, Structural)]
pub enum SessionState {
    Connecting,
    Running,
    Draining,
    Closed,
}

/// What the socket's receive half handed the session: a text payload, a
/// non-text data frame, the peer's close, or an I/O failure. Ping and pong
/// are answered at the socket layer and never reach the session.
#[derive(Debug)]
pub enum IncomingFrame {
    Text(String),
    Binary,
    Close,
    IoError,
}

/// What the receive loop must do with one incoming frame.
#[derive(Debug)]
pub enum RecvStep {
    /// Publish this payload to the room.
    Publish(String),
    /// Drop the frame silently and keep reading.
    Discard,
    /// Stop reading and begin draining.
    Stop,
}

/// What the send loop must do with one outcome of the hub cursor.
#[derive(Debug)]
pub enum SendStep {
    /// Write this message to the socket, under the per-frame deadline.
    Forward(String),
    /// A lag notice: nothing to write; keep draining the cursor.
    Skip,
    /// Caught up: wait until the hub has more.
    Wait,
}

/// The receive loop's decision for one frame. Publishing happens only while
/// the session is running and only for text payloads; a close or an I/O
/// error moves the session to draining; anything else is discarded; a
/// session that is not running publishes nothing and stops.
pub fn recv_transition(state: SessionState, frame: IncomingFrame) -> (result: (
    SessionState,
    RecvStep,
))
    ensures
        result.1 matches RecvStep::Publish(m) ==> state == SessionState::Running && (frame matches
            IncomingFrame::Text(t) && m == t),
        match state {
            SessionState::Running => match frame {
                IncomingFrame::Text(t) => result.0 == SessionState::Running && (result.1 matches
                    RecvStep::Publish(m) && m == t),
                IncomingFrame::Binary => result == (SessionState::Running, RecvStep::Discard),
                IncomingFrame::Close => result == (SessionState::Draining, RecvStep::Stop),
                IncomingFrame::IoError => result == (SessionState::Draining, RecvStep::Stop),
            },
            _ => result == (state, RecvStep::Stop),
        },
{
    match state {
        SessionState::Running => match frame {
            IncomingFrame::Text(text) => (SessionState::Running, RecvStep::Publish(text)),
            IncomingFrame::Binary => (SessionState::Running, RecvStep::Discard),
            IncomingFrame::Close => (SessionState::Draining, RecvStep::Stop),
            IncomingFrame::IoError => (SessionState::Draining, RecvStep::Stop),
        },
        _ => (state, RecvStep::Stop),
    }
}

/// The send loop's decision for one cursor outcome: deliver messages in
/// order, skip over lag notices (the subscriber resumes from the hub's
/// retained tail), and wait when caught up.
pub fn send_transition(outcome: RecvOutcome) -> (step: SendStep)
    ensures
        match outcome {
            RecvOutcome::Message(m) => step matches SendStep::Forward(f) && f == m,
            RecvOutcome::Lagged(_) => step matches SendStep::Skip,
            RecvOutcome::Empty => step matches SendStep::Wait,
        },
{
    match outcome {
        RecvOutcome::Message(message) => SendStep::Forward(message),
        RecvOutcome::Lagged(_) => SendStep::Skip,
        RecvOutcome::Empty => SendStep::Wait,
    }
}

/// The session is upgraded and both loops may start.
pub fn session_opened(state: SessionState) -> (next: SessionState)
    requires
        state == SessionState::Connecting,
    ensures
        next == SessionState::Running,
{
    SessionState::Running
}

/// One of the two loops decided to stop: the session drains; publishing is
/// over from here on.
pub fn session_draining(state: SessionState) -> (next: SessionState)
    ensures
        next == SessionState::Draining,
{
    match state {
        _ => SessionState::Draining,
    }
}

/// Both loops have released the socket halves: only now may the caller
/// decrement the room's connection count.
pub fn session_closed(state: SessionState) -> (next: SessionState)
    requires
        state == SessionState::Draining,
    ensures
        next == SessionState::Closed,
{
    SessionState::Closed
}

} // verus!
