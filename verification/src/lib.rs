//! A multi-room, real-time text broadcast engine.
//!
//! Clients join a named room; every text message a client sends is fanned out
//! to all current subscribers of that room and appended to a bounded per-room
//! history. Rooms are created lazily on first use and reaped after a grace
//! period once they have no connections left.
//!
//! This crate holds the engine itself: the bounded history ring, the
//! drop-oldest broadcast hub, the room lifecycle state machine, the room
//! registry, and the per-session protocol decisions. Every function here is
//! verified against its contract. The surrounding process — sockets, locks,
//! timers, the HTTP router — lives outside this crate and drives the engine
//! through these functions.

pub mod config;
pub mod history;
pub mod hub;
pub mod registry;
pub mod room;
pub mod session;
