//! Core of a real-time buzzer session server: rooms are reserved under a
//! unique name, claimed by a host, joined by participants, and each room
//! arbitrates who buzzed first in a round.
//!
//! This crate holds the verified logic: name normalization, the error
//! taxonomy, the wire packet shapes, the per-round buzz-order state machine,
//! the room event processing, and the registry of pending and active rooms.
//! The surrounding transport (HTTP routes, live connections, timers) hands
//! plain values in and carries the computed messages out.

pub mod error;
pub mod packet;
pub mod registry;
pub mod room;
pub mod run;
pub mod utils;
