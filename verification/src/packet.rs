//! The wire protocol: a closed set of tagged message shapes. Outbound
//! packets go to the host or through the room's fan-out channel; inbound
//! packets are the few commands a host or participant may send.

use vstd::prelude::*;

verus! {

/// A message sent from a room to its host or participants.
#[derive(Clone, Debug, PartialEq, Eq)]
pub enum PacketOut {
    ParticipantCount { count: u64 },
    Buzzed { id: u128, name: String, timestamp_diff: Option<u64> },
    Select { id: Option<u128> },
    Deselect,
    Clear,
    HostLeft,
}

/// A message received from a host (`SelectNext`, `Clear`) or a participant
/// (`Buzz`). Anything else on the wire is a protocol error and normalizes
/// to departure.
#[derive(Copy, Clone, Debug, PartialEq, Eq, Structural)]
pub enum PacketIn {
    Buzz,
    SelectNext,
    Clear,
}

/// One message on a room's fan-out channel: addressed either to every
/// current subscriber or to exactly one participant.
#[derive(Clone, Debug, PartialEq, Eq)]
pub enum BroadcastMessage {
    All(PacketOut),
    Single(u128, PacketOut),
}

impl BroadcastMessage {
    /// Whether the participant with the given id should relay this message.
    pub fn is_target(&self, id: u128) -> (r: bool)
        ensures
            r == match self {
                BroadcastMessage::All(_) => true,
                BroadcastMessage::Single(target_id, _) => *target_id == id,
            },
    {
        match self {
            BroadcastMessage::All(_) => true,
            BroadcastMessage::Single(target_id, _) => *target_id == id,
        }
    }

    /// The packet carried by this message, whatever its addressing.
    pub fn inner(self) -> (r: PacketOut)
        ensures
            r == match self {
                BroadcastMessage::All(msg) => msg,
                BroadcastMessage::Single(_, msg) => msg,
            },
    {
        match self {
            BroadcastMessage::All(msg) => msg,
            BroadcastMessage::Single(_, msg) => msg,
        }
    }
}

} // verus!
