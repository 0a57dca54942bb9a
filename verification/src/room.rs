//! One room's event processing. Every event affecting a room — joins,
//! buzzes, host commands, departures — passes through one mailbox and is
//! consumed strictly in arrival order, so the transitions here are totally
//! ordered per room. `handle_event` is that single consumer's step function:
//! it updates the room state and says exactly which messages to send to the
//! host and through the fan-out channel, in order. The surrounding transport
//! owns the mailbox, the connections and the fan-out channel, performs the
//! sends, and tears the room down when the step reports it closed.

use vstd::prelude::*;

use crate::packet::{BroadcastMessage, PacketIn, PacketOut};
use crate::run::{
    buzz_outcome, buzz_step, fresh_run, run_wf, select_next_outcome, select_next_step, BuzzResult,
    Run, RunView,
};

verus! {

/// One event consumed from a room's mailbox.
#[derive(Debug, PartialEq, Eq)]
pub enum RoomEvent {
    ParticipantJoin,
    Buzzed { id: u128, name: String, time: u64 },
    SelectNext,
    Clear,
    ParticipantLeft,
    HostLeft,
}

/// One message a room step asks the transport to send: either to the host
/// connection or onto the fan-out channel.
#[derive(Clone, Debug, PartialEq, Eq)]
pub enum Outbound {
    Host(PacketOut),
    Broadcast(BroadcastMessage),
}

/// The mathematical state of a room: how many participants are joined and
/// the current round's run.
pub ghost struct RoomStateView {
    pub participants: int,
    pub run: RunView,
}

/// The state of a freshly created room: no participants, a fresh round.
pub open spec fn room_init() -> RoomStateView {
    RoomStateView { participants: 0, run: fresh_run() }
}

/// The room state after consuming one event.
pub open spec fn room_step(s: RoomStateView, event: RoomEvent) -> RoomStateView {
    match event {
        RoomEvent::ParticipantJoin => RoomStateView {
            participants: s.participants + 1,
            run: s.run,
        },
        RoomEvent::Buzzed { id, name: _, time } => RoomStateView {
            participants: s.participants,
            run: buzz_step(s.run, id, time),
        },
        RoomEvent::SelectNext => RoomStateView {
            participants: s.participants,
            run: select_next_step(s.run),
        },
        RoomEvent::Clear => RoomStateView { participants: s.participants, run: fresh_run() },
        RoomEvent::ParticipantLeft => RoomStateView {
            participants: s.participants - 1,
            run: s.run,
        },
        RoomEvent::HostLeft => s,
    }
}

/// How many joins a sequence of events holds.
pub open spec fn joins(events: Seq<RoomEvent>) -> int
    decreases events.len(),
{
    if events.len() == 0 {
        0
    } else {
        joins(events.drop_last()) + if events.last() is ParticipantJoin {
            1int
        } else {
            0int
        }
    }
}

/// How many departures a sequence of events holds.
pub open spec fn leaves(events: Seq<RoomEvent>) -> int
    decreases events.len(),
{
    if events.len() == 0 {
        0
    } else {
        leaves(events.drop_last()) + if events.last() is ParticipantLeft {
            1int
        } else {
            0int
        }
    }
}

/// The room state after consuming a whole sequence of events, in order.
pub open spec fn room_fold(s: RoomStateView, events: Seq<RoomEvent>) -> RoomStateView
    decreases events.len(),
{
    if events.len() == 0 {
        s
    } else {
        room_step(room_fold(s, events.drop_last()), events.last())
    }
}

/// Law: over any sequence of events in which no participant leaves before
/// having joined — no prefix holds more departures than joins — the count a
/// fresh room reaches, and so the count its notifications carry, equals net
/// joins minus net leaves, and never goes negative.
pub proof fn lemma_participant_count(events: Seq<RoomEvent>)
    requires
        forall|k: int|
            0 <= k <= events.len() ==> joins(#[trigger] events.subrange(0, k)) >= leaves(
                events.subrange(0, k),
            ),
    ensures
        room_fold(room_init(), events).participants == joins(events) - leaves(events),
        room_fold(room_init(), events).participants >= 0,
    decreases events.len(),
{
    if events.len() > 0 {
        let prefix = events.drop_last();
        assert forall|k: int|
            0 <= k <= prefix.len() implies joins(#[trigger] prefix.subrange(0, k)) >= leaves(
            prefix.subrange(0, k),
        ) by {
            assert(prefix.subrange(0, k) =~= events.subrange(0, k));
        }
        lemma_participant_count(prefix);
        assert(events.subrange(0, events.len() as int) =~= events);
    }
}

pub struct RoomState {
    participants: u64,
    run: Run,
}

impl View for RoomState {
    type V = RoomStateView;

    closed spec fn view(&self) -> RoomStateView {
        RoomStateView { participants: self.participants as int, run: self.run@ }
    }
}

impl RoomState {
    pub open spec fn wf(&self) -> bool {
        run_wf(self@.run)
    }

    pub fn new() -> (r: Self)
        ensures
            r@ == room_init(),
            r.wf(),
    {
        Self { participants: 0, run: Run::new() }
    }

    /// The number of currently joined participants.
    pub fn participants(&self) -> (r: u64)
        ensures
            r == self@.participants,
    {
        self.participants
    }

    /// Consumes one event: updates the room state and returns the messages
    /// to send, in order, together with whether the room is now closed.
    ///
    /// A repeat buzz is a no-op; the first buzz of a round notifies the
    /// host without an offset and sends a targeted select notice to that
    /// participant alone; later buzzes notify the host only, with the
    /// elapsed time since the first. Count updates go to the host and to
    /// everyone. Only the host's departure closes the room, with one
    /// farewell broadcast to everyone still connected.
    pub fn handle_event(&mut self, event: RoomEvent) -> (r: (Vec<Outbound>, bool))
        requires
            old(self).wf(),
            event is ParticipantJoin ==> old(self)@.participants < u64::MAX,
            event is ParticipantLeft ==> old(self)@.participants > 0,
        ensures
            final(self).wf(),
            final(self)@ == room_step(old(self)@, event),
            r.1 == (event is HostLeft),
            match event {
                RoomEvent::ParticipantJoin => r.0@ =~= seq![
                    Outbound::Host(
                        (PacketOut::ParticipantCount { count: (old(self)@.participants + 1) as u64 }),
                    ),
                    Outbound::Broadcast(
                        BroadcastMessage::All(
                            (PacketOut::ParticipantCount { count: (old(self)@.participants + 1) as u64 }),
                        ),
                    ),
                ],
                RoomEvent::Buzzed { id, name, time } => match buzz_outcome(
                    old(self)@.run,
                    id,
                    time,
                ) {
                    BuzzResult::Already => r.0@ =~= Seq::<Outbound>::empty(),
                    BuzzResult::First => r.0@ =~= seq![
                        Outbound::Host(
                            (PacketOut::Buzzed { id, name, timestamp_diff: None }),
                        ),
                        Outbound::Broadcast(
                            BroadcastMessage::Single(id, (PacketOut::Select { id: None })),
                        ),
                    ],
                    BuzzResult::TimeDifference(diff) => r.0@ =~= seq![
                        Outbound::Host(
                            (PacketOut::Buzzed { id, name, timestamp_diff: Some(diff) }),
                        ),
                    ],
                },
                RoomEvent::SelectNext => match select_next_outcome(old(self)@.run) {
                    None => r.0@ =~= Seq::<Outbound>::empty(),
                    Some(pair) => r.0@ =~= seq![
                        Outbound::Broadcast(
                            BroadcastMessage::Single(pair.0, PacketOut::Deselect),
                        ),
                        Outbound::Broadcast(
                            BroadcastMessage::Single(pair.1, (PacketOut::Select { id: None })),
                        ),
                        Outbound::Host((PacketOut::Select { id: Some(pair.1) })),
                    ],
                },
                RoomEvent::Clear => r.0@ =~= seq![
                    Outbound::Broadcast(BroadcastMessage::All(PacketOut::Clear)),
                ],
                RoomEvent::ParticipantLeft => r.0@ =~= seq![
                    Outbound::Host(
                        (PacketOut::ParticipantCount { count: (old(self)@.participants - 1) as u64 }),
                    ),
                    Outbound::Broadcast(
                        BroadcastMessage::All(
                            (PacketOut::ParticipantCount {
                                count: (old(self)@.participants - 1) as u64,
                            }),
                        ),
                    ),
                ],
                RoomEvent::HostLeft => r.0@ =~= seq![
                    Outbound::Broadcast(BroadcastMessage::All(PacketOut::HostLeft)),
                ],
            },
    {
        match event {
            RoomEvent::ParticipantJoin => {
                self.participants = self.participants + 1;
                let mut out: Vec<Outbound> = Vec::new();
                out.push(Outbound::Host(PacketOut::ParticipantCount { count: self.participants }));
                out.push(
                    Outbound::Broadcast(
                        BroadcastMessage::All(
                            PacketOut::ParticipantCount { count: self.participants },
                        ),
                    ),
                );
                (out, false)
            }
            RoomEvent::Buzzed { id, name, time } => {
                let result = self.run.buzz(id, time);
                let mut out: Vec<Outbound> = Vec::new();
                match result {
                    BuzzResult::Already => {}
                    BuzzResult::First => {
                        out.push(
                            Outbound::Host(PacketOut::Buzzed { id, name, timestamp_diff: None }),
                        );
                        let winner = self.run.first_unchecked();
                        out.push(
                            Outbound::Broadcast(
                                BroadcastMessage::Single(winner, PacketOut::Select { id: None }),
                            ),
                        );
                    }
                    BuzzResult::TimeDifference(diff) => {
                        out.push(
                            Outbound::Host(
                                PacketOut::Buzzed { id, name, timestamp_diff: Some(diff) },
                            ),
                        );
                    }
                }
                (out, false)
            }
            RoomEvent::SelectNext => {
                let mut out: Vec<Outbound> = Vec::new();
                match self.run.select_next() {
                    None => {}
                    Some((to_clear, to_notify)) => {
                        out.push(
                            Outbound::Broadcast(
                                BroadcastMessage::Single(to_clear, PacketOut::Deselect),
                            ),
                        );
                        out.push(
                            Outbound::Broadcast(
                                BroadcastMessage::Single(to_notify, PacketOut::Select { id: None }),
                            ),
                        );
                        out.push(Outbound::Host(PacketOut::Select { id: Some(to_notify) }));
                    }
                }
                (out, false)
            }
            RoomEvent::Clear => {
                self.run = Run::new();
                let mut out: Vec<Outbound> = Vec::new();
                out.push(Outbound::Broadcast(BroadcastMessage::All(PacketOut::Clear)));
                (out, false)
            }
            RoomEvent::ParticipantLeft => {
                self.participants = self.participants - 1;
                let mut out: Vec<Outbound> = Vec::new();
                out.push(Outbound::Host(PacketOut::ParticipantCount { count: self.participants }));
                out.push(
                    Outbound::Broadcast(
                        BroadcastMessage::All(
                            PacketOut::ParticipantCount { count: self.participants },
                        ),
                    ),
                );
                (out, false)
            }
            RoomEvent::HostLeft => {
                let mut out: Vec<Outbound> = Vec::new();
                out.push(Outbound::Broadcast(BroadcastMessage::All(PacketOut::HostLeft)));
                (out, true)
            }
        }
    }
}

/// Translates one inbound host frame into the event it stands for: the two
/// host commands pass through, and anything else — an unexpected frame, a
/// malformed payload, or a closed connection — normalizes to the host's
/// departure, guaranteeing room teardown whatever the failure cause.
pub fn host_event(frame: Option<PacketIn>) -> (r: RoomEvent)
    ensures
        r == match frame {
            Some(PacketIn::Clear) => RoomEvent::Clear,
            Some(PacketIn::SelectNext) => RoomEvent::SelectNext,
            _ => RoomEvent::HostLeft,
        },
{
    match frame {
        Some(PacketIn::Clear) => RoomEvent::Clear,
        Some(PacketIn::SelectNext) => RoomEvent::SelectNext,
        _ => RoomEvent::HostLeft,
    }
}

/// Translates one inbound participant frame into the event it stands for: a
/// buzz passes through with the participant's identity and arrival time,
/// and anything else normalizes to that participant's departure, so the
/// room's count stays accurate even with a misbehaving client.
pub fn participant_event(frame: Option<PacketIn>, id: u128, name: String, time: u64) -> (r:
    RoomEvent)
    ensures
        r == match frame {
            Some(PacketIn::Buzz) => (RoomEvent::Buzzed { id, name, time }),
            _ => RoomEvent::ParticipantLeft,
        },
{
    match frame {
        Some(PacketIn::Buzz) => RoomEvent::Buzzed { id, name, time },
        _ => RoomEvent::ParticipantLeft,
    }
}

} // verus!
