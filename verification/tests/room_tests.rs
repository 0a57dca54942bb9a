use buzzer::packet::{BroadcastMessage, PacketIn, PacketOut};
use buzzer::room::{host_event, participant_event, Outbound, RoomEvent, RoomState};

fn host(p: PacketOut) -> Outbound {
    Outbound::Host(p)
}

fn all(p: PacketOut) -> Outbound {
    Outbound::Broadcast(BroadcastMessage::All(p))
}

fn single(id: u128, p: PacketOut) -> Outbound {
    Outbound::Broadcast(BroadcastMessage::Single(id, p))
}

fn buzzed(id: u128, name: &str, time: u64) -> RoomEvent {
    RoomEvent::Buzzed { id, name: name.to_string(), time }
}

#[test]
fn join_notifies_host_and_everyone() {
    let mut room = RoomState::new();
    let (out, closed) = room.handle_event(RoomEvent::ParticipantJoin);
    assert!(!closed);
    assert_eq!(
        out,
        vec![
            host(PacketOut::ParticipantCount { count: 1 }),
            all(PacketOut::ParticipantCount { count: 1 }),
        ]
    );
}

#[test]
fn count_tracks_net_joins_minus_leaves() {
    let mut room = RoomState::new();
    room.handle_event(RoomEvent::ParticipantJoin);
    room.handle_event(RoomEvent::ParticipantJoin);
    room.handle_event(RoomEvent::ParticipantJoin);
    assert_eq!(room.participants(), 3);
    let (out, _) = room.handle_event(RoomEvent::ParticipantLeft);
    assert_eq!(room.participants(), 2);
    assert_eq!(
        out,
        vec![
            host(PacketOut::ParticipantCount { count: 2 }),
            all(PacketOut::ParticipantCount { count: 2 }),
        ]
    );
    room.handle_event(RoomEvent::ParticipantLeft);
    room.handle_event(RoomEvent::ParticipantLeft);
    assert_eq!(room.participants(), 0);
}

#[test]
fn first_buzz_notifies_host_and_selects_buzzer() {
    let mut room = RoomState::new();
    let (out, closed) = room.handle_event(buzzed(7, "ada", 100));
    assert!(!closed);
    assert_eq!(
        out,
        vec![
            host(PacketOut::Buzzed { id: 7, name: "ada".to_string(), timestamp_diff: None }),
            single(7, PacketOut::Select { id: None }),
        ]
    );
}

#[test]
fn later_buzz_notifies_host_only_with_offset() {
    let mut room = RoomState::new();
    room.handle_event(buzzed(7, "ada", 100));
    let (out, _) = room.handle_event(buzzed(8, "bob", 175));
    assert_eq!(
        out,
        vec![host(PacketOut::Buzzed { id: 8, name: "bob".to_string(), timestamp_diff: Some(75) })]
    );
}

#[test]
fn repeat_buzz_sends_nothing() {
    let mut room = RoomState::new();
    room.handle_event(buzzed(7, "ada", 100));
    let (out, closed) = room.handle_event(buzzed(7, "ada", 160));
    assert!(!closed);
    assert!(out.is_empty());
}

#[test]
fn select_next_moves_the_selection_notice() {
    let mut room = RoomState::new();
    room.handle_event(buzzed(1, "ada", 100));
    room.handle_event(buzzed(2, "bob", 150));
    room.handle_event(buzzed(3, "eve", 200));
    let (out, _) = room.handle_event(RoomEvent::SelectNext);
    assert_eq!(
        out,
        vec![
            single(1, PacketOut::Deselect),
            single(2, PacketOut::Select { id: None }),
            host(PacketOut::Select { id: Some(2) }),
        ]
    );
    let (out, _) = room.handle_event(RoomEvent::SelectNext);
    assert_eq!(
        out,
        vec![
            single(2, PacketOut::Deselect),
            single(3, PacketOut::Select { id: None }),
            host(PacketOut::Select { id: Some(3) }),
        ]
    );
    let (out, _) = room.handle_event(RoomEvent::SelectNext);
    assert!(out.is_empty());
}

#[test]
fn select_next_with_one_buzzer_is_a_no_op() {
    let mut room = RoomState::new();
    room.handle_event(buzzed(1, "ada", 100));
    let (out, _) = room.handle_event(RoomEvent::SelectNext);
    assert!(out.is_empty());
}

#[test]
fn clear_broadcasts_and_resets_the_round() {
    let mut room = RoomState::new();
    room.handle_event(buzzed(1, "ada", 100));
    room.handle_event(buzzed(2, "bob", 150));
    let (out, closed) = room.handle_event(RoomEvent::Clear);
    assert!(!closed);
    assert_eq!(out, vec![all(PacketOut::Clear)]);
    let (out, _) = room.handle_event(buzzed(1, "ada", 300));
    assert_eq!(
        out,
        vec![
            host(PacketOut::Buzzed { id: 1, name: "ada".to_string(), timestamp_diff: None }),
            single(1, PacketOut::Select { id: None }),
        ]
    );
}

#[test]
fn host_departure_closes_with_one_farewell_broadcast() {
    let mut room = RoomState::new();
    room.handle_event(RoomEvent::ParticipantJoin);
    let (out, closed) = room.handle_event(RoomEvent::HostLeft);
    assert!(closed);
    assert_eq!(out, vec![all(PacketOut::HostLeft)]);
}

#[test]
fn host_frames_map_to_commands_or_departure() {
    assert_eq!(host_event(Some(PacketIn::Clear)), RoomEvent::Clear);
    assert_eq!(host_event(Some(PacketIn::SelectNext)), RoomEvent::SelectNext);
    assert_eq!(host_event(Some(PacketIn::Buzz)), RoomEvent::HostLeft);
    assert_eq!(host_event(None), RoomEvent::HostLeft);
}

#[test]
fn participant_frames_map_to_buzz_or_departure() {
    assert_eq!(
        participant_event(Some(PacketIn::Buzz), 5, "ada".to_string(), 90),
        RoomEvent::Buzzed { id: 5, name: "ada".to_string(), time: 90 }
    );
    assert_eq!(
        participant_event(Some(PacketIn::Clear), 5, "ada".to_string(), 90),
        RoomEvent::ParticipantLeft
    );
    assert_eq!(
        participant_event(Some(PacketIn::SelectNext), 5, "ada".to_string(), 90),
        RoomEvent::ParticipantLeft
    );
    assert_eq!(participant_event(None, 5, "ada".to_string(), 90), RoomEvent::ParticipantLeft);
}

#[test]
fn broadcast_targeting() {
    let to_all = BroadcastMessage::All(PacketOut::Clear);
    assert!(to_all.is_target(1));
    assert!(to_all.is_target(2));
    let to_one = BroadcastMessage::Single(1, PacketOut::Deselect);
    assert!(to_one.is_target(1));
    assert!(!to_one.is_target(2));
    assert_eq!(to_all.inner(), PacketOut::Clear);
    assert_eq!(to_one.inner(), PacketOut::Deselect);
}
