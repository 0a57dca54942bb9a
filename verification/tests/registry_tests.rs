use buzzer::error::Error;
use buzzer::registry::{validate_username, Registry};
use buzzer::utils::{sanitize, sanitize_for_search};

#[test]
fn sanitize_trims_surrounding_whitespace() {
    assert_eq!(sanitize("  My Room  "), "My Room");
    assert_eq!(sanitize("plain"), "plain");
    assert_eq!(sanitize(" \t\n x \t\n "), "x");
}

#[test]
fn sanitize_for_search_trims_and_folds_case() {
    assert_eq!(sanitize_for_search("  My Room  "), "my room");
    assert_eq!(sanitize_for_search("ABC"), "abc");
    assert_eq!(sanitize_for_search(" MiXeD "), "mixed");
}

#[test]
fn reserve_returns_canonical_name() {
    let mut registry = Registry::new();
    let (_, canon) = registry.reserve("  My Room  ").unwrap();
    assert_eq!(canon, "My Room");
}

#[test]
fn short_names_are_rejected() {
    let mut registry = Registry::new();
    assert!(matches!(registry.reserve("ab"), Err(Error::RoomNameTooShort)));
    assert!(matches!(registry.reserve("  ab  "), Err(Error::RoomNameTooShort)));
    assert!(matches!(registry.reserve(""), Err(Error::RoomNameTooShort)));
    assert!(registry.reserve("abc").is_ok());
}

#[test]
fn reserved_then_claimed_room_is_locatable_by_any_spelling() {
    let mut registry = Registry::new();
    let (id, canon) = registry.reserve("  My Room  ").unwrap();
    registry.create(id).unwrap();
    let (found_id, found_name) = registry.find_room("my room").unwrap();
    assert_eq!(found_id, id);
    assert_eq!(found_name, canon);
    let (found_id, found_name) = registry.find_room("  MY ROOM").unwrap();
    assert_eq!(found_id, id);
    assert_eq!(found_name, "My Room");
}

#[test]
fn duplicate_names_differing_by_case_or_whitespace_rejected() {
    let mut registry = Registry::new();
    registry.reserve("My Room").unwrap();
    assert!(matches!(registry.reserve("  my room  "), Err(Error::RoomAlreadyExist)));
    assert!(matches!(registry.reserve("MY ROOM"), Err(Error::RoomAlreadyExist)));
    assert!(matches!(registry.reserve("My Room"), Err(Error::RoomAlreadyExist)));
}

#[test]
fn claimed_room_name_stays_taken() {
    let mut registry = Registry::new();
    let (id, _) = registry.reserve("My Room").unwrap();
    registry.create(id).unwrap();
    assert!(matches!(registry.reserve(" my room "), Err(Error::RoomAlreadyExist)));
}

#[test]
fn duplicate_id_is_rejected() {
    let mut registry = Registry::new();
    registry.reserve_with_id(7, "first room").unwrap();
    assert!(matches!(registry.reserve_with_id(7, "second room"), Err(Error::RoomAlreadyExist)));
}

#[test]
fn expired_reservation_frees_the_name() {
    let mut registry = Registry::new();
    let (id, _) = registry.reserve("My Room").unwrap();
    assert!(registry.expire(id));
    let (id2, canon) = registry.reserve(" my room ").unwrap();
    assert_eq!(canon, "my room");
    assert!(matches!(registry.create(id), Err(Error::RoomNotFound)));
    registry.create(id2).unwrap();
}

#[test]
fn expiry_after_claim_is_a_no_op() {
    let mut registry = Registry::new();
    let (id, _) = registry.reserve("My Room").unwrap();
    registry.create(id).unwrap();
    assert!(!registry.expire(id));
    assert!(registry.find_room("my room").is_ok());
}

#[test]
fn expire_of_unknown_id_is_a_no_op() {
    let mut registry = Registry::new();
    assert!(!registry.expire(123));
}

#[test]
fn claiming_unknown_or_expired_reservation_fails() {
    let mut registry = Registry::new();
    assert!(matches!(registry.create(99), Err(Error::RoomNotFound)));
    let (id, _) = registry.reserve("My Room").unwrap();
    registry.create(id).unwrap();
    assert!(matches!(registry.create(id), Err(Error::RoomNotFound)));
}

#[test]
fn pending_rooms_are_not_locatable() {
    let mut registry = Registry::new();
    registry.reserve("My Room").unwrap();
    assert!(matches!(registry.find_room("my room"), Err(Error::RoomNotFound)));
}

#[test]
fn unknown_names_are_not_found() {
    let registry = Registry::new();
    assert!(matches!(registry.find_room("nowhere"), Err(Error::RoomNotFound)));
}

#[test]
fn removed_room_is_gone_and_its_name_reservable() {
    let mut registry = Registry::new();
    let (id, canon) = registry.reserve("My Room").unwrap();
    registry.create(id).unwrap();
    registry.remove(id, &canon);
    assert!(matches!(registry.find_room("my room"), Err(Error::RoomNotFound)));
    assert!(matches!(registry.join_room(id), Err(Error::RoomNotFound)));
    let (id2, _) = registry.reserve("  MY ROOM ").unwrap();
    assert_ne!(id, id2);
}

#[test]
fn join_room_checks_the_room_is_active() {
    let mut registry = Registry::new();
    let (id, _) = registry.reserve("My Room").unwrap();
    assert!(matches!(registry.join_room(id), Err(Error::RoomNotFound)));
    registry.create(id).unwrap();
    assert!(registry.join_room(id).is_ok());
    assert!(matches!(registry.join_room(id.wrapping_add(1)), Err(Error::RoomNotFound)));
}

#[test]
fn usernames_are_trimmed_and_length_checked() {
    assert_eq!(validate_username("  ada  ").unwrap(), "ada");
    assert_eq!(validate_username("ab").unwrap(), "ab");
    assert!(matches!(validate_username(" a "), Err(Error::UsernameTooShort)));
    assert!(matches!(validate_username("   "), Err(Error::UsernameTooShort)));
}

#[test]
fn errors_render_distinctly() {
    assert_eq!(Error::RoomNotFound.message(), "Room not found");
    assert_eq!(Error::RoomAlreadyExist.message(), "Room already exists");
    assert_eq!(Error::RoomNameTooShort.message(), "Room name too short");
    assert_eq!(Error::UsernameTooShort.message(), "Username name too short");
    assert_eq!(Error::RoomNotFound.status_code(), 404);
    assert_eq!(Error::RoomAlreadyExist.status_code(), 409);
    assert_eq!(Error::RoomNameTooShort.status_code(), 400);
    assert_eq!(Error::UsernameTooShort.status_code(), 400);
}
