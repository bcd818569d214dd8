use chat_relay::registry::Registry;
use chat_relay::room::Room;

#[test]
fn registry_creates_a_room_once() {
    let mut reg = Registry::new();
    let name = String::from("lobby");
    let (first, created) = reg.get_or_create(&name);
    assert!(created);
    assert_eq!(first, 0);
    assert_eq!(reg.room_count(), 1);
    let (second, created_again) = reg.get_or_create(&name);
    assert!(!created_again);
    assert_eq!(second, first);
    assert_eq!(reg.room_count(), 1);
}

#[test]
fn registry_keeps_distinct_rooms_apart() {
    let mut reg = Registry::new();
    let (lobby, lobby_created) = reg.get_or_create(&String::from("lobby"));
    let (game, game_created) = reg.get_or_create(&String::from("game"));
    assert!(lobby_created);
    assert!(game_created);
    assert_ne!(lobby, game);
    assert_eq!(reg.room_count(), 2);
    assert_eq!(reg.name_at(lobby).as_str(), "lobby");
    assert_eq!(reg.name_at(game).as_str(), "game");
}

#[test]
fn broadcast_reaches_every_member_once_and_appends_history() {
    let mut room = Room::new(String::from("lobby"));
    room.join(1);
    room.join(2);
    room.join(3);
    assert_eq!(room.history_len(), 0);
    let recipients = room.broadcast(String::from("alice: hello"));
    assert_eq!(recipients, vec![1, 2, 3]);
    assert_eq!(room.history_len(), 1);
    assert_eq!(room.history_at(0).as_str(), "alice: hello");
}

#[test]
fn broadcast_to_empty_room_only_appends_history() {
    let mut room = Room::new(String::from("lobby"));
    let recipients = room.broadcast(String::from("nobody hears this"));
    assert!(recipients.is_empty());
    assert_eq!(room.history_len(), 1);
}

#[test]
fn history_keeps_broadcast_order() {
    let mut room = Room::new(String::from("lobby"));
    room.join(1);
    room.broadcast(String::from("first"));
    room.broadcast(String::from("second"));
    assert_eq!(room.history_len(), 2);
    assert_eq!(room.history_at(0).as_str(), "first");
    assert_eq!(room.history_at(1).as_str(), "second");
}

#[test]
fn joining_twice_adds_one_membership() {
    let mut room = Room::new(String::from("lobby"));
    room.join(5);
    room.join(5);
    assert_eq!(room.member_count(), 1);
    assert!(room.is_member(5));
}

#[test]
fn leave_removes_the_handle_and_keeps_the_others() {
    let mut room = Room::new(String::from("lobby"));
    room.join(1);
    room.join(2);
    room.join(3);
    room.leave(2);
    assert_eq!(room.member_count(), 2);
    assert!(room.is_member(1));
    assert!(!room.is_member(2));
    assert!(room.is_member(3));
    let recipients = room.broadcast(String::from("still here"));
    assert_eq!(recipients, vec![1, 3]);
}

#[test]
fn leave_is_idempotent() {
    let mut room = Room::new(String::from("lobby"));
    room.join(1);
    room.join(2);
    room.leave(2);
    let after_once = (room.member_count(), room.history_len());
    room.leave(2);
    assert_eq!((room.member_count(), room.history_len()), after_once);
    assert!(room.is_member(1));
    assert!(!room.is_member(2));
}

#[test]
fn leaving_an_absent_handle_is_a_no_op() {
    let mut room = Room::new(String::from("lobby"));
    room.join(1);
    room.leave(9);
    assert_eq!(room.member_count(), 1);
    assert!(room.is_member(1));
}
