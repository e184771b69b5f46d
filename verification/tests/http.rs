use chat_app_rs::domain::{ClientId, Participant, Room, RoomId, Timestamp};
use chat_app_rs::time::timestamp_to_jst_rfc3339;
use chat_app_rs::ui::handler::http::{
    get_room_detail, get_rooms, INTERNAL_SERVER_ERROR, NOT_FOUND,
};

fn default_room(created_at: i64) -> Room {
    Room::new(
        RoomId::new("default".to_string()).unwrap(),
        Timestamp::new(created_at),
    )
}

fn join(room: &mut Room, name: &str, at: i64) {
    room.add_participant(Participant::new(
        ClientId::new(name.to_string()).unwrap(),
        Timestamp::new(at),
    ))
    .unwrap();
}

#[test]
fn test_timestamp_to_jst_rfc3339_of_known_instants() {
    assert_eq!(
        timestamp_to_jst_rfc3339(0).unwrap(),
        "1970-01-01T09:00:00+09:00"
    );
    assert_eq!(
        timestamp_to_jst_rfc3339(1672498800000).unwrap(),
        "2023-01-01T00:00:00+09:00"
    );
    assert_eq!(
        timestamp_to_jst_rfc3339(1672498800123).unwrap(),
        "2023-01-01T00:00:00.123+09:00"
    );
    assert_eq!(
        timestamp_to_jst_rfc3339(-1).unwrap(),
        "1970-01-01T08:59:59.999+09:00"
    );
}

#[test]
fn test_timestamp_to_jst_rfc3339_out_of_range_is_nothing() {
    assert!(timestamp_to_jst_rfc3339(i64::MAX).is_none());
    assert!(timestamp_to_jst_rfc3339(i64::MIN).is_none());
}

#[test]
fn test_get_rooms_lists_the_one_room() {
    let mut room = default_room(1672498800000);
    join(&mut room, "bob", 1);
    join(&mut room, "alice", 2);

    let rooms = get_rooms(&room).unwrap();

    assert_eq!(rooms.len(), 1);
    assert_eq!(rooms[0].id, "default");
    assert_eq!(
        rooms[0].participants,
        vec!["bob".to_string(), "alice".to_string()]
    );
    assert_eq!(rooms[0].created_at, "2023-01-01T00:00:00+09:00");
}

#[test]
fn test_get_rooms_of_an_empty_room() {
    let rooms = get_rooms(&default_room(0)).unwrap();

    assert_eq!(rooms.len(), 1);
    assert!(rooms[0].participants.is_empty());
    assert_eq!(rooms[0].created_at, "1970-01-01T09:00:00+09:00");
}

#[test]
fn test_get_rooms_with_a_time_out_of_range_is_nothing() {
    assert!(get_rooms(&default_room(i64::MAX)).is_none());
}

#[test]
fn test_get_room_detail_of_the_room() {
    let mut room = default_room(1672498800000);
    join(&mut room, "bob", 0);
    join(&mut room, "alice", 1672498800123);

    let detail = get_room_detail(&room, "default").unwrap();

    assert_eq!(detail.id, "default");
    assert_eq!(detail.created_at, "2023-01-01T00:00:00+09:00");
    assert_eq!(detail.participants.len(), 2);
    assert_eq!(detail.participants[0].client_id, "bob");
    assert_eq!(
        detail.participants[0].connected_at,
        "1970-01-01T09:00:00+09:00"
    );
    assert_eq!(detail.participants[1].client_id, "alice");
    assert_eq!(
        detail.participants[1].connected_at,
        "2023-01-01T00:00:00.123+09:00"
    );
}

#[test]
fn test_get_room_detail_of_another_room_is_not_found() {
    let room = default_room(0);

    assert_eq!(get_room_detail(&room, "nonexistent").unwrap_err(), 404);
    assert_eq!(get_room_detail(&room, "").unwrap_err(), NOT_FOUND);
    assert_eq!(get_room_detail(&room, "Default").unwrap_err(), NOT_FOUND);
}

#[test]
fn test_get_room_detail_not_found_comes_before_the_times() {
    let mut room = default_room(i64::MAX);
    join(&mut room, "bob", i64::MIN);

    assert_eq!(get_room_detail(&room, "other").unwrap_err(), NOT_FOUND);
    assert_eq!(
        get_room_detail(&room, "default").unwrap_err(),
        INTERNAL_SERVER_ERROR
    );
}

#[test]
fn test_get_room_detail_with_a_time_out_of_range_is_an_error() {
    let mut room = default_room(0);
    join(&mut room, "bob", i64::MAX);
    assert_eq!(get_room_detail(&room, "default").unwrap_err(), 500);

    let room = default_room(i64::MIN);
    assert_eq!(get_room_detail(&room, "default").unwrap_err(), 500);
}
