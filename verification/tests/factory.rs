use chat_app_rs::domain::RoomIdFactory;

#[test]
fn test_room_id_factory_generate() {
    let result = RoomIdFactory::generate();

    assert!(result.is_ok());
    let room_id = result.unwrap();

    let id_str = room_id.as_str();
    assert_eq!(id_str.len(), 36);
}

#[test]
fn test_room_id_factory_generate_uniqueness() {
    let room_id1 = RoomIdFactory::generate().unwrap();
    let room_id2 = RoomIdFactory::generate().unwrap();

    assert_ne!(room_id1, room_id2);
}

#[test]
fn test_room_id_factory_generate_has_the_shape_of_a_uuid() {
    let room_id = RoomIdFactory::generate().unwrap();

    for (i, c) in room_id.as_str().chars().enumerate() {
        if i == 8 || i == 13 || i == 18 || i == 23 {
            assert_eq!(c, '-');
        } else {
            assert!(matches!(c, '0'..='9' | 'a'..='f'));
        }
    }
}

#[test]
fn test_room_id_factory_generate_is_a_random_uuid() {
    for _ in 0..50 {
        let room_id = RoomIdFactory::generate().unwrap();
        let text: Vec<char> = room_id.as_str().chars().collect();

        assert_eq!(text[14], '4');
        assert!(matches!(text[19], '8' | '9' | 'a' | 'b'));
    }
}
