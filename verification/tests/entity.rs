use chat_app_rs::domain::entity::{DEFAULT_MESSAGE_CAPACITY, DEFAULT_PARTICIPANT_CAPACITY};
use chat_app_rs::domain::{
    ChatMessage, ClientId, MessageContent, Participant, Room, RoomError, RoomIdFactory, Timestamp,
};

#[test]
fn test_room_new() {
    let room_id = RoomIdFactory::generate().unwrap();
    let created_at = Timestamp::new(1000);

    let room = Room::new(room_id.clone(), created_at);

    assert_eq!(room.id, room_id);
    assert_eq!(room.participants.len(), 0);
    assert_eq!(room.messages.len(), 0);
    assert_eq!(room.created_at, created_at);
}

#[test]
fn test_room_add_participant() {
    let mut room = Room::new(RoomIdFactory::generate().unwrap(), Timestamp::new(0));
    let participant = Participant::new(
        ClientId::new("alice".to_string()).unwrap(),
        Timestamp::new(1000),
    );

    let result = room.add_participant(participant.clone());

    assert!(result.is_ok());
    assert_eq!(room.participants.len(), 1);
    assert_eq!(
        room.participants[0].id,
        ClientId::new("alice".to_string()).unwrap()
    );
}

#[test]
fn test_room_remove_participant() {
    let mut room = Room::new(RoomIdFactory::generate().unwrap(), Timestamp::new(0));
    room.add_participant(Participant::new(
        ClientId::new("alice".to_string()).unwrap(),
        Timestamp::new(1000),
    ))
    .unwrap();
    room.add_participant(Participant::new(
        ClientId::new("bob".to_string()).unwrap(),
        Timestamp::new(2000),
    ))
    .unwrap();

    let alice_id = ClientId::new("alice".to_string()).unwrap();
    room.remove_participant(&alice_id);

    assert_eq!(room.participants.len(), 1);
    assert_eq!(
        room.participants[0].id,
        ClientId::new("bob".to_string()).unwrap()
    );
}

#[test]
fn test_room_add_message() {
    let mut room = Room::new(RoomIdFactory::generate().unwrap(), Timestamp::new(0));
    let message = ChatMessage::new(
        ClientId::new("alice".to_string()).unwrap(),
        MessageContent::new("Hello!".to_string()).unwrap(),
        Timestamp::new(3000),
    );

    let result = room.add_message(message.clone());

    assert!(result.is_ok());
    assert_eq!(room.messages.len(), 1);
    assert_eq!(
        room.messages[0].from,
        ClientId::new("alice".to_string()).unwrap()
    );
    assert_eq!(
        room.messages[0].content,
        MessageContent::new("Hello!".to_string()).unwrap()
    );
}

#[test]
fn test_room_get_participant() {
    let mut room = Room::new(RoomIdFactory::generate().unwrap(), Timestamp::new(0));
    let alice_id = ClientId::new("alice".to_string()).unwrap();
    room.add_participant(Participant::new(alice_id.clone(), Timestamp::new(1000)))
        .unwrap();

    let participant = room.get_participant(&alice_id);

    assert!(participant.is_some());
    assert_eq!(participant.unwrap().id, alice_id);
}

#[test]
fn test_room_get_nonexistent_participant() {
    let room = Room::new(RoomIdFactory::generate().unwrap(), Timestamp::new(0));

    let alice_id = ClientId::new("alice".to_string()).unwrap();
    let participant = room.get_participant(&alice_id);

    assert!(participant.is_none());
}

#[test]
fn test_room_participant_capacity_exceeded() {
    let mut room = Room::with_capacity(
        RoomIdFactory::generate().unwrap(),
        Timestamp::new(0),
        2,
        100,
    );

    room.add_participant(Participant::new(
        ClientId::new("alice".to_string()).unwrap(),
        Timestamp::new(1000),
    ))
    .unwrap();
    room.add_participant(Participant::new(
        ClientId::new("bob".to_string()).unwrap(),
        Timestamp::new(2000),
    ))
    .unwrap();

    let result = room.add_participant(Participant::new(
        ClientId::new("charlie".to_string()).unwrap(),
        Timestamp::new(3000),
    ));

    assert!(result.is_err());
    assert_eq!(
        result.unwrap_err(),
        RoomError::CapacityExceeded {
            capacity: 2,
            current: 2
        }
    );
    assert_eq!(room.participants.len(), 2);
}

#[test]
fn test_room_message_capacity_exceeded() {
    let mut room = Room::with_capacity(
        RoomIdFactory::generate().unwrap(),
        Timestamp::new(0),
        10,
        2,
    );

    room.add_message(ChatMessage::new(
        ClientId::new("alice".to_string()).unwrap(),
        MessageContent::new("Hello!".to_string()).unwrap(),
        Timestamp::new(1000),
    ))
    .unwrap();
    room.add_message(ChatMessage::new(
        ClientId::new("bob".to_string()).unwrap(),
        MessageContent::new("Hi!".to_string()).unwrap(),
        Timestamp::new(2000),
    ))
    .unwrap();

    let result = room.add_message(ChatMessage::new(
        ClientId::new("charlie".to_string()).unwrap(),
        MessageContent::new("Hey!".to_string()).unwrap(),
        Timestamp::new(3000),
    ));

    assert!(result.is_err());
    assert_eq!(
        result.unwrap_err(),
        RoomError::MessageCapacityExceeded {
            capacity: 2,
            current: 2
        }
    );
    assert_eq!(room.messages.len(), 2);
}

#[test]
fn test_room_default_capacities() {
    let room = Room::new(RoomIdFactory::generate().unwrap(), Timestamp::new(0));

    assert_eq!(room.participant_capacity, DEFAULT_PARTICIPANT_CAPACITY);
    assert_eq!(room.message_capacity, DEFAULT_MESSAGE_CAPACITY);
}

#[test]
fn test_room_default_capacities_are_ten_and_a_hundred() {
    assert_eq!(DEFAULT_PARTICIPANT_CAPACITY, 10);
    assert_eq!(DEFAULT_MESSAGE_CAPACITY, 100);
}

#[test]
fn test_room_with_zero_capacity_refuses_everything() {
    let mut room = Room::with_capacity(
        RoomIdFactory::generate().unwrap(),
        Timestamp::new(0),
        0,
        0,
    );

    let joined = room.add_participant(Participant::new(
        ClientId::new("alice".to_string()).unwrap(),
        Timestamp::new(1),
    ));
    let sent = room.add_message(ChatMessage::new(
        ClientId::new("alice".to_string()).unwrap(),
        MessageContent::new("hi".to_string()).unwrap(),
        Timestamp::new(2),
    ));

    assert_eq!(
        joined.unwrap_err(),
        RoomError::CapacityExceeded {
            capacity: 0,
            current: 0
        }
    );
    assert_eq!(
        sent.unwrap_err(),
        RoomError::MessageCapacityExceeded {
            capacity: 0,
            current: 0
        }
    );
    assert!(room.participants.is_empty());
    assert!(room.messages.is_empty());
}

#[test]
fn test_room_remove_absent_participant_changes_nothing() {
    let mut room = Room::new(RoomIdFactory::generate().unwrap(), Timestamp::new(0));
    for (name, at) in [("alice", 1), ("bob", 2), ("charlie", 3)] {
        room.add_participant(Participant::new(
            ClientId::new(name.to_string()).unwrap(),
            Timestamp::new(at),
        ))
        .unwrap();
    }

    room.remove_participant(&ClientId::new("dave".to_string()).unwrap());

    let ids: Vec<&str> = room.participants.iter().map(|p| p.id.as_str()).collect();
    assert_eq!(ids, vec!["alice", "bob", "charlie"]);
}

#[test]
fn test_room_remove_keeps_the_order_of_the_others() {
    let mut room = Room::new(RoomIdFactory::generate().unwrap(), Timestamp::new(0));
    for (name, at) in [("alice", 1), ("bob", 2), ("charlie", 3), ("dave", 4)] {
        room.add_participant(Participant::new(
            ClientId::new(name.to_string()).unwrap(),
            Timestamp::new(at),
        ))
        .unwrap();
    }

    room.remove_participant(&ClientId::new("bob".to_string()).unwrap());

    let ids: Vec<&str> = room.participants.iter().map(|p| p.id.as_str()).collect();
    assert_eq!(ids, vec!["alice", "charlie", "dave"]);
    let times: Vec<i64> = room
        .participants
        .iter()
        .map(|p| p.connected_at.value())
        .collect();
    assert_eq!(times, vec![1, 3, 4]);
}

#[test]
fn test_room_remove_takes_every_participant_of_that_name() {
    let mut room = Room::new(RoomIdFactory::generate().unwrap(), Timestamp::new(0));
    for (name, at) in [("alice", 1), ("bob", 2), ("alice", 3)] {
        room.add_participant(Participant::new(
            ClientId::new(name.to_string()).unwrap(),
            Timestamp::new(at),
        ))
        .unwrap();
    }

    let first = room
        .get_participant(&ClientId::new("alice".to_string()).unwrap())
        .unwrap();
    assert_eq!(first.connected_at.value(), 1);

    room.remove_participant(&ClientId::new("alice".to_string()).unwrap());

    assert_eq!(room.participants.len(), 1);
    assert_eq!(room.participants[0].id.as_str(), "bob");
}

#[test]
fn test_room_clone_is_a_deep_copy() {
    let mut room = Room::with_capacity(
        RoomIdFactory::generate().unwrap(),
        Timestamp::new(7),
        3,
        4,
    );
    room.add_participant(Participant::new(
        ClientId::new("alice".to_string()).unwrap(),
        Timestamp::new(10),
    ))
    .unwrap();
    room.add_message(ChatMessage::new(
        ClientId::new("alice".to_string()).unwrap(),
        MessageContent::new("one".to_string()).unwrap(),
        Timestamp::new(11),
    ))
    .unwrap();

    let copy = room.clone();
    room.remove_participant(&ClientId::new("alice".to_string()).unwrap());

    assert_eq!(copy.id, room.id);
    assert_eq!(copy.created_at.value(), 7);
    assert_eq!(copy.participant_capacity, 3);
    assert_eq!(copy.message_capacity, 4);
    assert_eq!(copy.participants.len(), 1);
    assert_eq!(copy.participants[0].id.as_str(), "alice");
    assert_eq!(copy.participants[0].connected_at.value(), 10);
    assert_eq!(copy.messages.len(), 1);
    assert_eq!(copy.messages[0].content.as_str(), "one");
    assert_eq!(copy.messages[0].timestamp.value(), 11);
    assert_eq!(room.participants.len(), 0);
}
