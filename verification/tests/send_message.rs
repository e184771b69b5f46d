use chat_app_rs::domain::{
    ClientId, MessageContent, Room, RoomIdFactory, RoomRepository, Timestamp,
};
use chat_app_rs::infrastructure::repository::InMemoryRoomRepository;
use chat_app_rs::time::get_jst_timestamp;
use chat_app_rs::usecase::{SendMessageError, SendMessageUseCase};
use tokio::sync::mpsc;

fn create_send_repository() -> InMemoryRoomRepository {
    let room = Room::new(
        RoomIdFactory::generate().unwrap(),
        Timestamp::new(get_jst_timestamp()),
    );
    InMemoryRoomRepository::new(room)
}

fn create_send_repository_with_capacity(message_capacity: usize) -> InMemoryRoomRepository {
    let room = Room::with_capacity(
        RoomIdFactory::generate().unwrap(),
        Timestamp::new(get_jst_timestamp()),
        100,
        message_capacity,
    );
    InMemoryRoomRepository::new(room)
}

#[test]
fn test_send_message_success() {
    let mut repository = create_send_repository();
    let usecase = SendMessageUseCase::new();

    let (tx1, _rx1) = mpsc::unbounded_channel();
    let (tx2, _rx2) = mpsc::unbounded_channel();
    let (tx3, _rx3) = mpsc::unbounded_channel();
    let timestamp = get_jst_timestamp();
    let alice = ClientId::new("alice".to_string()).unwrap();
    let bob = ClientId::new("bob".to_string()).unwrap();
    let charlie = ClientId::new("charlie".to_string()).unwrap();
    repository
        .add_participant(alice.clone(), tx1, Timestamp::new(timestamp))
        .unwrap();
    repository
        .add_participant(bob.clone(), tx2, Timestamp::new(timestamp))
        .unwrap();
    repository
        .add_participant(charlie.clone(), tx3, Timestamp::new(timestamp))
        .unwrap();

    let content = MessageContent::new("Hello!".to_string()).unwrap();
    let result = usecase.execute(&mut repository, alice.clone(), content);

    assert!(result.is_ok());
    let broadcast_targets = result.unwrap();

    assert_eq!(broadcast_targets.len(), 2);
    assert!(broadcast_targets.contains(&"bob".to_string()));
    assert!(broadcast_targets.contains(&"charlie".to_string()));
    assert!(!broadcast_targets.contains(&"alice".to_string()));

    let room = repository.get_room().unwrap();
    assert_eq!(room.messages.len(), 1);
    assert_eq!(room.messages[0].from, alice);
    assert_eq!(room.messages[0].content.as_str(), "Hello!");
}

#[test]
fn test_send_message_no_broadcast_targets() {
    let mut repository = create_send_repository();
    let usecase = SendMessageUseCase::new();

    let (tx1, _rx1) = mpsc::unbounded_channel();
    let timestamp = get_jst_timestamp();
    let alice = ClientId::new("alice".to_string()).unwrap();
    repository
        .add_participant(alice.clone(), tx1, Timestamp::new(timestamp))
        .unwrap();

    let content = MessageContent::new("Hello!".to_string()).unwrap();
    let result = usecase.execute(&mut repository, alice.clone(), content);

    assert!(result.is_ok());
    let broadcast_targets = result.unwrap();

    assert_eq!(broadcast_targets.len(), 0);

    let room = repository.get_room().unwrap();
    assert_eq!(room.messages.len(), 1);
}

#[test]
fn test_send_message_capacity_exceeded() {
    let mut repository = create_send_repository_with_capacity(2);
    let usecase = SendMessageUseCase::new();

    let (tx1, _rx1) = mpsc::unbounded_channel();
    let timestamp = get_jst_timestamp();
    let alice = ClientId::new("alice".to_string()).unwrap();
    repository
        .add_participant(alice.clone(), tx1, Timestamp::new(timestamp))
        .unwrap();

    let msg1 = MessageContent::new("Message 1".to_string()).unwrap();
    usecase
        .execute(&mut repository, alice.clone(), msg1)
        .unwrap();

    let msg2 = MessageContent::new("Message 2".to_string()).unwrap();
    usecase
        .execute(&mut repository, alice.clone(), msg2)
        .unwrap();

    let msg3 = MessageContent::new("Message 3".to_string()).unwrap();
    let result = usecase.execute(&mut repository, alice.clone(), msg3);

    assert_eq!(
        result,
        Err(SendMessageError::MessageCapacityExceeded {
            capacity: 2,
            current: 2
        })
    );

    let room = repository.get_room().unwrap();
    assert_eq!(room.messages.len(), 2);
}

#[test]
fn test_get_broadcast_targets_multiple_clients() {
    let mut repository = create_send_repository();
    let usecase = SendMessageUseCase::new();

    let (tx1, _rx1) = mpsc::unbounded_channel();
    let (tx2, _rx2) = mpsc::unbounded_channel();
    let (tx3, _rx3) = mpsc::unbounded_channel();
    let timestamp = get_jst_timestamp();
    let alice = ClientId::new("alice".to_string()).unwrap();
    let bob = ClientId::new("bob".to_string()).unwrap();
    let charlie = ClientId::new("charlie".to_string()).unwrap();
    repository
        .add_participant(alice.clone(), tx1, Timestamp::new(timestamp))
        .unwrap();
    repository
        .add_participant(bob.clone(), tx2, Timestamp::new(timestamp))
        .unwrap();
    repository
        .add_participant(charlie.clone(), tx3, Timestamp::new(timestamp))
        .unwrap();

    let result = usecase.get_broadcast_targets(&repository, "bob");

    assert_eq!(result.len(), 2);
    assert!(result.contains(&"alice".to_string()));
    assert!(result.contains(&"charlie".to_string()));
    assert!(!result.contains(&"bob".to_string()));
}

#[test]
fn test_send_scenario_capacity_two() {
    let mut repository = create_send_repository_with_capacity(2);
    let usecase = SendMessageUseCase::new();
    let alice = ClientId::new("alice".to_string()).unwrap();
    let (tx, _rx) = mpsc::unbounded_channel();
    repository
        .add_participant(alice.clone(), tx, Timestamp::new(1))
        .unwrap();

    let m1 = usecase.execute(
        &mut repository,
        alice.clone(),
        MessageContent::new("m1".to_string()).unwrap(),
    );
    let m2 = usecase.execute(
        &mut repository,
        alice.clone(),
        MessageContent::new("m2".to_string()).unwrap(),
    );
    let m3 = usecase.execute(
        &mut repository,
        alice.clone(),
        MessageContent::new("m3".to_string()).unwrap(),
    );

    assert_eq!(m1, Ok(vec![]));
    assert_eq!(m2, Ok(vec![]));
    assert_eq!(
        m3,
        Err(SendMessageError::MessageCapacityExceeded {
            capacity: 2,
            current: 2
        })
    );
    let room = repository.get_room().unwrap();
    assert_eq!(room.messages.len(), 2);
    assert_eq!(room.messages[0].content.as_str(), "m1");
    assert_eq!(room.messages[1].content.as_str(), "m2");
}

#[test]
fn test_execute_at_records_the_message_in_order() {
    let mut repository = create_send_repository();
    let usecase = SendMessageUseCase::new();
    for name in ["alice", "bob"] {
        let (tx, _rx) = mpsc::unbounded_channel();
        repository
            .add_participant(
                ClientId::new(name.to_string()).unwrap(),
                tx,
                Timestamp::new(1),
            )
            .unwrap();
    }

    let first = usecase.execute_at(
        &mut repository,
        ClientId::new("bob".to_string()).unwrap(),
        MessageContent::new("one".to_string()).unwrap(),
        Timestamp::new(50),
    );
    let second = usecase.execute_at(
        &mut repository,
        ClientId::new("alice".to_string()).unwrap(),
        MessageContent::new("two".to_string()).unwrap(),
        Timestamp::new(40),
    );

    assert_eq!(first, Ok(vec!["alice".to_string()]));
    assert_eq!(second, Ok(vec!["bob".to_string()]));
    let room = repository.get_room().unwrap();
    let history: Vec<(&str, &str, i64)> = room
        .messages
        .iter()
        .map(|m| (m.from.as_str(), m.content.as_str(), m.timestamp.value()))
        .collect();
    assert_eq!(history, vec![("bob", "one", 50), ("alice", "two", 40)]);
}

#[test]
fn test_get_broadcast_targets_keeps_the_order_of_arrival() {
    let mut repository = create_send_repository();
    let usecase = SendMessageUseCase::new();
    for name in ["dave", "alice", "charlie", "bob"] {
        let (tx, _rx) = mpsc::unbounded_channel();
        repository
            .add_participant(
                ClientId::new(name.to_string()).unwrap(),
                tx,
                Timestamp::new(1),
            )
            .unwrap();
    }

    assert_eq!(
        usecase.get_broadcast_targets(&repository, "charlie"),
        vec!["dave".to_string(), "alice".to_string(), "bob".to_string()]
    );
    assert_eq!(
        usecase.get_broadcast_targets(&repository, "nobody"),
        vec![
            "dave".to_string(),
            "alice".to_string(),
            "charlie".to_string(),
            "bob".to_string()
        ]
    );
    assert_eq!(repository.get_room().unwrap().messages.len(), 0);
}
