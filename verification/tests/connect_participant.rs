use chat_app_rs::domain::{ClientId, Room, RoomIdFactory, RoomRepository, Timestamp};
use chat_app_rs::infrastructure::repository::InMemoryRoomRepository;
use chat_app_rs::time::get_jst_timestamp;
use chat_app_rs::usecase::{ConnectError, ConnectParticipantUseCase};
use tokio::sync::mpsc;

fn create_connect_repository() -> InMemoryRoomRepository {
    let room = Room::new(
        RoomIdFactory::generate().unwrap(),
        Timestamp::new(get_jst_timestamp()),
    );
    InMemoryRoomRepository::new(room)
}

fn create_connect_repository_with_capacity(participant_capacity: usize) -> InMemoryRoomRepository {
    let room = Room::with_capacity(
        RoomIdFactory::generate().unwrap(),
        Timestamp::new(get_jst_timestamp()),
        participant_capacity,
        100,
    );
    InMemoryRoomRepository::new(room)
}

#[test]
fn test_connect_participant_success() {
    let mut repository = create_connect_repository();
    let usecase = ConnectParticipantUseCase::new();
    let (tx, _rx) = mpsc::unbounded_channel();

    let client_id = ClientId::new("alice".to_string()).unwrap();
    let result = usecase.execute(&mut repository, client_id.clone(), tx);

    assert!(result.is_ok());

    assert_eq!(repository.count_connected_clients(), 1);
    let participants = repository.get_participants();
    assert_eq!(participants.len(), 1);
    assert_eq!(participants[0].id, client_id);
}

#[test]
fn test_connect_participant_duplicate_error() {
    let mut repository = create_connect_repository();
    let usecase = ConnectParticipantUseCase::new();
    let (tx1, _rx1) = mpsc::unbounded_channel();
    let (tx2, _rx2) = mpsc::unbounded_channel();

    let client_id1 = ClientId::new("alice".to_string()).unwrap();
    usecase
        .execute(&mut repository, client_id1.clone(), tx1)
        .unwrap();

    let client_id2 = ClientId::new("alice".to_string()).unwrap();
    let result = usecase.execute(&mut repository, client_id2, tx2);

    assert_eq!(
        result,
        Err(ConnectError::DuplicateClientId("alice".to_string()))
    );

    assert_eq!(repository.count_connected_clients(), 1);
}

#[test]
fn test_connect_participant_capacity_exceeded() {
    let capacity = 2;
    let mut repository = create_connect_repository_with_capacity(capacity);
    let usecase = ConnectParticipantUseCase::new();

    let (tx1, _rx1) = mpsc::unbounded_channel();
    let (tx2, _rx2) = mpsc::unbounded_channel();
    let client_id_alice = ClientId::new("alice".to_string()).unwrap();
    let client_id_bob = ClientId::new("bob".to_string()).unwrap();
    usecase
        .execute(&mut repository, client_id_alice.clone(), tx1)
        .unwrap();
    usecase
        .execute(&mut repository, client_id_bob.clone(), tx2)
        .unwrap();

    let (tx3, _rx3) = mpsc::unbounded_channel();
    let charlie = ClientId::new("charlie".to_string()).unwrap();
    let result = usecase.execute(&mut repository, charlie.clone(), tx3);

    assert_eq!(
        result,
        Err(ConnectError::RoomCapacityExceeded {
            capacity: 2,
            current: 2
        })
    );

    assert_eq!(repository.count_connected_clients(), 2);
}

#[test]
fn test_build_participant_list() {
    let mut repository = create_connect_repository();
    let usecase = ConnectParticipantUseCase::new();

    let (tx1, _rx1) = mpsc::unbounded_channel();
    let (tx2, _rx2) = mpsc::unbounded_channel();
    let (tx3, _rx3) = mpsc::unbounded_channel();
    let client_id_charlie = ClientId::new("charlie".to_string()).unwrap();
    let client_id_alice = ClientId::new("alice".to_string()).unwrap();
    let client_id_bob = ClientId::new("bob".to_string()).unwrap();
    usecase
        .execute(&mut repository, client_id_charlie.clone(), tx1)
        .unwrap();
    usecase
        .execute(&mut repository, client_id_alice.clone(), tx2)
        .unwrap();
    usecase
        .execute(&mut repository, client_id_bob.clone(), tx3)
        .unwrap();

    let result = usecase.build_participant_list(&repository);

    assert_eq!(result.len(), 3);
    assert_eq!(result[0].client_id, client_id_alice.as_str());
    assert_eq!(result[1].client_id, client_id_bob.as_str());
    assert_eq!(result[2].client_id, client_id_charlie.as_str());
}

#[test]
fn test_connect_scenario_capacity_two() {
    let mut repository = create_connect_repository_with_capacity(2);
    let usecase = ConnectParticipantUseCase::new();
    let (tx1, _rx1) = mpsc::unbounded_channel();
    let (tx2, _rx2) = mpsc::unbounded_channel();
    let (tx3, _rx3) = mpsc::unbounded_channel();

    let alice = usecase.execute(
        &mut repository,
        ClientId::new("alice".to_string()).unwrap(),
        tx1,
    );
    let bob = usecase.execute(
        &mut repository,
        ClientId::new("bob".to_string()).unwrap(),
        tx2,
    );
    let charlie = usecase.execute(
        &mut repository,
        ClientId::new("charlie".to_string()).unwrap(),
        tx3,
    );

    assert_eq!(alice, Ok(()));
    assert_eq!(bob, Ok(()));
    assert_eq!(
        charlie,
        Err(ConnectError::RoomCapacityExceeded {
            capacity: 2,
            current: 2
        })
    );
    assert_eq!(repository.get_participants().len(), 2);
    assert_eq!(repository.count_connected_clients(), 2);
}

#[test]
fn test_list_scenario_is_sorted_whatever_the_order_in() {
    let mut repository = create_connect_repository();
    let usecase = ConnectParticipantUseCase::new();
    for name in ["alice", "bob", "charlie"] {
        let (tx, _rx) = mpsc::unbounded_channel();
        usecase
            .execute(&mut repository, ClientId::new(name.to_string()).unwrap(), tx)
            .unwrap();
    }

    let listed = usecase.build_participant_list(&repository);

    let names: Vec<&str> = listed.iter().map(|p| p.client_id.as_str()).collect();
    assert_eq!(names, vec!["alice", "bob", "charlie"]);
}

#[test]
fn test_build_participant_list_orders_by_code_point() {
    let mut repository = create_connect_repository();
    let usecase = ConnectParticipantUseCase::new();
    let names = ["bob", "b", "alice", "Zed", "\u{e9}mile", "bo", "10", "9"];
    for (at, name) in names.iter().enumerate() {
        let (tx, _rx) = mpsc::unbounded_channel();
        usecase
            .execute_at(
                &mut repository,
                ClientId::new(name.to_string()).unwrap(),
                tx,
                Timestamp::new(at as i64),
            )
            .unwrap();
    }

    let listed = usecase.build_participant_list(&repository);

    let listed_names: Vec<&str> = listed.iter().map(|p| p.client_id.as_str()).collect();
    assert_eq!(
        listed_names,
        vec!["10", "9", "Zed", "alice", "b", "bo", "bob", "\u{e9}mile"]
    );
    let listed_times: Vec<i64> = listed.iter().map(|p| p.connected_at).collect();
    assert_eq!(listed_times, vec![6, 7, 3, 2, 1, 5, 0, 4]);
    // The room itself keeps the order of arrival.
    let joined: Vec<String> = repository.get_all_connected_client_ids();
    assert_eq!(joined, names.iter().map(|n| n.to_string()).collect::<Vec<_>>());
}

#[test]
fn test_build_participant_list_of_an_empty_room() {
    let repository = create_connect_repository();
    let usecase = ConnectParticipantUseCase::new();

    assert!(usecase.build_participant_list(&repository).is_empty());
}

#[test]
fn test_execute_at_records_the_time_given() {
    let mut repository = create_connect_repository();
    let usecase = ConnectParticipantUseCase::new();
    let (tx, _rx) = mpsc::unbounded_channel();
    let alice = ClientId::new("alice".to_string()).unwrap();

    usecase
        .execute_at(&mut repository, alice.clone(), tx, Timestamp::new(1234))
        .unwrap();

    assert_eq!(repository.get_participants()[0].connected_at.value(), 1234);
    assert_eq!(repository.get_client_info(&alice).unwrap().connected_at, 1234);
}

#[test]
fn test_reconnect_after_disconnect_is_accepted() {
    let mut repository = create_connect_repository_with_capacity(1);
    let usecase = ConnectParticipantUseCase::new();
    let alice = ClientId::new("alice".to_string()).unwrap();
    let (tx1, _rx1) = mpsc::unbounded_channel();
    let (tx2, _rx2) = mpsc::unbounded_channel();
    usecase
        .execute(&mut repository, alice.clone(), tx1)
        .unwrap();
    repository.remove_participant(&alice).unwrap();

    let again = usecase.execute(&mut repository, alice.clone(), tx2);

    assert_eq!(again, Ok(()));
    assert_eq!(repository.count_connected_clients(), 1);
}
