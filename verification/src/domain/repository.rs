//! The room store as the use cases see it: its mathematical state, the
//! transitions of that state, and the contract every store has to meet.

use tokio::sync::mpsc::UnboundedSender;
use vstd::prelude::*;

use super::entity::{
    participant_models, MessageModel, Participant, ParticipantModel, Room, RoomModel,
};
use super::value_object::{ClientId, MessageContent, Timestamp};
use crate::ui::state::ClientInfo;

verus! {

/// Why the store refused an operation.
#[derive(Debug, PartialEq, Eq)]
pub enum RepositoryError {
    /// A participant with this identifier is already connected.
    DuplicateParticipant(String),
    /// The room already holds `capacity` participants.
    CapacityExceeded { capacity: usize, current: usize },
    /// The room already holds `capacity` messages.
    MessageCapacityExceeded { capacity: usize, current: usize },
    /// No connection is registered under this identifier.
    ClientInfoNotFound(String),
}

/// Mathematical value of a [`RepositoryError`].
pub enum RepositoryFailure {
    DuplicateParticipant(Seq<char>),
    CapacityExceeded { capacity: usize, current: usize },
    MessageCapacityExceeded { capacity: usize, current: usize },
    ClientInfoNotFound(Seq<char>),
}

impl View for RepositoryError {
    type V = RepositoryFailure;

    open spec fn view(&self) -> RepositoryFailure {
        match *self {
            RepositoryError::DuplicateParticipant(id) => RepositoryFailure::DuplicateParticipant(
                id@,
            ),
            RepositoryError::CapacityExceeded { capacity, current } => {
                RepositoryFailure::CapacityExceeded { capacity, current }
            },
            RepositoryError::MessageCapacityExceeded { capacity, current } => {
                RepositoryFailure::MessageCapacityExceeded { capacity, current }
            },
            RepositoryError::ClientInfoNotFound(id) => RepositoryFailure::ClientInfoNotFound(id@),
        }
    }
}

/// A registered connection: the identifier it is registered under and what
/// the store keeps for it.
pub struct ConnectionModel {
    pub id: Seq<char>,
    pub info: ClientInfo,
}

/// Mathematical state of a room store: the room and the registry of live
/// connections, in the order they were registered.
pub struct StoreModel {
    pub room: RoomModel,
    pub connections: Seq<ConnectionModel>,
}

/// An operation on the shared room state.
pub enum Operation {
    /// `id` connects and registers `info`.
    Connect { id: Seq<char>, info: ClientInfo },
    /// `id` disconnects.
    Disconnect { id: Seq<char> },
    /// `message` is sent.
    Send { message: MessageModel },
}

/// The predicate "is not the identifier `id`".
pub open spec fn not_id(id: Seq<char>) -> spec_fn(Seq<char>) -> bool {
    |other: Seq<char>| other != id
}

/// The predicate "is not the connection of `id`".
pub open spec fn connection_other_than(id: Seq<char>) -> spec_fn(ConnectionModel) -> bool {
    |c: ConnectionModel| c.id != id
}

/// The identifiers in `ids` other than `id`, in the same order.
pub open spec fn ids_except(ids: Seq<Seq<char>>, id: Seq<char>) -> Seq<Seq<char>> {
    ids.filter(not_id(id))
}

/// Whether `connections` mirrors `participants`: the same length, and at
/// each position the same identifier and the same connection time.
pub open spec fn mirrors(
    connections: Seq<ConnectionModel>,
    participants: Seq<ParticipantModel>,
) -> bool {
    &&& connections.len() == participants.len()
    &&& forall|i: int|
        0 <= i < connections.len() ==> (#[trigger] connections[i]).id == participants[i].id
            && connections[i].info.connected_at == participants[i].connected_at
}

impl StoreModel {
    /// The identifiers with a registered connection, in registration order.
    pub open spec fn connected_ids(self) -> Seq<Seq<char>> {
        self.connections.map_values(|c: ConnectionModel| c.id)
    }

    /// Whether a connection is registered under `id`.
    pub open spec fn is_connected(self, id: Seq<char>) -> bool {
        self.connected_ids().contains(id)
    }

    /// The registry mirrors the participants: same length, and at each
    /// position the same identifier and the same connection time.
    pub open spec fn registry_matches_room(self) -> bool {
        mirrors(self.connections, self.room.participants)
    }

    /// What holds of a store between any two operations: both sequences
    /// within their capacities, no identifier twice, and a connection
    /// registered for exactly the participants.
    pub open spec fn consistent(self) -> bool {
        &&& self.room.within_capacity()
        &&& self.room.distinct_ids()
        &&& self.registry_matches_room()
    }

    /// The connected identifiers other than `id`.
    pub open spec fn peers_of(self, id: Seq<char>) -> Seq<Seq<char>> {
        ids_except(self.connected_ids(), id)
    }

    /// The state once `id` has joined with `info`.
    pub open spec fn joined(self, id: Seq<char>, info: ClientInfo) -> StoreModel {
        StoreModel {
            room: self.room.with_participant(
                ParticipantModel { id, connected_at: info.connected_at },
            ),
            connections: self.connections.push(ConnectionModel { id, info }),
        }
    }

    /// The state once `id` has left.
    pub open spec fn left(self, id: Seq<char>) -> StoreModel {
        StoreModel {
            room: self.room.without_participant(id),
            connections: self.connections.filter(connection_other_than(id)),
        }
    }

    /// The state once `message` has been recorded.
    pub open spec fn recorded(self, message: MessageModel) -> StoreModel {
        StoreModel { room: self.room.with_message(message), connections: self.connections }
    }

    /// Whether connecting `id` is refused, and why. A duplicate is reported
    /// before a full room.
    pub open spec fn connect_result(self, id: Seq<char>) -> Result<(), RepositoryFailure> {
        if self.is_connected(id) {
            Err(RepositoryFailure::DuplicateParticipant(id))
        } else if self.room.is_full() {
            Err(
                RepositoryFailure::CapacityExceeded {
                    capacity: self.room.participant_capacity,
                    current: self.room.participants.len() as usize,
                },
            )
        } else {
            Ok(())
        }
    }

    /// What disconnecting `id` returns: the identifiers that remain
    /// connected, or the refusal when `id` is not connected.
    pub open spec fn disconnect_result(self, id: Seq<char>) -> Result<
        Seq<Seq<char>>,
        RepositoryFailure,
    > {
        if self.is_connected(id) {
            Ok(self.left(id).connected_ids())
        } else {
            Err(RepositoryFailure::ClientInfoNotFound(id))
        }
    }

    /// What sending a message from `from` returns: the connected identifiers
    /// other than the sender, or the refusal when the history is full.
    pub open spec fn send_result(self, from: Seq<char>) -> Result<
        Seq<Seq<char>>,
        RepositoryFailure,
    > {
        if self.room.history_is_full() {
            Err(
                RepositoryFailure::MessageCapacityExceeded {
                    capacity: self.room.message_capacity,
                    current: self.room.messages.len() as usize,
                },
            )
        } else {
            Ok(self.peers_of(from))
        }
    }

    /// Whether `operation` is refused in this state.
    pub open spec fn refuses(self, operation: Operation) -> bool {
        match operation {
            Operation::Connect { id, info } => self.connect_result(id) is Err,
            Operation::Disconnect { id } => self.disconnect_result(id) is Err,
            Operation::Send { message } => self.send_result(message.from) is Err,
        }
    }

    /// The state after `operation`. A refused operation has no effect, in
    /// part or in whole: it leaves the state exactly as it was.
    pub open spec fn step(self, operation: Operation) -> StoreModel {
        if self.refuses(operation) {
            self
        } else {
            match operation {
                Operation::Connect { id, info } => self.joined(id, info),
                Operation::Disconnect { id } => self.left(id),
                Operation::Send { message } => self.recorded(message),
            }
        }
    }

    /// The state after the operations of `operations`, applied in order.
    pub open spec fn run(self, operations: Seq<Operation>) -> StoreModel
        decreases operations.len(),
    {
        if operations.len() == 0 {
            self
        } else {
            self.run(operations.drop_last()).step(operations.last())
        }
    }
}

/// Whether `res` is the exec form of `expected`: the same refusal, or a
/// success with the same identifiers in the same order.
pub open spec fn is_peer_result(
    res: Result<Vec<String>, RepositoryError>,
    expected: Result<Seq<Seq<char>>, RepositoryFailure>,
) -> bool {
    match res {
        Ok(peers) => expected == Ok::<Seq<Seq<char>>, RepositoryFailure>(peers.deep_view()),
        Err(e) => expected == Err::<Seq<Seq<char>>, RepositoryFailure>(e@),
    }
}

/// Whether `res` is the exec form of `expected`.
pub open spec fn is_unit_result(
    res: Result<(), RepositoryError>,
    expected: Result<(), RepositoryFailure>,
) -> bool {
    match res {
        Ok(_) => expected is Ok,
        Err(e) => expected == Err::<(), RepositoryFailure>(e@),
    }
}

/// A store of the single room and of the live connections.
///
/// Each method is one indivisible operation: it checks, changes the room and
/// the registry together or not at all, and computes what it returns from
/// the state it leaves behind.
pub trait RoomRepository {
    /// The mathematical state of the store.
    spec fn state(&self) -> StoreModel;

    /// A copy of the room.
    fn get_room(&self) -> (res: Result<Room, RepositoryError>)
        ensures
            res is Ok,
            res->Ok_0@ == self.state().room,
    ;

    /// Connects `client_id` and registers `sender` for it.
    ///
    /// Refused when the identifier is already connected, and otherwise when
    /// the room is full.
    fn add_participant(
        &mut self,
        client_id: ClientId,
        sender: UnboundedSender<String>,
        connected_at: Timestamp,
    ) -> (res: Result<(), RepositoryError>)
        ensures
            old(self).state().consistent() ==> final(self).state().consistent(),
            is_unit_result(res, old(self).state().connect_result(client_id@)),
            final(self).state() == old(self).state().step(
                Operation::Connect {
                    id: client_id@,
                    info: ClientInfo { sender, connected_at: connected_at@ },
                },
            ),
    ;

    /// Disconnects `client_id` and returns the identifiers that remain
    /// connected.
    ///
    /// Refused when the identifier is not connected.
    fn remove_participant(&mut self, client_id: &ClientId) -> (res: Result<
        Vec<String>,
        RepositoryError,
    >)
        ensures
            old(self).state().consistent() ==> final(self).state().consistent(),
            is_peer_result(res, old(self).state().disconnect_result(client_id@)),
            final(self).state() == old(self).state().step(
                Operation::Disconnect { id: client_id@ },
            ),
    ;

    /// What is registered for `client_id`.
    fn get_client_info(&self, client_id: &ClientId) -> (res: Result<&ClientInfo, RepositoryError>)
        ensures
            match res {
                Ok(info) => exists|i: int|
                    0 <= i < self.state().connections.len() && (
                    #[trigger] self.state().connections[i]).id == client_id@ && *info
                        == self.state().connections[i].info,
                Err(e) => !self.state().is_connected(client_id@) && e@
                    == RepositoryFailure::ClientInfoNotFound(client_id@),
            },
    ;

    /// The identifiers of the live connections, in registration order.
    fn get_all_connected_client_ids(&self) -> (res: Vec<String>)
        ensures
            res.deep_view() == self.state().connected_ids(),
    ;

    /// Records a message and returns the connected identifiers other than
    /// the sender's.
    ///
    /// Refused when the history is full. The sender need not be connected.
    fn add_message(
        &mut self,
        from_client_id: ClientId,
        content: MessageContent,
        timestamp: Timestamp,
    ) -> (res: Result<Vec<String>, RepositoryError>)
        ensures
            old(self).state().consistent() ==> final(self).state().consistent(),
            is_peer_result(res, old(self).state().send_result(from_client_id@)),
            final(self).state() == old(self).state().step(
                Operation::Send {
                    message: MessageModel {
                        from: from_client_id@,
                        content: content@,
                        timestamp: timestamp@,
                    },
                },
            ),
    ;

    /// The number of live connections.
    fn count_connected_clients(&self) -> (res: usize)
        ensures
            res == self.state().connections.len(),
    ;

    /// Copies of the participants, in the order they joined.
    fn get_participants(&self) -> (res: Vec<Participant>)
        ensures
            participant_models(res@) == self.state().room.participants,
    ;
}

} // verus!
