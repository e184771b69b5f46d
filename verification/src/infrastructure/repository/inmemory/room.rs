//! A room store that keeps the room and the registry of connections in
//! memory, side by side, and changes both in one call or neither.

use tokio::sync::mpsc::UnboundedSender;
use vstd::prelude::*;

use crate::domain::consistency::lemma_step_keeps_consistent;
use crate::domain::entity::{ChatMessage, Participant, Room};
use crate::domain::error::RoomError;
use crate::domain::repository::{
    connection_other_than, ids_except, ConnectionModel, Operation, RepositoryError,
    RepositoryFailure, RoomRepository, StoreModel,
};
use crate::domain::value_object::{ClientId, MessageContent, Timestamp};
use crate::ui::state::ClientInfo;

verus! {

/// A live connection as the registry holds it.
struct Connection {
    /// The identifier the connection is registered under.
    client_id: ClientId,
    /// What is kept for the connection.
    info: ClientInfo,
}

impl View for Connection {
    type V = ConnectionModel;

    closed spec fn view(&self) -> ConnectionModel {
        ConnectionModel { id: self.client_id@, info: self.info }
    }
}

/// The values of a sequence of connections.
spec fn connection_models(connections: Seq<Connection>) -> Seq<ConnectionModel> {
    connections.map_values(|c: Connection| c@)
}

/// The refusal of the store that stands for a refusal of the room.
fn refusal_of(error: RoomError) -> (res: RepositoryError)
    ensures
        res@ == match error {
            RoomError::CapacityExceeded { capacity, current } => {
                RepositoryFailure::CapacityExceeded { capacity, current }
            },
            RoomError::MessageCapacityExceeded { capacity, current } => {
                RepositoryFailure::MessageCapacityExceeded { capacity, current }
            },
        },
{
    match error {
        RoomError::CapacityExceeded { capacity, current } => RepositoryError::CapacityExceeded {
            capacity,
            current,
        },
        RoomError::MessageCapacityExceeded { capacity, current } => {
            RepositoryError::MessageCapacityExceeded { capacity, current }
        },
    }
}

/// The room store kept in memory.
///
/// Every operation that changes the store takes it by exclusive reference,
/// so no two of them overlap: whoever shares a store among connections puts
/// the whole of it behind one lock and holds the lock for one call.
pub struct InMemoryRoomRepository {
    /// The registry of live connections, in registration order.
    connected_clients: Vec<Connection>,
    /// The room.
    room: Room,
}

impl InMemoryRoomRepository {
    /// A store of `room` with no connection registered.
    ///
    /// The room must have no participant yet, and no more messages than it
    /// has capacity for.
    pub fn new(room: Room) -> (res: Self)
        requires
            room@.participants.len() == 0,
            room@.messages.len() <= room@.message_capacity,
        ensures
            res.state() == (StoreModel { room: room@, connections: Seq::empty() }),
            res.state().consistent(),
    {
        let res = Self { connected_clients: Vec::new(), room };
        assert(res.state().connections =~= Seq::empty());
        res
    }

    /// The position of the connection registered under `client_id`.
    fn position_of(&self, client_id: &ClientId) -> (res: Option<usize>)
        ensures
            match res {
                Some(i) => {
                    &&& i < self.state().connections.len()
                    &&& self.state().connections[i as int].id == client_id@
                    &&& self.state().is_connected(client_id@)
                },
                None => !self.state().is_connected(client_id@),
            },
    {
        let mut i: usize = 0;
        while i < self.connected_clients.len()
            invariant
                0 <= i <= self.connected_clients.len(),
                forall|j: int|
                    0 <= j < i ==> (#[trigger] self.state().connected_ids()[j]) != client_id@,
            decreases self.connected_clients.len() - i,
        {
            if self.connected_clients[i].client_id == *client_id {
                assert(self.state().connected_ids()[i as int] == client_id@);
                return Some(i);
            }
            i = i + 1;
        }
        None
    }

    /// The registered identifiers other than `excluded`, in registration
    /// order.
    fn client_ids_except(&self, excluded: &ClientId) -> (res: Vec<String>)
        ensures
            res.deep_view() == self.state().peers_of(excluded@),
    {
        let ghost ids = self.state().connected_ids();
        let mut targets: Vec<String> = Vec::new();
        let mut i: usize = 0;
        proof {
            reveal(Seq::filter);
            assert(targets.deep_view() =~= ids_except(ids.subrange(0, 0), excluded@));
        }
        while i < self.connected_clients.len()
            invariant
                0 <= i <= self.connected_clients.len(),
                ids == self.state().connected_ids(),
                targets.deep_view() == ids_except(ids.subrange(0, i as int), excluded@),
            decreases self.connected_clients.len() - i,
        {
            let ghost collected = targets.deep_view();
            proof {
                reveal(Seq::filter);
                assert(ids.subrange(0, i + 1).drop_last() =~= ids.subrange(0, i as int));
            }
            if self.connected_clients[i].client_id != *excluded {
                targets.push(self.connected_clients[i].client_id.clone().into_string());
                assert(targets.deep_view() =~= collected.push(ids[i as int]));
            }
            i = i + 1;
        }
        assert(ids.subrange(0, i as int) =~= ids);
        targets
    }

    /// Removes from the registry every connection registered under
    /// `client_id`; the others keep their order.
    fn unregister(&mut self, client_id: &ClientId)
        ensures
            final(self).room == old(self).room,
            connection_models(final(self).connected_clients@) == connection_models(
                old(self).connected_clients@,
            ).filter(connection_other_than(client_id@)),
    {
        let ghost before = connection_models(self.connected_clients@);
        let ghost keep = connection_other_than(client_id@);
        let ghost mut seen: int = 0;
        let mut i: usize = 0;
        proof {
            reveal(Seq::filter);
            assert(before.subrange(0, 0).filter(keep) =~= Seq::empty());
        }
        while i < self.connected_clients.len()
            invariant
                self.room == old(self).room,
                before == connection_models(old(self).connected_clients@),
                keep == connection_other_than(client_id@),
                0 <= i <= self.connected_clients.len(),
                i <= seen <= before.len(),
                self.connected_clients.len() - i == before.len() - seen,
                connection_models(self.connected_clients@).subrange(0, i as int)
                    == before.subrange(0, seen).filter(keep),
                connection_models(self.connected_clients@).subrange(
                    i as int,
                    self.connected_clients.len() as int,
                ) == before.subrange(seen, before.len() as int),
            decreases self.connected_clients.len() - i,
        {
            let ghost current = connection_models(self.connected_clients@);
            proof {
                reveal(Seq::filter);
                assert(current[i as int] == current.subrange(
                    i as int,
                    self.connected_clients.len() as int,
                )[0]);
                assert(before.subrange(0, seen + 1).drop_last() =~= before.subrange(0, seen));
            }
            if self.connected_clients[i].client_id == *client_id {
                self.connected_clients.remove(i);
                proof {
                    let after = connection_models(self.connected_clients@);
                    assert(after.subrange(0, i as int) =~= current.subrange(0, i as int));
                    assert(after.subrange(i as int, after.len() as int) =~= current.subrange(
                        i as int,
                        current.len() as int,
                    ).drop_first());
                    assert(before.subrange(seen + 1, before.len() as int) =~= before.subrange(
                        seen,
                        before.len() as int,
                    ).drop_first());
                    seen = seen + 1;
                }
            } else {
                proof {
                    assert(current.subrange(0, i + 1) =~= current.subrange(0, i as int).push(
                        current[i as int],
                    ));
                    assert(current.subrange(i + 1, current.len() as int) =~= current.subrange(
                        i as int,
                        current.len() as int,
                    ).drop_first());
                    assert(before.subrange(seen + 1, before.len() as int) =~= before.subrange(
                        seen,
                        before.len() as int,
                    ).drop_first());
                    seen = seen + 1;
                }
                i = i + 1;
            }
        }
        proof {
            let after = connection_models(self.connected_clients@);
            assert(after.subrange(0, i as int) =~= after);
            assert(before.subrange(0, seen) =~= before);
        }
    }
}

impl RoomRepository for InMemoryRoomRepository {
    closed spec fn state(&self) -> StoreModel {
        StoreModel { room: self.room@, connections: connection_models(self.connected_clients@) }
    }

    fn get_room(&self) -> (res: Result<Room, RepositoryError>) {
        Ok(self.room.clone())
    }

    fn add_participant(
        &mut self,
        client_id: ClientId,
        sender: UnboundedSender<String>,
        connected_at: Timestamp,
    ) -> (res: Result<(), RepositoryError>) {
        let ghost before = self.state();
        if self.position_of(&client_id).is_some() {
            return Err(RepositoryError::DuplicateParticipant(client_id.into_string()));
        }
        let participant = Participant::new(client_id.clone(), connected_at);
        match self.room.add_participant(participant) {
            Err(error) => Err(refusal_of(error)),
            Ok(_) => {
                let info = ClientInfo { sender, connected_at: connected_at.value() };
                self.connected_clients.push(Connection { client_id, info });
                proof {
                    let id = client_id@;
                    assert(self.state().connections =~= before.connections.push(
                        ConnectionModel { id, info },
                    ));
                    assert(self.state() == before.joined(id, info));
                    if before.consistent() {
                        lemma_step_keeps_consistent(before, Operation::Connect { id, info });
                    }
                }
                Ok(())
            },
        }
    }

    fn remove_participant(&mut self, client_id: &ClientId) -> (res: Result<
        Vec<String>,
        RepositoryError,
    >) {
        let ghost before = self.state();
        if self.position_of(client_id).is_none() {
            return Err(RepositoryError::ClientInfoNotFound(client_id.clone().into_string()));
        }
        self.room.remove_participant(client_id);
        self.unregister(client_id);
        proof {
            assert(self.state() == before.left(client_id@));
            if before.consistent() {
                lemma_step_keeps_consistent(before, Operation::Disconnect { id: client_id@ });
            }
        }
        let remaining = self.get_all_connected_client_ids();
        Ok(remaining)
    }

    fn get_client_info(&self, client_id: &ClientId) -> (res: Result<&ClientInfo, RepositoryError>) {
        match self.position_of(client_id) {
            Some(i) => Ok(&self.connected_clients[i].info),
            None => Err(RepositoryError::ClientInfoNotFound(client_id.clone().into_string())),
        }
    }

    fn get_all_connected_client_ids(&self) -> (res: Vec<String>) {
        let mut ids: Vec<String> = Vec::new();
        let mut i: usize = 0;
        while i < self.connected_clients.len()
            invariant
                0 <= i <= self.connected_clients.len(),
                ids.deep_view() == self.state().connected_ids().subrange(0, i as int),
            decreases self.connected_clients.len() - i,
        {
            let ghost collected = ids.deep_view();
            ids.push(self.connected_clients[i].client_id.clone().into_string());
            assert(ids.deep_view() =~= collected.push(self.state().connected_ids()[i as int]));
            i = i + 1;
        }
        assert(ids.deep_view() =~= self.state().connected_ids());
        ids
    }

    fn add_message(
        &mut self,
        from_client_id: ClientId,
        content: MessageContent,
        timestamp: Timestamp,
    ) -> (res: Result<Vec<String>, RepositoryError>) {
        let message = ChatMessage::new(from_client_id.clone(), content, timestamp);
        match self.room.add_message(message) {
            Err(error) => Err(refusal_of(error)),
            Ok(_) => Ok(self.client_ids_except(&from_client_id)),
        }
    }

    fn count_connected_clients(&self) -> (res: usize) {
        self.connected_clients.len()
    }

    fn get_participants(&self) -> (res: Vec<Participant>) {
        let copy = self.room.clone();
        copy.participants
    }
}

} // verus!
