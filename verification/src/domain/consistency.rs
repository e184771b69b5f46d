//! What holds of the room store in every state it can reach.

use vstd::prelude::*;

use super::entity::{ids_distinct, other_than, precedes, MessageModel, ParticipantModel};
use super::repository::{
    connection_other_than, ids_except, mirrors, ConnectionModel, Operation, RepositoryFailure,
    StoreModel,
};
use crate::ui::state::ClientInfo;

verus! {

/// Removing an identifier keeps the order of the participants that stay:
/// each of them was there before, is not the one removed, and any two of
/// them stand as they stood.
pub proof fn lemma_removal_keeps_order(participants: Seq<ParticipantModel>, id: Seq<char>)
    ensures
        participants.filter(other_than(id)).len() <= participants.len(),
        forall|k: int|
            0 <= k < participants.filter(other_than(id)).len() ==> (
            #[trigger] participants.filter(other_than(id))[k]).id != id
                && participants.contains(participants.filter(other_than(id))[k]),
        forall|p: ParticipantModel|
            participants.contains(p) && p.id != id ==> #[trigger] participants.filter(
                other_than(id),
            ).contains(p),
        forall|a: Seq<char>, b: Seq<char>|
            precedes(participants.filter(other_than(id)), a, b) ==> #[trigger] precedes(
                participants,
                a,
                b,
            ),
    decreases participants.len(),
{
    reveal(Seq::filter);
    let kept = participants.filter(other_than(id));
    if participants.len() > 0 {
        let front = participants.drop_last();
        let last = participants.last();
        let kept_front = front.filter(other_than(id));
        lemma_removal_keeps_order(front, id);
        assert forall|k: int| 0 <= k < kept.len() implies (#[trigger] kept[k]).id != id
            && participants.contains(kept[k]) by {
            if k < kept_front.len() {
                assert(kept[k] == kept_front[k]);
                let w = choose|w: int| 0 <= w < front.len() && front[w] == kept_front[k];
                assert(participants[w] == kept[k]);
            } else {
                assert(kept[k] == last);
                assert(participants[participants.len() - 1] == last);
            }
        }
        assert forall|p: ParticipantModel| participants.contains(p) && p.id != id implies (
        #[trigger] kept.contains(p)) by {
            let w = choose|w: int| 0 <= w < participants.len() && participants[w] == p;
            if w < front.len() {
                assert(front[w] == p);
                assert(kept_front.contains(p));
                let k = choose|k: int| 0 <= k < kept_front.len() && kept_front[k] == p;
                assert(kept[k] == p);
            } else {
                assert(kept[kept.len() - 1] == p);
            }
        }
        assert forall|a: Seq<char>, b: Seq<char>| precedes(kept, a, b) implies #[trigger] precedes(
            participants,
            a,
            b,
        ) by {
            let (i, j) = choose|i: int, j: int|
                0 <= i < j < kept.len() && (#[trigger] kept[i]).id == a && (#[trigger] kept[j]).id
                    == b;
            if j < kept_front.len() {
                assert(kept_front[i].id == a && kept_front[j].id == b);
                assert(precedes(kept_front, a, b));
                assert(precedes(front, a, b));
                let (x, y) = choose|x: int, y: int|
                    0 <= x < y < front.len() && (#[trigger] front[x]).id == a && (
                    #[trigger] front[y]).id == b;
                assert(participants[x].id == a && participants[y].id == b);
            } else {
                assert(kept[j] == last);
                assert(kept[i] == kept_front[i]);
                let x = choose|x: int| 0 <= x < front.len() && front[x] == kept_front[i];
                assert(participants[x].id == a && participants[participants.len() - 1].id == b);
            }
        }
    }
}

/// Removing an identifier from participants that are pairwise distinct
/// leaves them pairwise distinct.
pub proof fn lemma_removal_keeps_distinct(participants: Seq<ParticipantModel>, id: Seq<char>)
    requires
        ids_distinct(participants),
    ensures
        ids_distinct(participants.filter(other_than(id))),
{
    let kept = participants.filter(other_than(id));
    lemma_removal_keeps_order(participants, id);
    assert forall|i: int, j: int| 0 <= i < j < kept.len() implies (#[trigger] kept[i]).id != (
    #[trigger] kept[j]).id by {
        if kept[i].id == kept[j].id {
            assert(precedes(kept, kept[i].id, kept[j].id));
            assert(precedes(participants, kept[i].id, kept[j].id));
        }
    }
}

/// A registry that mirrors the participants still mirrors them once the same
/// identifier has been removed from both.
pub proof fn lemma_removal_keeps_mirror(
    connections: Seq<ConnectionModel>,
    participants: Seq<ParticipantModel>,
    id: Seq<char>,
)
    requires
        mirrors(connections, participants),
    ensures
        mirrors(
            connections.filter(connection_other_than(id)),
            participants.filter(other_than(id)),
        ),
    decreases participants.len(),
{
    reveal(Seq::filter);
    if participants.len() > 0 {
        assert(connections.last().id == participants.last().id);
        lemma_removal_keeps_mirror(connections.drop_last(), participants.drop_last(), id);
    }
}

/// The identifiers of the registry after a removal are the identifiers
/// before it, less the one removed.
pub proof fn lemma_removal_of_ids(connections: Seq<ConnectionModel>, id: Seq<char>)
    ensures
        connections.filter(connection_other_than(id)).map_values(|c: ConnectionModel| c.id)
            == ids_except(connections.map_values(|c: ConnectionModel| c.id), id),
    decreases connections.len(),
{
    reveal(Seq::filter);
    let ids = connections.map_values(|c: ConnectionModel| c.id);
    if connections.len() == 0 {
        assert(connections.filter(connection_other_than(id)).map_values(|c: ConnectionModel| c.id)
            =~= ids_except(ids, id));
    } else {
        lemma_removal_of_ids(connections.drop_last(), id);
        assert(connections.drop_last().map_values(|c: ConnectionModel| c.id) =~= ids.drop_last());
        assert(connections.filter(connection_other_than(id)).map_values(|c: ConnectionModel| c.id)
            =~= ids_except(ids, id));
    }
}

/// In a store whose registry mirrors its room, the registered identifiers
/// are the participants' identifiers, one for one and in the same order: no
/// connection without a participant, and no participant without a
/// connection.
pub proof fn lemma_registry_is_membership(s: StoreModel)
    requires
        s.registry_matches_room(),
    ensures
        s.connected_ids() == s.room.participant_ids(),
        s.connected_ids().to_set() == s.room.participant_ids().to_set(),
        forall|id: Seq<char>| #[trigger] s.is_connected(id) <==> s.room.has_participant(id),
{
    assert(s.connected_ids() =~= s.room.participant_ids());
    assert forall|id: Seq<char>| #[trigger] s.is_connected(id) <==> s.room.has_participant(id) by {
        if s.is_connected(id) {
            let i = choose|i: int| 0 <= i < s.connected_ids().len() && s.connected_ids()[i] == id;
            assert(s.room.participants[i].id == id);
        }
        if s.room.has_participant(id) {
            let i = choose|i: int|
                0 <= i < s.room.participants.len() && #[trigger] s.room.participants[i].id == id;
            assert(s.connected_ids()[i] == id);
        }
    }
}

/// The identifiers other than `id` do not include `id`, and include every
/// other identifier of `ids`.
pub proof fn lemma_ids_except(ids: Seq<Seq<char>>, id: Seq<char>)
    ensures
        !ids_except(ids, id).contains(id),
        forall|other: Seq<char>|
            ids.contains(other) && other != id <==> #[trigger] ids_except(ids, id).contains(other),
    decreases ids.len(),
{
    reveal(Seq::filter);
    let kept = ids_except(ids, id);
    if ids.len() > 0 {
        let front = ids.drop_last();
        let kept_front = ids_except(front, id);
        lemma_ids_except(front, id);
        if kept.contains(id) {
            let k = choose|k: int| 0 <= k < kept.len() && kept[k] == id;
            if k < kept_front.len() {
                assert(kept_front[k] == id);
            }
        }
        assert forall|other: Seq<char>|
            ids.contains(other) && other != id <==> #[trigger] kept.contains(other) by {
            if ids.contains(other) && other != id {
                let w = choose|w: int| 0 <= w < ids.len() && ids[w] == other;
                if w < front.len() {
                    assert(front[w] == other);
                    assert(kept_front.contains(other));
                    let k = choose|k: int| 0 <= k < kept_front.len() && kept_front[k] == other;
                    assert(kept[k] == other);
                } else {
                    assert(kept[kept.len() - 1] == other);
                }
            }
            if kept.contains(other) {
                let k = choose|k: int| 0 <= k < kept.len() && kept[k] == other;
                if k < kept_front.len() {
                    assert(kept_front[k] == other);
                    assert(kept_front.contains(other));
                    let w = choose|w: int| 0 <= w < front.len() && front[w] == other;
                    assert(ids[w] == other);
                } else {
                    assert(ids[ids.len() - 1] == other);
                }
            }
        }
    }
}

/// Whether `operation` disconnects `id`.
pub open spec fn disconnects(operation: Operation, id: Seq<char>) -> bool {
    operation matches Operation::Disconnect { id: gone } && gone == id
}

/// Whether `operation` asks to connect `id`.
pub open spec fn connects(operation: Operation, id: Seq<char>) -> bool {
    operation matches Operation::Connect { id: newcomer, .. } && newcomer == id
}

/// One operation, accepted or refused, leaves a consistent store
/// consistent: both sequences stay within their capacities, the identifiers
/// stay pairwise distinct, and the registry still holds a connection for
/// exactly the participants. The order of arrival is kept: the history only
/// grows at its end, and any two participants who were in the room before
/// and are in it after stand in the order they stood in.
pub proof fn lemma_step_keeps_consistent(s: StoreModel, operation: Operation)
    requires
        s.consistent(),
    ensures
        s.step(operation).consistent(),
        s.step(operation).connected_ids().to_set() == s.step(
            operation,
        ).room.participant_ids().to_set(),
        s.room.messages.is_prefix_of(s.step(operation).room.messages),
        forall|a: Seq<char>, b: Seq<char>|
            s.room.has_participant(a) && s.room.has_participant(b) && #[trigger] precedes(
                s.step(operation).room.participants,
                a,
                b,
            ) ==> precedes(s.room.participants, a, b),
        s.step(operation).room.id == s.room.id,
        s.step(operation).room.created_at == s.room.created_at,
        s.step(operation).room.participant_capacity == s.room.participant_capacity,
        s.step(operation).room.message_capacity == s.room.message_capacity,
{
    let t = s.step(operation);
    lemma_registry_is_membership(s);
    match operation {
        Operation::Connect { id, info } => {
            if s.connect_result(id) is Ok {
                assert forall|i: int, j: int| 0 <= i < j < t.room.participants.len() implies (
                #[trigger] t.room.participants[i]).id != (#[trigger] t.room.participants[j]).id by {
                    if j == s.room.participants.len() {
                        assert(s.room.participants[i].id != id);
                    }
                }
                assert forall|a: Seq<char>, b: Seq<char>|
                    s.room.has_participant(a) && s.room.has_participant(b) && #[trigger] precedes(
                        t.room.participants,
                        a,
                        b,
                    ) implies precedes(s.room.participants, a, b) by {
                    let (i, j) = choose|i: int, j: int|
                        0 <= i < j < t.room.participants.len() && (
                        #[trigger] t.room.participants[i]).id == a && (
                        #[trigger] t.room.participants[j]).id == b;
                    assert(j < s.room.participants.len());
                    assert(s.room.participants[i].id == a && s.room.participants[j].id == b);
                }
            }
        },
        Operation::Disconnect { id } => {
            if s.disconnect_result(id) is Ok {
                lemma_removal_keeps_order(s.room.participants, id);
                lemma_removal_keeps_distinct(s.room.participants, id);
                lemma_removal_keeps_mirror(s.connections, s.room.participants, id);
            }
        },
        Operation::Send { message } => {},
    }
    lemma_registry_is_membership(t);
}

/// Whatever operations are applied to a consistent store, in whatever
/// order, the store is consistent after each of them.
pub proof fn lemma_run_keeps_consistent(s: StoreModel, operations: Seq<Operation>)
    requires
        s.consistent(),
    ensures
        forall|k: int|
            0 <= k <= operations.len() ==> (#[trigger] s.run(operations.take(k))).consistent(),
    decreases operations.len(),
{
    assert forall|k: int| 0 <= k <= operations.len() implies (#[trigger] s.run(
        operations.take(k),
    )).consistent() by {
        if k == 0 {
            assert(operations.take(0).len() == 0);
        } else if k < operations.len() {
            lemma_run_keeps_consistent(s, operations.drop_last());
            assert(operations.drop_last().take(k) =~= operations.take(k));
        } else {
            lemma_run_keeps_consistent(s, operations.drop_last());
            assert(operations.take(k) =~= operations);
            assert(operations.drop_last().take(k - 1) =~= operations.drop_last());
            lemma_step_keeps_consistent(s.run(operations.drop_last()), operations.last());
        }
    }
}

/// A connected identifier stays connected through any operation that does
/// not disconnect it.
pub proof fn lemma_step_keeps_connected(s: StoreModel, id: Seq<char>, operation: Operation)
    requires
        s.is_connected(id),
        !disconnects(operation, id),
    ensures
        s.step(operation).is_connected(id),
{
    let ids = s.connected_ids();
    let w = choose|w: int| 0 <= w < ids.len() && ids[w] == id;
    match operation {
        Operation::Connect { id: newcomer, info } => {
            if s.connect_result(newcomer) is Ok {
                assert(s.step(operation).connected_ids()[w] == id);
            }
        },
        Operation::Disconnect { id: gone } => {
            if s.disconnect_result(gone) is Ok {
                lemma_removal_of_ids(s.connections, gone);
                lemma_ids_except(ids, gone);
            }
        },
        Operation::Send { message } => {},
    }
}

/// An identifier that is not connected stays so through any operation that
/// does not ask to connect it.
pub proof fn lemma_step_keeps_unconnected(s: StoreModel, id: Seq<char>, operation: Operation)
    requires
        !s.is_connected(id),
        !connects(operation, id),
    ensures
        !s.step(operation).is_connected(id),
{
    let ids = s.connected_ids();
    let t = s.step(operation);
    if t.is_connected(id) {
        let w = choose|w: int| 0 <= w < t.connected_ids().len() && t.connected_ids()[w] == id;
        match operation {
            Operation::Connect { id: newcomer, info } => {
                if s.connect_result(newcomer) is Ok {
                    if w < ids.len() {
                        assert(ids[w] == id);
                    }
                }
            },
            Operation::Disconnect { id: gone } => {
                if s.disconnect_result(gone) is Ok {
                    lemma_removal_of_ids(s.connections, gone);
                    lemma_ids_except(ids, gone);
                }
            },
            Operation::Send { message } => {},
        }
    }
}

/// Once `id` has connected, and as long as it has not disconnected, a
/// second attempt to connect it is refused as a duplicate, and the refused
/// attempt changes nothing: the number of participants stays what it was.
pub proof fn lemma_second_connect_is_duplicate(
    s: StoreModel,
    id: Seq<char>,
    first: ClientInfo,
    between: Seq<Operation>,
    second: ClientInfo,
)
    requires
        s.connect_result(id) is Ok,
        forall|k: int| 0 <= k < between.len() ==> !disconnects(#[trigger] between[k], id),
    ensures
        ({
            let connected = s.step(Operation::Connect { id, info: first }).run(between);
            let attempted = connected.step(Operation::Connect { id, info: second });
            &&& connected.connect_result(id) == Err::<(), RepositoryFailure>(
                RepositoryFailure::DuplicateParticipant(id),
            )
            &&& attempted == connected
            &&& attempted.room.participants.len() == connected.room.participants.len()
        }),
    decreases between.len(),
{
    let joined = s.step(Operation::Connect { id, info: first });
    if between.len() == 0 {
        assert(joined.connected_ids()[s.connections.len() as int] == id);
    } else {
        assert forall|k: int| 0 <= k < between.drop_last().len() implies !disconnects(
            #[trigger] between.drop_last()[k],
            id,
        ) by {
            assert(between.drop_last()[k] == between[k]);
        }
        lemma_second_connect_is_duplicate(s, id, first, between.drop_last(), second);
        lemma_step_keeps_connected(joined.run(between.drop_last()), id, between.last());
    }
}

/// A full room refuses a newcomer, reports its capacity as both the limit
/// and the occupancy, and stays exactly as it was.
///
/// This is said of an identifier that is not connected yet: one that is
/// connected is refused as a duplicate, full room or not.
pub proof fn lemma_full_room_refuses(s: StoreModel, id: Seq<char>, info: ClientInfo)
    requires
        s.room.participants.len() == s.room.participant_capacity,
        !s.is_connected(id),
    ensures
        s.connect_result(id) == Err::<(), RepositoryFailure>(
            RepositoryFailure::CapacityExceeded {
                capacity: s.room.participant_capacity,
                current: s.room.participant_capacity,
            },
        ),
        s.step(Operation::Connect { id, info }) == s,
{
}

/// A full history refuses a message, reports its capacity as both the limit
/// and the length, and stays exactly as it was.
pub proof fn lemma_full_history_refuses(s: StoreModel, message: MessageModel)
    requires
        s.room.messages.len() == s.room.message_capacity,
    ensures
        s.send_result(message.from) == Err::<Seq<Seq<char>>, RepositoryFailure>(
            RepositoryFailure::MessageCapacityExceeded {
                capacity: s.room.message_capacity,
                current: s.room.message_capacity,
            },
        ),
        s.step(Operation::Send { message }) == s,
        s.step(Operation::Send { message }).room.messages == s.room.messages,
{
}

/// The sender of a message is never among those it is delivered to,
/// whoever is in the room; everyone else who is connected is.
pub proof fn lemma_sender_is_no_peer(s: StoreModel, from: Seq<char>)
    ensures
        !s.peers_of(from).contains(from),
        forall|other: Seq<char>|
            s.is_connected(other) && other != from <==> #[trigger] s.peers_of(from).contains(other),
        s.send_result(from) matches Ok(peers) ==> !peers.contains(from),
{
    lemma_ids_except(s.connected_ids(), from);
}

/// Disconnecting an identifier that is not connected is refused as not
/// found, and the store stays exactly as it was.
pub proof fn lemma_unknown_disconnect_refused(s: StoreModel, id: Seq<char>)
    requires
        !s.is_connected(id),
    ensures
        s.disconnect_result(id) == Err::<Seq<Seq<char>>, RepositoryFailure>(
            RepositoryFailure::ClientInfoNotFound(id),
        ),
        s.step(Operation::Disconnect { id }) == s,
{
}

/// An identifier that was never asked to connect is not connected, so
/// disconnecting it is refused as not found and changes nothing.
pub proof fn lemma_never_connected_is_not_found(
    s: StoreModel,
    id: Seq<char>,
    operations: Seq<Operation>,
)
    requires
        !s.is_connected(id),
        forall|k: int| 0 <= k < operations.len() ==> !connects(#[trigger] operations[k], id),
    ensures
        !s.run(operations).is_connected(id),
        s.run(operations).disconnect_result(id) == Err::<Seq<Seq<char>>, RepositoryFailure>(
            RepositoryFailure::ClientInfoNotFound(id),
        ),
        s.run(operations).step(Operation::Disconnect { id }) == s.run(operations),
    decreases operations.len(),
{
    if operations.len() > 0 {
        assert forall|k: int| 0 <= k < operations.drop_last().len() implies !connects(
            #[trigger] operations.drop_last()[k],
            id,
        ) by {
            assert(operations.drop_last()[k] == operations[k]);
        }
        lemma_never_connected_is_not_found(s, id, operations.drop_last());
        lemma_step_keeps_unconnected(s.run(operations.drop_last()), id, operations.last());
    }
}

} // verus!
