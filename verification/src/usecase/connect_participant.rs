//! Use case: a client connects.

use tokio::sync::mpsc::UnboundedSender;
use vstd::pervasive::unreached;
use vstd::prelude::*;
use vstd::seq_lib::{to_multiset_build, to_multiset_insert};

use super::error::ConnectError;
use crate::domain::entity::{ids_distinct, participant_models, ParticipantModel};
use crate::domain::repository::{
    Operation, RepositoryError, RepositoryFailure, RoomRepository,
};
use crate::domain::text_order::{
    is_text_le, lemma_text_le_antisymmetric, lemma_text_le_total, lemma_text_le_transitive,
    text_le,
};
use crate::domain::value_object::{ClientId, Timestamp};
use crate::infrastructure::dto::websocket::{participant_info_models, ParticipantInfo};
use crate::time::get_jst_timestamp;
use crate::ui::state::ClientInfo;

verus! {

/// The operation of connecting `id` with the queue `sender` at
/// `connected_at`.
pub open spec fn connecting(
    id: Seq<char>,
    sender: UnboundedSender<String>,
    connected_at: i64,
) -> Operation {
    Operation::Connect { id, info: ClientInfo { sender, connected_at } }
}

/// Whether the identifiers of `list` ascend.
pub open spec fn sorted_by_id(list: Seq<ParticipantModel>) -> bool {
    forall|i: int, j: int|
        0 <= i < j < list.len() ==> text_le((#[trigger] list[i]).id, (#[trigger] list[j]).id)
}

/// A list in ascending order of identifiers is settled by who is on it: two
/// such lists of the same participants, no identifier twice, are the same
/// list, whatever order the participants joined in.
pub proof fn lemma_sorted_list_is_unique(a: Seq<ParticipantModel>, b: Seq<ParticipantModel>)
    requires
        sorted_by_id(a),
        sorted_by_id(b),
        ids_distinct(a),
        a.to_multiset() == b.to_multiset(),
    ensures
        a == b,
    decreases a.len(),
{
    a.to_multiset_ensures();
    b.to_multiset_ensures();
    if a.len() == 0 {
        assert(a =~= b);
    } else {
        // The first of each list is somewhere on the other.
        assert(a.len() == b.len());
        assert(a.contains(a[0]));
        assert(b.contains(b[0]));
        assert(a.to_multiset().count(a[0]) > 0);
        assert(b.to_multiset().count(b[0]) > 0);
        assert(b.contains(a[0]));
        assert(a.contains(b[0]));
        let k = choose|k: int| 0 <= k < b.len() && b[k] == a[0];
        let m = choose|m: int| 0 <= m < a.len() && a[m] == b[0];
        if k > 0 && m > 0 {
            assert(text_le(b[0].id, b[k].id));
            assert(text_le(a[0].id, a[m].id));
            lemma_text_le_antisymmetric(a[0].id, b[0].id);
            assert(a[0].id == a[m].id);
        }
        assert(a[0] == b[0]);
        let rest_a = a.drop_first();
        let rest_b = b.drop_first();
        assert(rest_a =~= a.remove(0));
        assert(rest_b =~= b.remove(0));
        assert(rest_a.to_multiset() == rest_b.to_multiset());
        assert forall|i: int, j: int| 0 <= i < j < rest_a.len() implies text_le(
            (#[trigger] rest_a[i]).id,
            (#[trigger] rest_a[j]).id,
        ) && rest_a[i].id != rest_a[j].id by {
            assert(rest_a[i] == a[i + 1] && rest_a[j] == a[j + 1]);
        }
        assert forall|i: int, j: int| 0 <= i < j < rest_b.len() implies text_le(
            (#[trigger] rest_b[i]).id,
            (#[trigger] rest_b[j]).id,
        ) by {
            assert(rest_b[i] == b[i + 1] && rest_b[j] == b[j + 1]);
        }
        lemma_sorted_list_is_unique(rest_a, rest_b);
        assert(a =~= seq![a[0]] + rest_a);
        assert(b =~= seq![b[0]] + rest_b);
    }
}

/// Admits a client to the room and lists who is in it.
pub struct ConnectParticipantUseCase;

impl ConnectParticipantUseCase {
    /// The use case.
    pub fn new() -> Self {
        ConnectParticipantUseCase
    }

    /// Connects `client_id` as of now and registers `sender` for it.
    ///
    /// An identifier that is already connected is refused, and otherwise a
    /// full room refuses; either way nothing changes. The connection time is
    /// read from the clock, so it is the one thing left open.
    pub fn execute<R: RoomRepository>(
        &self,
        repository: &mut R,
        client_id: ClientId,
        sender: UnboundedSender<String>,
    ) -> (res: Result<(), ConnectError>)
        ensures
            old(repository).state().consistent() ==> final(repository).state().consistent(),
            match res {
                Ok(_) => old(repository).state().connect_result(client_id@) is Ok,
                Err(e) => old(repository).state().connect_result(client_id@) == Err::<
                    (),
                    RepositoryFailure,
                >(e@),
            },
            exists|connected_at: i64|
                final(repository).state() == old(repository).state().step(
                    #[trigger] connecting(client_id@, sender, connected_at),
                ),
    {
        let connected_at = Timestamp::new(get_jst_timestamp());
        self.execute_at(repository, client_id, sender, connected_at)
    }

    /// Connects `client_id` as of `connected_at` and registers `sender` for
    /// it.
    ///
    /// An identifier that is already connected is refused, and otherwise a
    /// full room refuses; either way nothing changes.
    pub fn execute_at<R: RoomRepository>(
        &self,
        repository: &mut R,
        client_id: ClientId,
        sender: UnboundedSender<String>,
        connected_at: Timestamp,
    ) -> (res: Result<(), ConnectError>)
        ensures
            old(repository).state().consistent() ==> final(repository).state().consistent(),
            match res {
                Ok(_) => old(repository).state().connect_result(client_id@) is Ok,
                Err(e) => old(repository).state().connect_result(client_id@) == Err::<
                    (),
                    RepositoryFailure,
                >(e@),
            },
            final(repository).state() == old(repository).state().step(
                connecting(client_id@, sender, connected_at@),
            ),
    {
        match repository.add_participant(client_id, sender, connected_at) {
            Ok(_) => Ok(()),
            Err(RepositoryError::DuplicateParticipant(id)) => Err(
                ConnectError::DuplicateClientId(id),
            ),
            Err(RepositoryError::CapacityExceeded { capacity, current }) => Err(
                ConnectError::RoomCapacityExceeded { capacity, current },
            ),
            // The store refuses a connection for these two reasons only.
            Err(_) => unreached(),
        }
    }

    /// The participants as shown to clients, in ascending order of their
    /// identifiers whatever the order they joined in.
    pub fn build_participant_list<R: RoomRepository>(&self, repository: &R) -> (res: Vec<
        ParticipantInfo,
    >)
        ensures
            sorted_by_id(participant_info_models(res@)),
            participant_info_models(res@).to_multiset()
                == repository.state().room.participants.to_multiset(),
    {
        let participants = repository.get_participants();
        let ghost joined = participant_models(participants@);
        let mut list: Vec<ParticipantInfo> = Vec::new();
        let mut i: usize = 0;
        assert(participant_info_models(list@).to_multiset() =~= joined.subrange(
            0,
            0,
        ).to_multiset()) by {
            assert(participant_info_models(list@) =~= joined.subrange(0, 0));
        }
        while i < participants.len()
            invariant
                0 <= i <= participants.len(),
                joined == participant_models(participants@),
                sorted_by_id(participant_info_models(list@)),
                participant_info_models(list@).to_multiset() == joined.subrange(
                    0,
                    i as int,
                ).to_multiset(),
            decreases participants.len() - i,
        {
            let info = ParticipantInfo {
                client_id: participants[i].id.clone().into_string(),
                connected_at: participants[i].connected_at.value(),
            };
            let ghost placed = participant_info_models(list@);
            let mut k: usize = 0;
            let mut searching = true;
            while searching && k < list.len()
                invariant
                    0 <= k <= list.len(),
                    placed == participant_info_models(list@),
                    forall|j: int| 0 <= j < k ==> text_le((#[trigger] placed[j]).id, info@.id),
                    !searching ==> k < list.len() && !text_le(placed[k as int].id, info@.id),
                decreases list.len() - k + if searching { 1int } else { 0int },
            {
                if is_text_le(list[k].client_id.as_str(), info.client_id.as_str()) {
                    k = k + 1;
                } else {
                    searching = false;
                }
            }
            proof {
                assert forall|j: int| k <= j < placed.len() implies text_le(
                    info@.id,
                    (#[trigger] placed[j]).id,
                ) by {
                    lemma_text_le_total(placed[k as int].id, info@.id);
                    if k < j {
                        lemma_text_le_transitive(info@.id, placed[k as int].id, placed[j].id);
                    }
                }
                to_multiset_insert(placed, k as int, info@);
                to_multiset_build(joined.subrange(0, i as int), joined[i as int]);
                assert(joined.subrange(0, i + 1) =~= joined.subrange(0, i as int).push(
                    joined[i as int],
                ));
            }
            list.insert(k, info);
            assert(participant_info_models(list@) =~= placed.insert(k as int, info@));
            i = i + 1;
        }
        assert(joined.subrange(0, i as int) =~= joined);
        list
    }
}

} // verus!
