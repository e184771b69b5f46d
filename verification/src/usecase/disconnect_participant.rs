//! Use case: a participant disconnects.

use vstd::prelude::*;

use crate::domain::consistency::{lemma_ids_except, lemma_removal_of_ids};
use crate::domain::repository::{ids_except, Operation, RepositoryFailure, RoomRepository};
use crate::domain::value_object::ClientId;

verus! {

/// Releases the slot of a participant and tells whom to notify.
pub struct DisconnectParticipantUseCase;

impl DisconnectParticipantUseCase {
    /// The use case.
    pub fn new() -> Self {
        DisconnectParticipantUseCase
    }

    /// Disconnects `client_id` and returns the identifiers to notify:
    /// everyone who is still connected once it has left.
    ///
    /// An identifier that is not connected is an error, and nothing changes.
    pub fn execute<R: RoomRepository>(&self, repository: &mut R, client_id: ClientId) -> (res:
        Result<Vec<String>, ()>)
        ensures
            old(repository).state().consistent() ==> final(repository).state().consistent(),
            match res {
                Ok(targets) => old(repository).state().disconnect_result(client_id@) == Ok::<
                    Seq<Seq<char>>,
                    RepositoryFailure,
                >(targets.deep_view()) && targets.deep_view() == old(repository).state().peers_of(
                    client_id@,
                ) && !targets.deep_view().contains(client_id@),
                Err(_) => old(repository).state().disconnect_result(client_id@) is Err,
            },
            final(repository).state() == old(repository).state().step(
                Operation::Disconnect { id: client_id@ },
            ),
    {
        proof {
            lemma_removal_of_ids(repository.state().connections, client_id@);
            lemma_ids_except(repository.state().connected_ids(), client_id@);
        }
        match repository.remove_participant(&client_id) {
            Ok(targets) => Ok(targets),
            Err(_) => Err(()),
        }
    }

    /// The connected identifiers other than `exclude_client_id`, in the
    /// order they connected.
    pub fn get_notify_targets<R: RoomRepository>(
        &self,
        repository: &R,
        exclude_client_id: &str,
    ) -> (res: Vec<String>)
        ensures
            res.deep_view() == repository.state().peers_of(exclude_client_id@),
            !res.deep_view().contains(exclude_client_id@),
    {
        let all_client_ids = repository.get_all_connected_client_ids();
        let excluded = exclude_client_id.to_owned();
        let ghost ids = all_client_ids.deep_view();
        let mut targets: Vec<String> = Vec::new();
        let mut i: usize = 0;
        proof {
            reveal(Seq::filter);
            lemma_ids_except(ids, exclude_client_id@);
            assert(targets.deep_view() =~= ids_except(ids.subrange(0, 0), exclude_client_id@));
        }
        while i < all_client_ids.len()
            invariant
                0 <= i <= all_client_ids.len(),
                ids == all_client_ids.deep_view(),
                excluded@ == exclude_client_id@,
                targets.deep_view() == ids_except(ids.subrange(0, i as int), exclude_client_id@),
            decreases all_client_ids.len() - i,
        {
            let ghost collected = targets.deep_view();
            proof {
                reveal(Seq::filter);
                assert(ids.subrange(0, i + 1).drop_last() =~= ids.subrange(0, i as int));
            }
            if !(all_client_ids[i] == excluded) {
                targets.push(all_client_ids[i].clone());
                assert(targets.deep_view() =~= collected.push(ids[i as int]));
            }
            i = i + 1;
        }
        assert(ids.subrange(0, i as int) =~= ids);
        targets
    }

    /// The number of participants that are connected.
    pub fn count_remaining_participants<R: RoomRepository>(&self, repository: &R) -> (res: usize)
        ensures
            res == repository.state().connections.len(),
    {
        repository.count_connected_clients()
    }
}

} // verus!
