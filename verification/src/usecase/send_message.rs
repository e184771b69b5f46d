//! Use case: a participant sends a message.

use vstd::prelude::*;
use vstd::pervasive::unreached;

use super::error::SendMessageError;
use crate::domain::consistency::lemma_ids_except;
use crate::domain::entity::MessageModel;
use crate::domain::repository::{
    ids_except, Operation, RepositoryError, RepositoryFailure, RoomRepository,
};
use crate::domain::value_object::{ClientId, MessageContent, Timestamp};
use crate::time::get_jst_timestamp;

verus! {

/// Records a message and tells whom to deliver it to.
pub struct SendMessageUseCase;

impl SendMessageUseCase {
    /// The use case.
    pub fn new() -> Self {
        SendMessageUseCase
    }

    /// Records the message as sent now and returns the identifiers to
    /// deliver it to: everyone connected but the sender.
    ///
    /// A full history refuses the message and stays as it was. The time
    /// recorded is read from the clock, so it is the one thing left open.
    pub fn execute<R: RoomRepository>(
        &self,
        repository: &mut R,
        from_client_id: ClientId,
        content: MessageContent,
    ) -> (res: Result<Vec<String>, SendMessageError>)
        ensures
            old(repository).state().consistent() ==> final(repository).state().consistent(),
            match res {
                Ok(targets) => old(repository).state().send_result(from_client_id@) == Ok::<
                    Seq<Seq<char>>,
                    RepositoryFailure,
                >(targets.deep_view()) && !targets.deep_view().contains(from_client_id@),
                Err(e) => old(repository).state().send_result(from_client_id@) == Err::<
                    Seq<Seq<char>>,
                    RepositoryFailure,
                >(e@),
            },
            exists|timestamp: i64|
                final(repository).state() == old(repository).state().step(
                    #[trigger] sending(from_client_id@, content@, timestamp),
                ),
    {
        let timestamp = Timestamp::new(get_jst_timestamp());
        self.execute_at(repository, from_client_id, content, timestamp)
    }

    /// Records the message as sent at `timestamp` and returns the
    /// identifiers to deliver it to: everyone connected but the sender.
    ///
    /// A full history refuses the message and stays as it was.
    pub fn execute_at<R: RoomRepository>(
        &self,
        repository: &mut R,
        from_client_id: ClientId,
        content: MessageContent,
        timestamp: Timestamp,
    ) -> (res: Result<Vec<String>, SendMessageError>)
        ensures
            old(repository).state().consistent() ==> final(repository).state().consistent(),
            match res {
                Ok(targets) => old(repository).state().send_result(from_client_id@) == Ok::<
                    Seq<Seq<char>>,
                    RepositoryFailure,
                >(targets.deep_view()) && !targets.deep_view().contains(from_client_id@),
                Err(e) => old(repository).state().send_result(from_client_id@) == Err::<
                    Seq<Seq<char>>,
                    RepositoryFailure,
                >(e@),
            },
            final(repository).state() == old(repository).state().step(
                sending(from_client_id@, content@, timestamp@),
            ),
    {
        proof {
            lemma_ids_except(repository.state().connected_ids(), from_client_id@);
        }
        match repository.add_message(from_client_id, content, timestamp) {
            Ok(targets) => Ok(targets),
            Err(RepositoryError::MessageCapacityExceeded { capacity, current }) => Err(
                SendMessageError::MessageCapacityExceeded { capacity, current },
            ),
            // The store refuses a message for want of room only.
            Err(_) => unreached(),
        }
    }

    /// The connected identifiers other than `exclude_client_id`, in the
    /// order they connected.
    pub fn get_broadcast_targets<R: RoomRepository>(
        &self,
        repository: &R,
        exclude_client_id: &str,
    ) -> (res: Vec<String>)
        ensures
            res.deep_view() == repository.state().peers_of(exclude_client_id@),
            !res.deep_view().contains(exclude_client_id@),
    {
        let all_client_ids = repository.get_all_connected_client_ids();
        let excluded = exclude_client_id.to_owned();
        let ghost ids = all_client_ids.deep_view();
        let mut targets: Vec<String> = Vec::new();
        let mut i: usize = 0;
        proof {
            reveal(Seq::filter);
            lemma_ids_except(ids, exclude_client_id@);
            assert(targets.deep_view() =~= ids_except(ids.subrange(0, 0), exclude_client_id@));
        }
        while i < all_client_ids.len()
            invariant
                0 <= i <= all_client_ids.len(),
                ids == all_client_ids.deep_view(),
                excluded@ == exclude_client_id@,
                targets.deep_view() == ids_except(ids.subrange(0, i as int), exclude_client_id@),
            decreases all_client_ids.len() - i,
        {
            let ghost collected = targets.deep_view();
            proof {
                reveal(Seq::filter);
                assert(ids.subrange(0, i + 1).drop_last() =~= ids.subrange(0, i as int));
            }
            if !(all_client_ids[i] == excluded) {
                targets.push(all_client_ids[i].clone());
                assert(targets.deep_view() =~= collected.push(ids[i as int]));
            }
            i = i + 1;
        }
        assert(ids.subrange(0, i as int) =~= ids);
        targets
    }
}

/// The operation of sending `content` from `from` at `timestamp`.
pub open spec fn sending(from: Seq<char>, content: Seq<char>, timestamp: i64) -> Operation {
    Operation::Send { message: MessageModel { from, content, timestamp } }
}

} // verus!
