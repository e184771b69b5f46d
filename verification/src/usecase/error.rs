//! Errors of the use cases.

use vstd::prelude::*;

use crate::domain::repository::RepositoryFailure;

verus! {

/// Why a connection attempt failed. Either reason ends the attempt.
#[derive(Debug, PartialEq, Eq)]
pub enum ConnectError {
    /// A client with this identifier is already connected.
    DuplicateClientId(String),
    /// The room already holds `capacity` participants.
    RoomCapacityExceeded { capacity: usize, current: usize },
}

impl View for ConnectError {
    type V = RepositoryFailure;

    /// The refusal of the store that the error reports.
    open spec fn view(&self) -> RepositoryFailure {
        match *self {
            ConnectError::DuplicateClientId(id) => RepositoryFailure::DuplicateParticipant(id@),
            ConnectError::RoomCapacityExceeded { capacity, current } => {
                RepositoryFailure::CapacityExceeded { capacity, current }
            },
        }
    }
}

/// Why a message was not sent. It is reported to the sender only.
#[derive(Debug, PartialEq, Eq)]
pub enum SendMessageError {
    /// The history already holds `capacity` messages.
    MessageCapacityExceeded { capacity: usize, current: usize },
}

impl View for SendMessageError {
    type V = RepositoryFailure;

    /// The refusal of the store that the error reports.
    open spec fn view(&self) -> RepositoryFailure {
        match *self {
            SendMessageError::MessageCapacityExceeded { capacity, current } => {
                RepositoryFailure::MessageCapacityExceeded { capacity, current }
            },
        }
    }
}

} // verus!
