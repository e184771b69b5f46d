//! Answers of the listing endpoints.

use vstd::prelude::*;

verus! {

/// A room as the list of rooms shows it.
#[derive(Debug)]
pub struct RoomSummaryDto {
    /// Identifier of the room.
    pub id: String,
    /// Identifiers of the participants, in the order they joined.
    pub participants: Vec<String>,
    /// When the room was created, as RFC 3339 text.
    pub created_at: String,
}

/// A room as its detail page shows it.
#[derive(Debug)]
pub struct RoomDetailDto {
    /// Identifier of the room.
    pub id: String,
    /// The participants, in the order they joined.
    pub participants: Vec<ParticipantDetailDto>,
    /// When the room was created, as RFC 3339 text.
    pub created_at: String,
}

/// A participant as the detail page of a room shows it.
#[derive(Debug)]
pub struct ParticipantDetailDto {
    /// Identifier of the participant.
    pub client_id: String,
    /// When the participant connected, as RFC 3339 text.
    pub connected_at: String,
}

} // verus!
