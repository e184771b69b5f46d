//! Events exchanged with clients over a connection.

use vstd::prelude::*;

use crate::domain::entity::ParticipantModel;

verus! {

/// Kind of an event.
#[derive(Debug, Clone, Copy, PartialEq, Eq, Structural)]
pub enum MessageType {
    /// The list of participants, sent to a client that has just connected.
    RoomConnected,
    /// A participant joined.
    ParticipantJoined,
    /// A participant left.
    ParticipantLeft,
    /// A chat message.
    Chat,
}

/// A participant as shown to clients.
#[derive(Debug)]
pub struct ParticipantInfo {
    /// Identifier of the participant.
    pub client_id: String,
    /// When the participant connected, in milliseconds since the Unix epoch.
    pub connected_at: i64,
}

impl View for ParticipantInfo {
    type V = ParticipantModel;

    open spec fn view(&self) -> ParticipantModel {
        ParticipantModel { id: self.client_id@, connected_at: self.connected_at }
    }
}

/// The values of a sequence of participants as shown to clients.
pub open spec fn participant_info_models(list: Seq<ParticipantInfo>) -> Seq<ParticipantModel> {
    list.map_values(|p: ParticipantInfo| p@)
}

/// Sent once to a client that has just connected.
#[derive(Debug)]
pub struct RoomConnectedMessage {
    /// Always [`MessageType::RoomConnected`].
    pub message_type: MessageType,
    /// Everyone in the room, the new client included.
    pub participants: Vec<ParticipantInfo>,
}

/// Tells the others that a participant joined.
#[derive(Debug)]
pub struct ParticipantJoinedMessage {
    /// Always [`MessageType::ParticipantJoined`].
    pub message_type: MessageType,
    /// Identifier of the participant that joined.
    pub client_id: String,
    /// When it connected, in milliseconds since the Unix epoch.
    pub connected_at: i64,
}

/// Tells the others that a participant left.
#[derive(Debug)]
pub struct ParticipantLeftMessage {
    /// Always [`MessageType::ParticipantLeft`].
    pub message_type: MessageType,
    /// Identifier of the participant that left.
    pub client_id: String,
    /// When it disconnected, in milliseconds since the Unix epoch.
    pub disconnected_at: i64,
}

/// A chat message as clients send and receive it.
#[derive(Debug, PartialEq, Eq)]
pub struct ChatMessage {
    /// Always [`MessageType::Chat`].
    pub message_type: MessageType,
    /// Identifier of the sender.
    pub client_id: String,
    /// Text of the message.
    pub content: String,
    /// When it was sent, in milliseconds since the Unix epoch.
    pub timestamp: i64,
}

} // verus!
