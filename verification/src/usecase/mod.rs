//! Use cases: the operations of the connection lifecycle.
//!
//! Each use case is one call into the room store; the store does the check
//! and the change as one step.

pub mod connect_participant;
pub mod disconnect_participant;
pub mod error;
pub mod send_message;

pub use connect_participant::ConnectParticipantUseCase;
pub use disconnect_participant::DisconnectParticipantUseCase;
pub use error::{ConnectError, SendMessageError};
pub use send_message::SendMessageUseCase;
