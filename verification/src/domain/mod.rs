//! Domain layer: value objects, entities and their errors.

pub mod entity;
pub mod error;
pub mod factory;
pub mod consistency;
pub mod repository;
pub mod text_order;
pub mod value_object;

pub use entity::{ChatMessage, Participant, Room};
pub use factory::RoomIdFactory;
pub use error::{RoomError, ValueObjectError};
pub use repository::{RepositoryError, RoomRepository};
pub use value_object::{ClientId, MessageContent, RoomId, Timestamp};
