//! The room store kept in memory.

pub mod room;

pub use room::InMemoryRoomRepository;
