//! Implementations of the room store.

pub mod inmemory;

pub use inmemory::InMemoryRoomRepository;
