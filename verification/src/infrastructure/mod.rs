//! Infrastructure layer: the room store kept in memory and the shapes of the
//! data exchanged with clients.

pub mod dto;
pub mod repository;
