//! Single-room chat core: validated value types, the room aggregate, the
//! in-memory room store and the connection lifecycle use cases.

pub mod domain;
pub mod infrastructure;
pub mod time;
pub mod ui;
pub mod usecase;
