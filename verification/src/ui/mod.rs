//! What the transport layer shares with the core, and what the core decides
//! for it.

pub mod handler;
pub mod state;
