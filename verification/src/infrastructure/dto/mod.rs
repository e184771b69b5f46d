//! Shapes of the data exchanged with clients.

pub mod http;
pub mod websocket;
