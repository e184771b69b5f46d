//! The decisions behind the endpoints. The transport layer reads from and
//! writes to the sockets; what to answer and whom to tell is decided here.

pub mod http;
pub mod websocket;
