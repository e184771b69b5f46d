//! Per-connection state held for the transport layer.

use tokio::sync::mpsc::UnboundedSender;
use vstd::prelude::*;

verus! {

/// The sending half of an unbounded `tokio` channel. The core stores it and
/// hands it back; it never looks inside.
#[verifier::external_type_specification]
#[verifier::external_body]
#[verifier::reject_recursive_types(T)]
pub struct ExUnboundedSender<T>(UnboundedSender<T>);

/// Query parameters of a connection request.
#[derive(Debug)]
pub struct ConnectQuery {
    /// The identifier the client asks for.
    pub client_id: String,
}

/// What the room store keeps for a live connection.
pub struct ClientInfo {
    /// Queue of the serialized events to deliver to the client.
    pub sender: UnboundedSender<String>,
    /// When the client connected, in milliseconds since the Unix epoch.
    pub connected_at: i64,
}

} // verus!
