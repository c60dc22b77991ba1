//! The data carried between nodes: peer identities, message
//! envelopes and their payload items, and the transport error
//! taxonomy. The sockets themselves live outside the library; these
//! types only describe what travels over them.

use vstd::prelude::*;

use crate::display::{finish, lemma_encode_utf8_concat, push_str_bytes};

verus! {

/// Unique identifier for a node in the network.
#[derive(Debug)]
pub struct PeerId {
    /// Unique id for this node within the network.
    pub public_key: String,
}

impl PeerId {
    /// Create a new node identifier.
    pub fn new(node_id: String) -> (r: Self)
        ensures
            r.public_key == node_id,
    {
        PeerId { public_key: node_id }
    }

    /// The identifier as text.
    pub fn display_string(&self) -> (r: String)
        ensures
            r@ == self.public_key@,
    {
        self.public_key.clone()
    }
}

impl Clone for PeerId {
    /// Clones carry the same key.
    fn clone(&self) -> (r: Self)
        ensures
            r == *self,
    {
        PeerId { public_key: self.public_key.clone() }
    }
}

/// Types of messages that can be sent over the network.
#[derive(Debug, Clone, Copy, PartialEq, Eq, Structural)]
pub enum NetworkMessageType {
    /// Service request message.
    Request,
    /// Service response message.
    Response,
    /// Event publication.
    Event,
    /// Node discovery related message.
    Discovery,
    /// Heartbeat or health check.
    Heartbeat,
}

/// One payload item in a network message: a routing path, the
/// serialized value bytes, and a correlation id for request and
/// response tracking.
#[derive(Debug)]
pub struct NetworkMessagePayloadItem {
    /// The path or topic associated with this payload.
    pub path: String,
    /// The serialized value bytes.
    pub value_bytes: Vec<u8>,
    /// Correlation id for request/response tracking.
    pub correlation_id: String,
}

impl NetworkMessagePayloadItem {
    /// Assemble a payload item.
    pub fn new(path: String, value_bytes: Vec<u8>, correlation_id: String) -> (r: Self)
        ensures
            r.path == path,
            r.value_bytes == value_bytes,
            r.correlation_id == correlation_id,
    {
        NetworkMessagePayloadItem { path, value_bytes, correlation_id }
    }
}

/// A message exchanged between nodes.
#[derive(Debug)]
pub struct NetworkMessage {
    /// Source node identifier.
    pub source: PeerId,
    /// Destination node identifier.
    pub destination: PeerId,
    /// Message type tag.
    pub message_type: String,
    /// The payload items.
    pub payloads: Vec<NetworkMessagePayloadItem>,
}

/// Error kinds of network operations, each carrying its detail
/// message.
#[derive(Debug)]
pub enum NetworkError {
    ConnectionError(String),
    MessageError(String),
    DiscoveryError(String),
    TransportError(String),
    ConfigurationError(String),
}

/// What a network error renders as.
pub open spec fn network_error_text(e: &NetworkError) -> Seq<char> {
    match e {
        NetworkError::ConnectionError(m) => "Connection error: "@ + m@,
        NetworkError::MessageError(m) => "Message error: "@ + m@,
        NetworkError::DiscoveryError(m) => "Discovery error: "@ + m@,
        NetworkError::TransportError(m) => "Transport error: "@ + m@,
        NetworkError::ConfigurationError(m) => "Configuration error: "@ + m@,
    }
}

impl NetworkError {
    /// The error as text: its kind, then its detail message.
    pub fn describe(&self) -> (r: String)
        ensures
            r@ == network_error_text(self),
    {
        match self {
            NetworkError::ConnectionError(m) => prefixed("Connection error: ", m),
            NetworkError::MessageError(m) => prefixed("Message error: ", m),
            NetworkError::DiscoveryError(m) => prefixed("Discovery error: ", m),
            NetworkError::TransportError(m) => prefixed("Transport error: ", m),
            NetworkError::ConfigurationError(m) => prefixed("Configuration error: ", m),
        }
    }
}

/// Concatenate a literal prefix and a message.
fn prefixed(prefix: &str, m: &String) -> (r: String)
    ensures
        r@ == prefix@ + m@,
{
    let mut out: Vec<u8> = Vec::new();
    push_str_bytes(prefix, &mut out);
    push_str_bytes(m.as_str(), &mut out);
    proof {
        lemma_encode_utf8_concat(prefix@, m@);
    }
    finish(out, Ghost(prefix@ + m@))
}

/// A certificate verifier marker that accepts any server, for test
/// environments; the verification callback itself lives with the
/// transport, outside the library.
#[derive(Debug)]
pub struct SkipServerVerification {}

impl SkipServerVerification {
    /// Create the marker.
    pub fn new() -> (r: Self) {
        SkipServerVerification {  }
    }
}

/// The candidate port a random draw selects from a range.
pub fn port_candidate(start: u16, end: u16, draw: u16) -> (r: u16)
    requires
        start < end,
    ensures
        r == start + (draw as int) % (end - start),
        start <= r < end,
{
    start + draw % (end - start)
}

} // verus!
