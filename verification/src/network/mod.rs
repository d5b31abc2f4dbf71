//! The network layer: identity, addresses, the settings of the protocols, and the bookkeeping of
//! requests in flight.

pub mod actor;
pub mod addr;
pub mod behaviour;
pub mod identity;
pub mod pq;
pub mod primitives;

use crate::text::join2;
use vstd::prelude::*;
use vstd::string::*;

verus! {

/// Why something on the network failed.
#[derive(Debug, Clone)]
pub enum NetworkError {
    /// The network task has ended.
    ActorGone,
    /// The configuration turns the protocol off.
    Disabled,
    /// The network could not be built.
    Build(String),
    /// A query of the distributed table failed.
    Kad(String),
    /// A service request failed.
    Request(String),
    /// Listening or dialing failed.
    Transport(String),
    /// The network was rebuilt meanwhile.
    Reloaded,
}

/// The text of an error.
pub open spec fn network_error_text(e: NetworkError) -> Seq<char> {
    match e {
        NetworkError::ActorGone => "network actor is gone"@,
        NetworkError::Disabled => "protocol disabled by config"@,
        NetworkError::Build(e) => "swarm build failed: "@ + e@,
        NetworkError::Kad(e) => "kademlia error: "@ + e@,
        NetworkError::Request(e) => "request failed: "@ + e@,
        NetworkError::Transport(e) => "transport error: "@ + e@,
        NetworkError::Reloaded => "cancelled by network reload"@,
    }
}

impl NetworkError {
    /// The text of the error.
    pub fn text(&self) -> (r: String)
        ensures
            r@ == network_error_text(*self),
    {
        match self {
            NetworkError::ActorGone => "network actor is gone".to_owned(),
            NetworkError::Disabled => "protocol disabled by config".to_owned(),
            NetworkError::Build(e) => join2("swarm build failed: ", e.as_str()),
            NetworkError::Kad(e) => join2("kademlia error: ", e.as_str()),
            NetworkError::Request(e) => join2("request failed: ", e.as_str()),
            NetworkError::Transport(e) => join2("transport error: ", e.as_str()),
            NetworkError::Reloaded => "cancelled by network reload".to_owned(),
        }
    }
}

/// What the errors say.
pub proof fn network_errors_say_why(e: String)
    ensures
        network_error_text(NetworkError::ActorGone) == "network actor is gone"@,
        network_error_text(NetworkError::Disabled) == "protocol disabled by config"@,
        network_error_text(NetworkError::Build(e)) == "swarm build failed: "@ + e@,
        network_error_text(NetworkError::Kad(e)) == "kademlia error: "@ + e@,
        network_error_text(NetworkError::Request(e)) == "request failed: "@ + e@,
        network_error_text(NetworkError::Transport(e)) == "transport error: "@ + e@,
        network_error_text(NetworkError::Reloaded) == "cancelled by network reload"@,
{
}

} // verus!
