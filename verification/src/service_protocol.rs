//! Requests to services, and their responses.

use vstd::prelude::*;

verus! {

/// The protocol id of service requests.
pub const SERVICE_REQ_PROTOCOL: &'static str = "/oahd/service_req/1.0.0";

/// After how many seconds a request has failed.
pub const REQUEST_TIMEOUT_SECS: u64 = 30;

/// A request to a service.
#[derive(Debug, Clone, PartialEq, Eq)]
pub struct Request {
    pub service: String,
    pub payload: Vec<u8>,
}

/// A service's response.
#[derive(Debug, Clone, PartialEq, Eq)]
pub struct Response {
    pub success: bool,
    pub data: Vec<u8>,
}

/// Requests go by this protocol, and fail after half a minute.
pub proof fn requests_go_by_their_protocol()
    ensures
        SERVICE_REQ_PROTOCOL@ == "/oahd/service_req/1.0.0"@,
        REQUEST_TIMEOUT_SECS == 30,
{
}

} // verus!
