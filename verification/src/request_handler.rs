//! Requests to local services that carry a number, and their responses.

use crate::bytes::copy_bytes;
use vstd::prelude::*;
use vstd::string::*;
use vstd::utf8::encode_utf8;

verus! {

/// A request to a service.
#[derive(Debug, Clone)]
pub struct ServiceRequest {
    pub service: String,
    pub payload: Vec<u8>,
    /// The number by which the response is matched to the request.
    pub request_id: u64,
}

/// The response to a request.
#[derive(Debug, Clone)]
pub struct ServiceResponse {
    /// "ok" or "error".
    pub status: String,
    pub data: Option<Vec<u8>>,
    /// The number of the request.
    pub request_id: u64,
}

/// The numbers of requests, in order from 1; after the largest comes 0.
#[derive(Debug)]
pub struct RequestIds {
    /// The number that comes next.
    pub next: u64,
}

impl RequestIds {
    /// A counter that has given no number yet.
    pub fn new() -> (r: Self)
        ensures
            r.next == 1,
    {
        RequestIds { next: 1 }
    }

    /// The next number.
    pub fn take(&mut self) -> (r: u64)
        ensures
            r == old(self).next,
            final(self).next == (if old(self).next == u64::MAX {
                0
            } else {
                old(self).next + 1
            }),
    {
        let id: u64 = self.next;
        self.next = id.wrapping_add(1);
        id
    }
}

impl ServiceRequest {
    /// A request with the next number of a counter.
    pub fn new(service: &str, payload: Vec<u8>, ids: &mut RequestIds) -> (r: Self)
        ensures
            r.service@ == service@,
            r.payload == payload,
            r.request_id == old(ids).next,
            final(ids).next == (if old(ids).next == u64::MAX {
                0
            } else {
                old(ids).next + 1
            }),
    {
        let request_id: u64 = ids.take();
        ServiceRequest { service: service.to_owned(), payload, request_id }
    }
}

/// The response to a request, from what the service gave: always under the request's number.
pub fn handle_incoming_request(request: &ServiceRequest, outcome: Result<Vec<u8>, String>) -> (r: ServiceResponse)
    ensures
        r.request_id == request.request_id,
        match outcome {
            Ok(data) => r.status@ == "ok"@ && r.data == Some(data),
            Err(e) => r.status@ == "error"@ && (r.data matches Some(d) && d@ == encode_utf8(e@)),
        },
{
    match outcome {
        Ok(data) => ServiceResponse { status: "ok".to_owned(), data: Some(data), request_id: request.request_id },
        Err(e) => ServiceResponse {
            status: "error".to_owned(),
            data: Some(copy_bytes(e.as_str().as_bytes())),
            request_id: request.request_id,
        },
    }
}

} // verus!
