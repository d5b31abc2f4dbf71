//! The protocol between the node and its sidecars and backends, version 2.
//!
//! On the wire a message is `u32_be(len) || cbor(message)`, with `len <= MAX_FRAME`. The CBOR
//! item is a record whose member `t` names the kind of message.

use crate::bytes::{
    be128, be128_bytes, be128_inverse, be128_value, be32, be32_inverse, be32_value, copy_bytes,
    optional_bytes_view, push_be32, push_bytes, read_be128, read_be32,
};
use crate::cbor::{
    cbor_decoding, cbor_encoding, cbor_refusal, decode_item, encode_item, find, has_text_keys, is_untagged,
    lookup, lookup_absent, lookup_at, member_views, plain, plain_is_untagged, record_view, text_keys, untagged, writable, Cbor,
    Found, Item, Lookup,
};
use crate::record::{
    as_bytes, as_octets, bool_field, bytes_of, member, octet_items, octets_field, octets_inverse,
    octets_item, octets_of, read_bool, read_octets, read_text, read_uint, text_field, text_item,
    uint_field,
};
use crate::text::{decimal, decimal_text, join2, join3, same_text};
use vstd::prelude::*;
use vstd::string::*;

verus! {

/// The protocol's version.
pub const PROTOCOL_VERSION: u32 = 2;

/// The most bytes that the body of one frame may have.
pub const MAX_FRAME: usize = 16777216;

/// A structured error.
#[derive(Debug, Clone, PartialEq, Eq)]
pub struct SidecarError {
    pub code: String,
    pub message: String,
}

/// What a structured error says.
pub struct ErrorView {
    pub code: Seq<char>,
    pub message: Seq<char>,
}

impl SidecarError {
    pub open spec fn view(&self) -> ErrorView {
        ErrorView { code: self.code@, message: self.message@ }
    }

    /// An error with a code and a message.
    pub fn new(code: &str, message: &str) -> (r: Self)
        ensures
            r.code@ == code@,
            r.message@ == message@,
    {
        SidecarError { code: code.to_owned(), message: message.to_owned() }
    }

    /// The record that the error is written as.
    fn to_item(&self) -> (r: Cbor)
        ensures
            r@ == error_item(self@),
    {
        let mut m: Vec<(Cbor, Cbor)> = Vec::new();
        m.push(member("code", text_item(self.code.as_str())));
        m.push(member("message", text_item(self.message.as_str())));
        let r = Cbor::Record(m);
        proof {
            record_view(r);
            assert(member_views(m@) =~= error_members(self@));
        }
        r
    }
}

/// What an optional error says.
pub open spec fn error_view(e: &Option<SidecarError>) -> Option<ErrorView> {
    match e {
        Some(e) => Some(e@),
        None => None,
    }
}

/// A message. `id` holds the 128 bits of a UUID.
#[derive(Debug, Clone, PartialEq, Eq)]
pub enum Message {
    /// The handshake, first in both directions.
    Hello { version: u32 },
    /// Node to backend: an incoming service request.
    Request { id: u128, service: String, payload: Vec<u8> },
    /// The answer to the message with the same id, in both directions.
    Reply { id: u128, ok: bool, result: Option<Vec<u8>>, error: Option<SidecarError> },
    /// Which services the network offers.
    ListServices { id: u128 },
    /// Who provides a service.
    DiscoverProviders { id: u128, service: String },
    /// The node's public addresses.
    QueryPublicIp { id: u128 },
    /// Dial the bootstrap nodes again.
    ReconnectBootstrap { id: u128 },
    /// Announce the local services again.
    ReannounceServices { id: u128 },
    /// Read the configuration again and rebuild the network.
    ReloadConfig { id: u128 },
    /// The state of the relay reservations.
    RelayStatus { id: u128 },
    /// The state of the post-quantum layer.
    PqStatus { id: u128 },
    /// The state of authorization.
    AuthStatus { id: u128 },
    /// Read a key of the distributed table.
    QueryKey { id: u128, key: String },
    /// Write a key of the distributed table, or provide it.
    AddKey { id: u128, key: String, value: Option<Vec<u8>>, providing: bool },
    /// Ask the nearest provider of a service.
    ServiceRequest { id: u128, service: String, payload: Vec<u8> },
    /// Ask one peer's service.
    ServiceRequestTo { id: u128, service: String, peer: String, payload: Vec<u8> },
}

/// What a message says.
pub enum MessageView {
    Hello { version: u32 },
    Request { id: u128, service: Seq<char>, payload: Seq<u8> },
    Reply { id: u128, ok: bool, result: Option<Seq<u8>>, error: Option<ErrorView> },
    ListServices { id: u128 },
    DiscoverProviders { id: u128, service: Seq<char> },
    QueryPublicIp { id: u128 },
    ReconnectBootstrap { id: u128 },
    ReannounceServices { id: u128 },
    ReloadConfig { id: u128 },
    RelayStatus { id: u128 },
    PqStatus { id: u128 },
    AuthStatus { id: u128 },
    QueryKey { id: u128, key: Seq<char> },
    AddKey { id: u128, key: Seq<char>, value: Option<Seq<u8>>, providing: bool },
    ServiceRequest { id: u128, service: Seq<char>, payload: Seq<u8> },
    ServiceRequestTo { id: u128, service: Seq<char>, peer: Seq<char>, payload: Seq<u8> },
}

impl Message {
    pub open spec fn view(&self) -> MessageView {
        match self {
            Message::Hello { version } => MessageView::Hello { version: *version },
            Message::Request { id, service, payload } => MessageView::Request { id: *id, service: service@, payload: payload@ },
            Message::Reply { id, ok, result, error } => MessageView::Reply {
                id: *id,
                ok: *ok,
                result: optional_bytes_view(*result),
                error: error_view(error),
            },
            Message::ListServices { id } => MessageView::ListServices { id: *id },
            Message::DiscoverProviders { id, service } => MessageView::DiscoverProviders { id: *id, service: service@ },
            Message::QueryPublicIp { id } => MessageView::QueryPublicIp { id: *id },
            Message::ReconnectBootstrap { id } => MessageView::ReconnectBootstrap { id: *id },
            Message::ReannounceServices { id } => MessageView::ReannounceServices { id: *id },
            Message::ReloadConfig { id } => MessageView::ReloadConfig { id: *id },
            Message::RelayStatus { id } => MessageView::RelayStatus { id: *id },
            Message::PqStatus { id } => MessageView::PqStatus { id: *id },
            Message::AuthStatus { id } => MessageView::AuthStatus { id: *id },
            Message::QueryKey { id, key } => MessageView::QueryKey { id: *id, key: key@ },
            Message::AddKey { id, key, value, providing } => MessageView::AddKey {
                id: *id,
                key: key@,
                value: optional_bytes_view(*value),
                providing: *providing,
            },
            Message::ServiceRequest { id, service, payload } => MessageView::ServiceRequest { id: *id, service: service@, payload: payload@ },
            Message::ServiceRequestTo { id, service, peer, payload } => MessageView::ServiceRequestTo {
                id: *id,
                service: service@,
                peer: peer@,
                payload: payload@,
            },
        }
    }
}

/// The members that every message with an id starts with.
pub open spec fn head(tag: Seq<char>, id: u128) -> Seq<(Item, Item)> {
    seq![(Item::Text("t"@), Item::Text(tag)), (Item::Text("id"@), Item::Bytes(be128(id)))]
}

/// The members of an error's record.
pub open spec fn error_members(e: ErrorView) -> Seq<(Item, Item)> {
    seq![
        (Item::Text("code"@), Item::Text(e.code)),
        (Item::Text("message"@), Item::Text(e.message)),
    ]
}

/// The record that an error is written as.
pub open spec fn error_item(e: ErrorView) -> Item {
    Item::Record(error_members(e))
}

/// The members of the record that a message is written as.
pub open spec fn members_of(v: MessageView) -> Seq<(Item, Item)> {
    match v {
        MessageView::Hello { version } => seq![
            (Item::Text("t"@), Item::Text("hello"@)),
            (Item::Text("version"@), Item::Int(version as int)),
        ],
        MessageView::Request { id, service, payload } => head("request"@, id).push(
            (Item::Text("service"@), Item::Text(service)),
        ).push((Item::Text("payload"@), Item::Array(octet_items(payload)))),
        MessageView::Reply { id, ok, result, error } => {
            let base = head("reply"@, id).push((Item::Text("ok"@), Item::Bool(ok)));
            let with_result = match result {
                Some(b) => base.push((Item::Text("result"@), Item::Array(octet_items(b)))),
                None => base,
            };
            match error {
                Some(e) => with_result.push((Item::Text("error"@), error_item(e))),
                None => with_result,
            }
        },
        MessageView::ListServices { id } => head("list_services"@, id),
        MessageView::DiscoverProviders { id, service } => head("discover_providers"@, id).push((Item::Text("service"@), Item::Text(service))),
        MessageView::QueryPublicIp { id } => head("query_public_ip"@, id),
        MessageView::ReconnectBootstrap { id } => head("reconnect_bootstrap"@, id),
        MessageView::ReannounceServices { id } => head("reannounce_services"@, id),
        MessageView::ReloadConfig { id } => head("reload_config"@, id),
        MessageView::RelayStatus { id } => head("relay_status"@, id),
        MessageView::PqStatus { id } => head("pq_status"@, id),
        MessageView::AuthStatus { id } => head("auth_status"@, id),
        MessageView::QueryKey { id, key } => head("query_key"@, id).push((Item::Text("key"@), Item::Text(key))),
        MessageView::AddKey { id, key, value, providing } => {
            let base = head("add_key"@, id).push((Item::Text("key"@), Item::Text(key)));
            let with_value = match value {
                Some(b) => base.push((Item::Text("value"@), Item::Bytes(b))),
                None => base,
            };
            with_value.push((Item::Text("providing"@), Item::Bool(providing)))
        },
        MessageView::ServiceRequest { id, service, payload } => head("service_request"@, id).push(
            (Item::Text("service"@), Item::Text(service)),
        ).push((Item::Text("payload"@), Item::Array(octet_items(payload)))),
        MessageView::ServiceRequestTo { id, service, peer, payload } => head("service_request_to"@, id).push(
            (Item::Text("service"@), Item::Text(service)),
        ).push((Item::Text("peer"@), Item::Text(peer))).push(
            (Item::Text("payload"@), Item::Array(octet_items(payload))),
        ),
    }
}

/// The UUID that `uuid::Uuid::parse_str` reads from a text, as its 128 bits.
pub uninterp spec fn uuid_of_text(t: Seq<char>) -> Option<u128>;

/// `uuid::Uuid::parse_str`; the result's 128 bits depend on the text alone.
#[verifier::external_body]
fn parse_uuid(t: &str) -> (r: Option<u128>)
    ensures
        r == uuid_of_text(t@),
{
    uuid::Uuid::parse_str(t).ok().map(|u| u.as_u128())
}

/// The UUID under a name: sixteen bytes, or a text.
pub open spec fn uuid_field(m: Seq<(Item, Item)>, name: Seq<char>) -> Option<u128> {
    match lookup(m, name) {
        Lookup::Found(Item::Bytes(b)) => if b.len() == 16 {
            Some(be128_value(b))
        } else {
            None
        },
        Lookup::Found(Item::Text(t)) => uuid_of_text(t),
        _ => None,
    }
}

/// The array of bytes under a name that may be missing or null.
pub open spec fn optional_octets(m: Seq<(Item, Item)>, name: Seq<char>) -> Option<Option<Seq<u8>>> {
    match lookup(m, name) {
        Lookup::Missing => Some(None),
        Lookup::Found(Item::Null) => Some(None),
        Lookup::Found(item) => match as_octets(item) {
            Some(b) => Some(Some(b)),
            None => None,
        },
        Lookup::Repeated => None,
    }
}

/// The bytes under a name that may be missing or null.
pub open spec fn optional_bytes(m: Seq<(Item, Item)>, name: Seq<char>) -> Option<Option<Seq<u8>>> {
    match lookup(m, name) {
        Lookup::Missing => Some(None),
        Lookup::Found(Item::Null) => Some(None),
        Lookup::Found(item) => match as_bytes(item) {
            Some(b) => Some(Some(b)),
            None => None,
        },
        Lookup::Repeated => None,
    }
}

/// The truth value under a name, false where the name is missing.
pub open spec fn bool_or_false(m: Seq<(Item, Item)>, name: Seq<char>) -> Option<bool> {
    if lookup(m, name) is Missing {
        Some(false)
    } else {
        bool_field(m, name)
    }
}

/// The error that an item says.
pub open spec fn error_of(item: Item) -> Option<ErrorView> {
    match item {
        Item::Record(m) => if text_keys(m) {
            match (text_field(m, "code"@), text_field(m, "message"@)) {
                (Some(code), Some(message)) => Some(ErrorView { code, message }),
                _ => None,
            }
        } else {
            None
        },
        _ => None,
    }
}

/// The error under a name that may be missing or null.
pub open spec fn optional_error(m: Seq<(Item, Item)>, name: Seq<char>) -> Option<Option<ErrorView>> {
    match lookup(m, name) {
        Lookup::Missing => Some(None),
        Lookup::Found(Item::Null) => Some(None),
        Lookup::Found(item) => match error_of(item) {
            Some(e) => Some(Some(e)),
            None => None,
        },
        Lookup::Repeated => None,
    }
}

/// The message that the members of a record say, if they say one.
pub open spec fn message_of_members(m: Seq<(Item, Item)>) -> Option<MessageView> {
    let id = uuid_field(m, "id"@);
    match text_field(m, "t"@) {
        None => None,
        Some(t) => {
            if t == "hello"@ {
                match uint_field(m, "version"@) {
                    Some(n) => if n <= u32::MAX {
                        Some(MessageView::Hello { version: n as u32 })
                    } else {
                        None
                    },
                    None => None,
                }
            } else if t == "request"@ {
                match (id, text_field(m, "service"@), octets_field(m, "payload"@)) {
                    (Some(id), Some(service), Some(payload)) => Some(MessageView::Request { id, service, payload }),
                    _ => None,
                }
            } else if t == "reply"@ {
                match (id, bool_field(m, "ok"@), optional_octets(m, "result"@), optional_error(m, "error"@)) {
                    (Some(id), Some(ok), Some(result), Some(error)) => Some(MessageView::Reply { id, ok, result, error }),
                    _ => None,
                }
            } else if t == "list_services"@ {
                match id {
                    Some(id) => Some(MessageView::ListServices { id }),
                    None => None,
                }
            } else if t == "discover_providers"@ {
                match (id, text_field(m, "service"@)) {
                    (Some(id), Some(service)) => Some(MessageView::DiscoverProviders { id, service }),
                    _ => None,
                }
            } else if t == "query_public_ip"@ {
                match id {
                    Some(id) => Some(MessageView::QueryPublicIp { id }),
                    None => None,
                }
            } else if t == "reconnect_bootstrap"@ {
                match id {
                    Some(id) => Some(MessageView::ReconnectBootstrap { id }),
                    None => None,
                }
            } else if t == "reannounce_services"@ {
                match id {
                    Some(id) => Some(MessageView::ReannounceServices { id }),
                    None => None,
                }
            } else if t == "reload_config"@ {
                match id {
                    Some(id) => Some(MessageView::ReloadConfig { id }),
                    None => None,
                }
            } else if t == "relay_status"@ {
                match id {
                    Some(id) => Some(MessageView::RelayStatus { id }),
                    None => None,
                }
            } else if t == "pq_status"@ {
                match id {
                    Some(id) => Some(MessageView::PqStatus { id }),
                    None => None,
                }
            } else if t == "auth_status"@ {
                match id {
                    Some(id) => Some(MessageView::AuthStatus { id }),
                    None => None,
                }
            } else if t == "query_key"@ {
                match (id, text_field(m, "key"@)) {
                    (Some(id), Some(key)) => Some(MessageView::QueryKey { id, key }),
                    _ => None,
                }
            } else if t == "add_key"@ {
                match (id, text_field(m, "key"@), optional_bytes(m, "value"@), bool_or_false(m, "providing"@)) {
                    (Some(id), Some(key), Some(value), Some(providing)) => Some(MessageView::AddKey { id, key, value, providing }),
                    _ => None,
                }
            } else if t == "service_request"@ {
                match (id, text_field(m, "service"@), octets_field(m, "payload"@)) {
                    (Some(id), Some(service), Some(payload)) => Some(MessageView::ServiceRequest { id, service, payload }),
                    _ => None,
                }
            } else if t == "service_request_to"@ {
                match (id, text_field(m, "service"@), text_field(m, "peer"@), octets_field(m, "payload"@)) {
                    (Some(id), Some(service), Some(peer), Some(payload)) => Some(MessageView::ServiceRequestTo { id, service, peer, payload }),
                    _ => None,
                }
            } else {
                None
            }
        },
    }
}

/// The message that an item says, if it says one. No tag may stand in it.
pub open spec fn message_of(item: Item) -> Option<MessageView> {
    match item {
        Item::Record(m) => if text_keys(m) && untagged(item) {
            message_of_members(m)
        } else {
            None
        },
        _ => None,
    }
}

fn head_members(tag: &str, id: u128) -> (r: Vec<(Cbor, Cbor)>)
    ensures
        member_views(r@) == head(tag@, id),
{
    let mut m: Vec<(Cbor, Cbor)> = Vec::new();
    m.push(member("t", text_item(tag)));
    m.push(member("id", Cbor::Bytes(be128_bytes(id))));
    assert(member_views(m@) =~= head(tag@, id));
    m
}

impl Message {
    /// The id that ties a message to its reply; a handshake has none.
    pub fn id(&self) -> (r: Option<u128>)
        ensures
            r == message_id(self@),
    {
        match self {
            Message::Hello { .. } => None,
            Message::Request { id, .. }
            | Message::Reply { id, .. }
            | Message::ListServices { id }
            | Message::DiscoverProviders { id, .. }
            | Message::QueryPublicIp { id }
            | Message::ReconnectBootstrap { id }
            | Message::ReannounceServices { id }
            | Message::ReloadConfig { id }
            | Message::RelayStatus { id }
            | Message::PqStatus { id }
            | Message::AuthStatus { id }
            | Message::QueryKey { id, .. }
            | Message::AddKey { id, .. }
            | Message::ServiceRequest { id, .. }
            | Message::ServiceRequestTo { id, .. } => Some(*id),
        }
    }

    /// The record that the message is written as.
    fn to_item(&self) -> (r: Cbor)
        ensures
            r@ == Item::Record(members_of(self@)),
    {
        let members: Vec<(Cbor, Cbor)> = match self {
            Message::Hello { version } => {
                let mut m: Vec<(Cbor, Cbor)> = Vec::new();
                m.push(member("t", text_item("hello")));
                m.push(member("version", Cbor::Int(*version as i128)));
                assert(member_views(m@) =~= members_of(self@));
                m
            },
            Message::Request { id, service, payload } => {
                let mut m = head_members("request", *id);
                m.push(member("service", text_item(service.as_str())));
                m.push(member("payload", octets_item(payload.as_slice())));
                assert(member_views(m@) =~= members_of(self@));
                m
            },
            Message::Reply { id, ok, result, error } => {
                let mut m = head_members("reply", *id);
                m.push(member("ok", Cbor::Bool(*ok)));
                match result {
                    Some(b) => m.push(member("result", octets_item(b.as_slice()))),
                    None => {},
                }
                match error {
                    Some(e) => m.push(member("error", e.to_item())),
                    None => {},
                }
                assert(member_views(m@) =~= members_of(self@));
                m
            },
            Message::ListServices { id } => head_members("list_services", *id),
            Message::DiscoverProviders { id, service } => {
                let mut m = head_members("discover_providers", *id);
                m.push(member("service", text_item(service.as_str())));
                assert(member_views(m@) =~= members_of(self@));
                m
            },
            Message::QueryPublicIp { id } => head_members("query_public_ip", *id),
            Message::ReconnectBootstrap { id } => head_members("reconnect_bootstrap", *id),
            Message::ReannounceServices { id } => head_members("reannounce_services", *id),
            Message::ReloadConfig { id } => head_members("reload_config", *id),
            Message::RelayStatus { id } => head_members("relay_status", *id),
            Message::PqStatus { id } => head_members("pq_status", *id),
            Message::AuthStatus { id } => head_members("auth_status", *id),
            Message::QueryKey { id, key } => {
                let mut m = head_members("query_key", *id);
                m.push(member("key", text_item(key.as_str())));
                assert(member_views(m@) =~= members_of(self@));
                m
            },
            Message::AddKey { id, key, value, providing } => {
                let mut m = head_members("add_key", *id);
                m.push(member("key", text_item(key.as_str())));
                match value {
                    Some(b) => m.push(member("value", Cbor::Bytes(copy_bytes(b.as_slice())))),
                    None => {},
                }
                m.push(member("providing", Cbor::Bool(*providing)));
                assert(member_views(m@) =~= members_of(self@));
                m
            },
            Message::ServiceRequest { id, service, payload } => {
                let mut m = head_members("service_request", *id);
                m.push(member("service", text_item(service.as_str())));
                m.push(member("payload", octets_item(payload.as_slice())));
                assert(member_views(m@) =~= members_of(self@));
                m
            },
            Message::ServiceRequestTo { id, service, peer, payload } => {
                let mut m = head_members("service_request_to", *id);
                m.push(member("service", text_item(service.as_str())));
                m.push(member("peer", text_item(peer.as_str())));
                m.push(member("payload", octets_item(payload.as_slice())));
                assert(member_views(m@) =~= members_of(self@));
                m
            },
        };
        let r = Cbor::Record(members);
        proof {
            record_view(r);
        }
        r
    }
}

/// The id of a message; a handshake has none.
pub open spec fn message_id(v: MessageView) -> Option<u128> {
    match v {
        MessageView::Hello { .. } => None,
        MessageView::Request { id, .. } => Some(id),
        MessageView::Reply { id, .. } => Some(id),
        MessageView::ListServices { id } => Some(id),
        MessageView::DiscoverProviders { id, .. } => Some(id),
        MessageView::QueryPublicIp { id } => Some(id),
        MessageView::ReconnectBootstrap { id } => Some(id),
        MessageView::ReannounceServices { id } => Some(id),
        MessageView::ReloadConfig { id } => Some(id),
        MessageView::RelayStatus { id } => Some(id),
        MessageView::PqStatus { id } => Some(id),
        MessageView::AuthStatus { id } => Some(id),
        MessageView::QueryKey { id, .. } => Some(id),
        MessageView::AddKey { id, .. } => Some(id),
        MessageView::ServiceRequest { id, .. } => Some(id),
        MessageView::ServiceRequestTo { id, .. } => Some(id),
    }
}

fn read_uuid(m: &Vec<(Cbor, Cbor)>, name: &str) -> (r: Option<u128>)
    ensures
        r == uuid_field(member_views(m@), name@),
{
    match find(m, name) {
        Found::One(Cbor::Bytes(b)) => if b.len() == 16 {
            Some(read_be128(b.as_slice()))
        } else {
            None
        },
        Found::One(Cbor::Text(t)) => parse_uuid(t.as_str()),
        _ => None,
    }
}

fn read_optional_octets(m: &Vec<(Cbor, Cbor)>, name: &str) -> (r: Option<Option<Vec<u8>>>)
    ensures
        match r {
            Some(b) => optional_octets(member_views(m@), name@) == Some(optional_bytes_view(b)),
            None => optional_octets(member_views(m@), name@) is None,
        },
{
    match find(m, name) {
        Found::Missing => Some(None),
        Found::One(Cbor::Null) => Some(None),
        Found::One(c) => match octets_of(c) {
            Some(b) => Some(Some(b)),
            None => None,
        },
        Found::Repeated => None,
    }
}

fn read_optional_bytes(m: &Vec<(Cbor, Cbor)>, name: &str) -> (r: Option<Option<Vec<u8>>>)
    ensures
        match r {
            Some(b) => optional_bytes(member_views(m@), name@) == Some(optional_bytes_view(b)),
            None => optional_bytes(member_views(m@), name@) is None,
        },
{
    match find(m, name) {
        Found::Missing => Some(None),
        Found::One(Cbor::Null) => Some(None),
        Found::One(c) => match bytes_of(c) {
            Some(b) => Some(Some(b)),
            None => None,
        },
        Found::Repeated => None,
    }
}

fn read_bool_or_false(m: &Vec<(Cbor, Cbor)>, name: &str) -> (r: Option<bool>)
    ensures
        r == bool_or_false(member_views(m@), name@),
{
    match find(m, name) {
        Found::Missing => Some(false),
        _ => read_bool(m, name),
    }
}

fn read_error(c: &Cbor) -> (r: Option<SidecarError>)
    ensures
        match r {
            Some(e) => error_of(c@) == Some(e@),
            None => error_of(c@) is None,
        },
{
    proof {
        record_view(*c);
    }
    match c {
        Cbor::Record(m) => if has_text_keys(m) {
            match (read_text(m, "code"), read_text(m, "message")) {
                (Some(code), Some(message)) => Some(SidecarError { code, message }),
                _ => None,
            }
        } else {
            None
        },
        _ => None,
    }
}

fn read_optional_error(m: &Vec<(Cbor, Cbor)>, name: &str) -> (r: Option<Option<SidecarError>>)
    ensures
        match r {
            Some(e) => optional_error(member_views(m@), name@) == Some(error_view(&e)),
            None => optional_error(member_views(m@), name@) is None,
        },
{
    match find(m, name) {
        Found::Missing => Some(None),
        Found::One(Cbor::Null) => Some(None),
        Found::One(c) => match read_error(c) {
            Some(e) => Some(Some(e)),
            None => None,
        },
        Found::Repeated => None,
    }
}

/// Reads the message that the members of a record say.
fn message_from(m: &Vec<(Cbor, Cbor)>) -> (r: Option<Message>)
    ensures
        match r {
            Some(msg) => message_of_members(member_views(m@)) == Some(msg@),
            None => message_of_members(member_views(m@)) is None,
        },
{
    let t = match read_text(m, "t") {
        Some(t) => t,
        None => {
            return None;
        },
    };
    let t = t.as_str();
    if same_text(t, "hello") {
        return match read_uint(m, "version") {
            Some(n) => if n <= u32::MAX as u64 {
                Some(Message::Hello { version: n as u32 })
            } else {
                None
            },
            None => None,
        };
    }
    let id = read_uuid(m, "id");
    if same_text(t, "request") {
        return match (id, read_text(m, "service"), read_octets(m, "payload")) {
            (Some(id), Some(service), Some(payload)) => Some(Message::Request { id, service, payload }),
            _ => None,
        };
    }
    if same_text(t, "reply") {
        return match (id, read_bool(m, "ok"), read_optional_octets(m, "result"), read_optional_error(m, "error")) {
            (Some(id), Some(ok), Some(result), Some(error)) => Some(Message::Reply { id, ok, result, error }),
            _ => None,
        };
    }
    if same_text(t, "list_services") {
        return match id {
            Some(id) => Some(Message::ListServices { id }),
            None => None,
        };
    }
    if same_text(t, "discover_providers") {
        return match (id, read_text(m, "service")) {
            (Some(id), Some(service)) => Some(Message::DiscoverProviders { id, service }),
            _ => None,
        };
    }
    if same_text(t, "query_public_ip") {
        return match id {
            Some(id) => Some(Message::QueryPublicIp { id }),
            None => None,
        };
    }
    if same_text(t, "reconnect_bootstrap") {
        return match id {
            Some(id) => Some(Message::ReconnectBootstrap { id }),
            None => None,
        };
    }
    if same_text(t, "reannounce_services") {
        return match id {
            Some(id) => Some(Message::ReannounceServices { id }),
            None => None,
        };
    }
    if same_text(t, "reload_config") {
        return match id {
            Some(id) => Some(Message::ReloadConfig { id }),
            None => None,
        };
    }
    if same_text(t, "relay_status") {
        return match id {
            Some(id) => Some(Message::RelayStatus { id }),
            None => None,
        };
    }
    if same_text(t, "pq_status") {
        return match id {
            Some(id) => Some(Message::PqStatus { id }),
            None => None,
        };
    }
    if same_text(t, "auth_status") {
        return match id {
            Some(id) => Some(Message::AuthStatus { id }),
            None => None,
        };
    }
    if same_text(t, "query_key") {
        return match (id, read_text(m, "key")) {
            (Some(id), Some(key)) => Some(Message::QueryKey { id, key }),
            _ => None,
        };
    }
    if same_text(t, "add_key") {
        return match (id, read_text(m, "key"), read_optional_bytes(m, "value"), read_bool_or_false(m, "providing")) {
            (Some(id), Some(key), Some(value), Some(providing)) => Some(Message::AddKey { id, key, value, providing }),
            _ => None,
        };
    }
    if same_text(t, "service_request") {
        return match (id, read_text(m, "service"), read_octets(m, "payload")) {
            (Some(id), Some(service), Some(payload)) => Some(Message::ServiceRequest { id, service, payload }),
            _ => None,
        };
    }
    if same_text(t, "service_request_to") {
        return match (id, read_text(m, "service"), read_text(m, "peer"), read_octets(m, "payload")) {
            (Some(id), Some(service), Some(peer), Some(payload)) => Some(Message::ServiceRequestTo { id, service, peer, payload }),
            _ => None,
        };
    }
    None
}

/// Why a frame could not be written or read.
#[derive(Debug)]
pub enum FrameError {
    /// Reading or writing the stream failed.
    Io(String),
    /// The body has more than `MAX_FRAME` bytes: this many.
    TooLarge(usize),
    /// The message could not be encoded.
    Encode(String),
    /// The body holds no message.
    Decode(String),
}

/// The text of a frame error.
pub open spec fn frame_error_text(e: FrameError) -> Seq<char> {
    match e {
        FrameError::Io(e) => "io error: "@ + e@,
        FrameError::TooLarge(n) => "frame too large: "@ + decimal(n as nat) + " bytes"@,
        FrameError::Encode(e) => "cbor encode error: "@ + e@,
        FrameError::Decode(e) => "cbor decode error: "@ + e@,
    }
}

impl FrameError {
    /// The text of the error.
    pub fn text(&self) -> (r: String)
        ensures
            r@ == frame_error_text(*self),
    {
        match self {
            FrameError::Io(e) => join2("io error: ", e.as_str()),
            FrameError::TooLarge(n) => join3(
                "frame too large: ",
                decimal_text(*n as u64).as_str(),
                " bytes",
            ),
            FrameError::Encode(e) => join2("cbor encode error: ", e.as_str()),
            FrameError::Decode(e) => join2("cbor decode error: ", e.as_str()),
        }
    }
}

/// The body of the frame that a message is written as.
pub open spec fn body_of(v: MessageView) -> Seq<u8> {
    cbor_encoding(Item::Record(members_of(v)))
}

/// The message that the body of a frame holds, if it holds one.
pub open spec fn message_in(body: Seq<u8>) -> Option<MessageView> {
    match cbor_decoding(body) {
        Some(item) => message_of(item),
        None => None,
    }
}

/// The text with which a body that holds no message is refused.
pub open spec fn decode_refusal(body: Seq<u8>) -> Seq<char> {
    if cbor_decoding(body) is None {
        cbor_refusal(body)
    } else {
        "not a message of this protocol"@
    }
}

/// Writes a message as a complete frame: the length of the body, then the body.
pub fn encode_frame(msg: &Message) -> (r: Result<Vec<u8>, FrameError>)
    ensures
        match r {
            Ok(frame) => body_of(msg@).len() <= MAX_FRAME && frame@ == be32(
                body_of(msg@).len() as u32,
            ) + body_of(msg@) && message_in(body_of(msg@)) == Some(msg@),
            Err(FrameError::TooLarge(n)) => n == body_of(msg@).len() && n > MAX_FRAME,
            Err(_) => false,
        },
{
    let item = msg.to_item();
    proof {
        message_writable(msg@);
        message_read_back(msg@);
    }
    let body = encode_item(&item);
    if body.len() > MAX_FRAME {
        return Err(FrameError::TooLarge(body.len()));
    }
    let mut frame: Vec<u8> = Vec::new();
    push_be32(&mut frame, body.len() as u32);
    push_bytes(&mut frame, body.as_slice());
    assert(frame@ =~= be32(body@.len() as u32) + body@);
    Ok(frame)
}

/// Reads the body of a frame (without the length before it).
pub fn decode_frame(body: &[u8]) -> (r: Result<Message, FrameError>)
    ensures
        match r {
            Ok(msg) => body@.len() <= MAX_FRAME && message_in(body@) == Some(msg@),
            Err(FrameError::TooLarge(n)) => n == body@.len() && n > MAX_FRAME,
            Err(FrameError::Decode(e)) => body@.len() <= MAX_FRAME && message_in(body@) is None && e@
                == decode_refusal(body@),
            Err(_) => false,
        },
{
    if body.len() > MAX_FRAME {
        return Err(FrameError::TooLarge(body.len()));
    }
    match decode_item(body) {
        Err(e) => Err(FrameError::Decode(e)),
        Ok(item) => {
            proof {
                record_view(item);
            }
            let found = match &item {
                Cbor::Record(m) => if has_text_keys(m) && is_untagged(&item) {
                    message_from(m)
                } else {
                    None
                },
                _ => None,
            };
            match found {
                Some(msg) => Ok(msg),
                None => Err(FrameError::Decode("not a message of this protocol".to_owned())),
            }
        },
    }
}

/// The length of the body that follows the four bytes at the start of a frame.
pub fn frame_length(prefix: &[u8]) -> (r: Result<usize, FrameError>)
    requires
        prefix@.len() == 4,
    ensures
        match r {
            Ok(n) => n as nat == be32_value(prefix@) && n <= MAX_FRAME,
            Err(FrameError::TooLarge(n)) => n as nat == be32_value(prefix@) && n > MAX_FRAME,
            Err(_) => false,
        },
{
    assert(prefix@.subrange(0, 4) =~= prefix@);
    let n: usize = read_be32(prefix, 0) as usize;
    if n > MAX_FRAME {
        Err(FrameError::TooLarge(n))
    } else {
        Ok(n)
    }
}

/// The length, the first and the last character of a name: they tell the names apart.
spec fn mark(s: Seq<char>) -> (nat, char, char) {
    (s.len(), s[0], s.last())
}

/// The names of the kinds of message differ from each other.
proof fn tag_marks()
    ensures
        mark("hello"@) == (5nat, 'h', 'o'),
        mark("request"@) == (7nat, 'r', 't'),
        mark("reply"@) == (5nat, 'r', 'y'),
        mark("list_services"@) == (13nat, 'l', 's'),
        mark("discover_providers"@) == (18nat, 'd', 's'),
        mark("query_public_ip"@) == (15nat, 'q', 'p'),
        mark("reconnect_bootstrap"@) == (19nat, 'r', 'p'),
        mark("reannounce_services"@) == (19nat, 'r', 's'),
        mark("reload_config"@) == (13nat, 'r', 'g'),
        mark("relay_status"@) == (12nat, 'r', 's'),
        mark("pq_status"@) == (9nat, 'p', 's'),
        mark("auth_status"@) == (11nat, 'a', 's'),
        mark("query_key"@) == (9nat, 'q', 'y'),
        mark("add_key"@) == (7nat, 'a', 'y'),
        mark("service_request"@) == (15nat, 's', 't'),
        mark("service_request_to"@) == (18nat, 's', 'o'),
{
    reveal_strlit("hello");
    reveal_strlit("request");
    reveal_strlit("reply");
    reveal_strlit("list_services");
    reveal_strlit("discover_providers");
    reveal_strlit("query_public_ip");
    reveal_strlit("reconnect_bootstrap");
    reveal_strlit("reannounce_services");
    reveal_strlit("reload_config");
    reveal_strlit("relay_status");
    reveal_strlit("pq_status");
    reveal_strlit("auth_status");
    reveal_strlit("query_key");
    reveal_strlit("add_key");
    reveal_strlit("service_request");
    reveal_strlit("service_request_to");
}

/// The names of the members differ from each other.
proof fn name_marks()
    ensures
        mark("t"@) == (1nat, 't', 't'),
        mark("id"@) == (2nat, 'i', 'd'),
        mark("version"@) == (7nat, 'v', 'n'),
        mark("service"@) == (7nat, 's', 'e'),
        mark("payload"@) == (7nat, 'p', 'd'),
        mark("ok"@) == (2nat, 'o', 'k'),
        mark("result"@) == (6nat, 'r', 't'),
        mark("error"@) == (5nat, 'e', 'r'),
        mark("key"@) == (3nat, 'k', 'y'),
        mark("value"@) == (5nat, 'v', 'e'),
        mark("providing"@) == (9nat, 'p', 'g'),
        mark("peer"@) == (4nat, 'p', 'r'),
        mark("code"@) == (4nat, 'c', 'e'),
        mark("message"@) == (7nat, 'm', 'e'),
{
    reveal_strlit("t");
    reveal_strlit("id");
    reveal_strlit("version");
    reveal_strlit("service");
    reveal_strlit("payload");
    reveal_strlit("ok");
    reveal_strlit("result");
    reveal_strlit("error");
    reveal_strlit("key");
    reveal_strlit("value");
    reveal_strlit("providing");
    reveal_strlit("peer");
    reveal_strlit("code");
    reveal_strlit("message");
}

proof fn octets_plain(b: Seq<u8>, depth: nat)
    requires
        depth > 0,
    ensures
        plain(Item::Array(octet_items(b)), depth),
{
    let s = octet_items(b);
    assert forall|i: int| 0 <= i < s.len() implies plain(#[trigger] s[i], (depth - 1) as nat) by {
        assert(s[i] == Item::Int(b[i] as int));
    }
}

/// Every message can be written.
proof fn message_writable(v: MessageView)
    ensures
        writable(Item::Record(members_of(v))),
{
    let m = members_of(v);
    assert forall|i: int| 0 <= i < m.len() implies plain((#[trigger] m[i]).0, 7) && plain(m[i].1, 7) by {
        match v {
            MessageView::Request { payload, .. } => octets_plain(payload, 7),
            MessageView::ServiceRequest { payload, .. } => octets_plain(payload, 7),
            MessageView::ServiceRequestTo { payload, .. } => octets_plain(payload, 7),
            MessageView::Reply { result, error, .. } => {
                if let Some(b) = result {
                    octets_plain(b, 7);
                }
                if let Some(e) = error {
                    let em = error_members(e);
                    assert forall|j: int| 0 <= j < em.len() implies plain((#[trigger] em[j]).0, 6) && plain(em[j].1, 6) by {}
                    assert(plain(error_item(e), 7));
                }
            },
            _ => {},
        }
    }
}

/// The record of a message says that message.
pub proof fn message_read_back(v: MessageView)
    ensures
        message_of(Item::Record(members_of(v))) == Some(v),
{
    let m = members_of(v);
    tag_marks();
    name_marks();
    message_writable(v);
    plain_is_untagged(Item::Record(m), 8);
    assert(text_keys(m));
    if !(v is Hello) {
        let id = message_id(v)->0;
        be128_inverse(id);
        lookup_at(m, 0, "t"@);
        lookup_at(m, 1, "id"@);
    }
    match v {
        MessageView::Hello { version } => {
            lookup_at(m, 0, "t"@);
            lookup_at(m, 1, "version"@);
        },
        MessageView::Request { payload, .. } => {
            lookup_at(m, 2, "service"@);
            lookup_at(m, 3, "payload"@);
            octets_inverse(payload);
        },
        MessageView::ServiceRequest { payload, .. } => {
            lookup_at(m, 2, "service"@);
            lookup_at(m, 3, "payload"@);
            octets_inverse(payload);
        },
        MessageView::ServiceRequestTo { payload, .. } => {
            lookup_at(m, 2, "service"@);
            lookup_at(m, 3, "peer"@);
            lookup_at(m, 4, "payload"@);
            octets_inverse(payload);
        },
        MessageView::DiscoverProviders { .. } => {
            lookup_at(m, 2, "service"@);
        },
        MessageView::QueryKey { .. } => {
            lookup_at(m, 2, "key"@);
        },
        MessageView::AddKey { value, .. } => {
            lookup_at(m, 2, "key"@);
            match value {
                Some(b) => {
                    lookup_at(m, 3, "value"@);
                    lookup_at(m, 4, "providing"@);
                },
                None => {
                    lookup_absent(m, "value"@);
                    lookup_at(m, 3, "providing"@);
                },
            }
        },
        MessageView::Reply { result, error, .. } => {
            lookup_at(m, 2, "ok"@);
            match result {
                Some(b) => {
                    lookup_at(m, 3, "result"@);
                    octets_inverse(b);
                },
                None => {
                    lookup_absent(m, "result"@);
                },
            }
            match error {
                Some(e) => {
                    lookup_at(m, m.len() - 1, "error"@);
                    let em = error_members(e);
                    assert(text_keys(em));
                    lookup_at(em, 0, "code"@);
                    lookup_at(em, 1, "message"@);
                },
                None => {
                    lookup_absent(m, "error"@);
                },
            }
        },
        _ => {},
    }
}

/// What a frame starts with is the length of what follows it, so that a reader that takes the
/// four bytes and then that many more has the whole frame and nothing after it.
pub proof fn frame_delimits_itself(v: MessageView, rest: Seq<u8>)
    requires
        body_of(v).len() <= MAX_FRAME,
    ensures
        ({
            let frame = be32(body_of(v).len() as u32) + body_of(v);
            let stream = frame + rest;
            let n = be32_value(stream.subrange(0, 4));
            &&& n == body_of(v).len()
            &&& stream.subrange(4, 4 + n as int) == body_of(v)
            &&& stream.subrange(4 + n as int, stream.len() as int) == rest
        }),
{
    let body = body_of(v);
    be32_inverse(body.len() as u32);
    let stream = be32(body.len() as u32) + body + rest;
    assert(stream.subrange(0, 4) =~= be32(body.len() as u32));
    assert(stream.subrange(4, 4 + body.len() as int) =~= body);
    assert(stream.subrange(4 + body.len() as int, stream.len() as int) =~= rest);
}

/// Which records say a message: the member `t` names the kind of the message, `id` holds its id, and
/// the other members hold, under their names, just what the message says.
pub proof fn record_says_its_members(m: Seq<(Item, Item)>, v: MessageView)
    ensures
        message_of_members(m) == Some(v) <==> (match v {
            MessageView::Hello { version } => text_field(m, "t"@) == Some("hello"@) && uint_field(m, "version"@) == Some(
                version as u64,
            ),
            MessageView::Request { id, service, payload } => text_field(m, "t"@) == Some("request"@) && uuid_field(m, "id"@)
                == Some(id) && text_field(m, "service"@) == Some(service) && octets_field(m, "payload"@) == Some(payload),
            MessageView::Reply { id, ok, result, error } => text_field(m, "t"@) == Some("reply"@) && uuid_field(m, "id"@)
                == Some(id) && bool_field(m, "ok"@) == Some(ok) && optional_octets(m, "result"@) == Some(result)
                && optional_error(m, "error"@) == Some(error),
            MessageView::ListServices { id } => text_field(m, "t"@) == Some("list_services"@) && uuid_field(m, "id"@) == Some(
                id,
            ),
            MessageView::DiscoverProviders { id, service } => text_field(m, "t"@) == Some("discover_providers"@) && uuid_field(
                m,
                "id"@,
            ) == Some(id) && text_field(m, "service"@) == Some(service),
            MessageView::QueryPublicIp { id } => text_field(m, "t"@) == Some("query_public_ip"@) && uuid_field(m, "id"@)
                == Some(id),
            MessageView::ReconnectBootstrap { id } => text_field(m, "t"@) == Some("reconnect_bootstrap"@) && uuid_field(
                m,
                "id"@,
            ) == Some(id),
            MessageView::ReannounceServices { id } => text_field(m, "t"@) == Some("reannounce_services"@) && uuid_field(
                m,
                "id"@,
            ) == Some(id),
            MessageView::ReloadConfig { id } => text_field(m, "t"@) == Some("reload_config"@) && uuid_field(m, "id"@) == Some(
                id,
            ),
            MessageView::RelayStatus { id } => text_field(m, "t"@) == Some("relay_status"@) && uuid_field(m, "id"@) == Some(id),
            MessageView::PqStatus { id } => text_field(m, "t"@) == Some("pq_status"@) && uuid_field(m, "id"@) == Some(id),
            MessageView::AuthStatus { id } => text_field(m, "t"@) == Some("auth_status"@) && uuid_field(m, "id"@) == Some(id),
            MessageView::QueryKey { id, key } => text_field(m, "t"@) == Some("query_key"@) && uuid_field(m, "id"@) == Some(id)
                && text_field(m, "key"@) == Some(key),
            MessageView::AddKey { id, key, value, providing } => text_field(m, "t"@) == Some("add_key"@) && uuid_field(m, "id"@)
                == Some(id) && text_field(m, "key"@) == Some(key) && optional_bytes(m, "value"@) == Some(value)
                && bool_or_false(m, "providing"@) == Some(providing),
            MessageView::ServiceRequest { id, service, payload } => text_field(m, "t"@) == Some("service_request"@)
                && uuid_field(m, "id"@) == Some(id) && text_field(m, "service"@) == Some(service) && octets_field(m, "payload"@)
                == Some(payload),
            MessageView::ServiceRequestTo { id, service, peer, payload } => text_field(m, "t"@) == Some("service_request_to"@)
                && uuid_field(m, "id"@) == Some(id) && text_field(m, "service"@) == Some(service) && text_field(m, "peer"@)
                == Some(peer) && octets_field(m, "payload"@) == Some(payload),
        }),
{
    tag_marks();
}

/// An id is sixteen bytes, the first of them the highest, or the text of a UUID, and nothing else.
pub proof fn ids_are_uuids(m: Seq<(Item, Item)>, name: Seq<char>, id: u128)
    ensures
        uuid_field(m, name) == Some(id) <==> (exists|b: Seq<u8>|
            lookup(m, name) == Lookup::Found(Item::Bytes(b)) && b.len() == 16 && #[trigger] be128_value(b) == id) || (exists|
            t: Seq<char>,
        |
            lookup(m, name) == Lookup::Found(Item::Text(t)) && #[trigger] uuid_of_text(t) == Some(id)),
{
    match lookup(m, name) {
        Lookup::Found(Item::Bytes(b)) => {
            assert(uuid_field(m, name) == Some(id) ==> be128_value(b) == id);
        },
        Lookup::Found(Item::Text(t)) => {
            assert(uuid_of_text(t) == uuid_field(m, name));
        },
        _ => {},
    }
}

/// What may be missing: where the name is missing or holds null, nothing is said; where it holds a
/// value, that value is said, and a value of another kind or a name that is there twice is refused. A
/// truth value that is missing is false.
pub proof fn optional_members(m: Seq<(Item, Item)>, name: Seq<char>)
    ensures
        lookup(m, name) is Missing || lookup(m, name) == Lookup::Found(Item::Null) ==> optional_octets(m, name) == Some(
            None::<Seq<u8>>,
        ) && optional_bytes(m, name) == Some(None::<Seq<u8>>) && optional_error(m, name) == Some(None::<ErrorView>),
        lookup(m, name) is Missing ==> bool_or_false(m, name) == Some(false),
        lookup(m, name) is Repeated ==> optional_octets(m, name) is None && optional_bytes(m, name) is None && optional_error(
            m,
            name,
        ) is None && bool_or_false(m, name) is None,
        lookup(m, name) matches Lookup::Found(item) ==> (item != Item::Null ==> {
            &&& optional_octets(m, name) == (if as_octets(item) is Some {
                Some(as_octets(item))
            } else {
                None
            })
            &&& optional_bytes(m, name) == (if as_bytes(item) is Some {
                Some(as_bytes(item))
            } else {
                None
            })
            &&& optional_error(m, name) == (if error_of(item) is Some {
                Some(error_of(item))
            } else {
                None
            })
            &&& bool_or_false(m, name) == (match item {
                Item::Bool(b) => Some(b),
                _ => None,
            })
        }),
{
}

/// An error is a record with a code and a message.
pub proof fn errors_have_a_code(item: Item, e: ErrorView)
    ensures
        error_of(item) == Some(e) <==> (item matches Item::Record(m) && text_keys(m) && text_field(m, "code"@) == Some(e.code)
            && text_field(m, "message"@) == Some(e.message)),
{
}

/// A message is written with its members in this order: its kind, its id, and then what it says.
pub proof fn message_is_written_in_order(v: MessageView)
    ensures
        ({
            let m = members_of(v);
            &&& m[0].0 == Item::Text("t"@)
            &&& v is Hello || (m[1] == (Item::Text("id"@), Item::Bytes(be128(message_id(v)->0))) && message_id(v) is Some)
            &&& match v {
                MessageView::Hello { version } => m.len() == 2 && m[0].1 == Item::Text("hello"@) && m[1] == (
                    Item::Text("version"@),
                    Item::Int(version as int),
                ) && message_id(v) is None,
                MessageView::Request { id, service, payload } => m.len() == 4 && message_id(v) == Some(id) && m[0].1
                    == Item::Text("request"@) && m[2] == (Item::Text("service"@), Item::Text(service)) && m[3] == (
                    Item::Text("payload"@),
                    Item::Array(octet_items(payload)),
                ),
                MessageView::Reply { id, ok, result, error } => message_id(v) == Some(id) && m[0].1 == Item::Text("reply"@)
                    && m[2] == (Item::Text("ok"@), Item::Bool(ok)) && (result is Some ==> m[3] == (
                    Item::Text("result"@),
                    Item::Array(octet_items(result->0)),
                )) && (error is Some ==> m.last().0 == Item::Text("error"@) && m.last().1 == Item::Record(
                    seq![
                        (Item::Text("code"@), Item::Text(error->0.code)),
                        (Item::Text("message"@), Item::Text(error->0.message)),
                    ],
                )) && m.len() == 3 + (if result is Some {
                    1int
                } else {
                    0
                }) + (if error is Some {
                    1int
                } else {
                    0
                }),
                MessageView::ListServices { id } => m.len() == 2 && message_id(v) == Some(id) && m[0].1 == Item::Text(
                    "list_services"@,
                ),
                MessageView::DiscoverProviders { id, service } => m.len() == 3 && message_id(v) == Some(id) && m[0].1
                    == Item::Text("discover_providers"@) && m[2] == (Item::Text("service"@), Item::Text(service)),
                MessageView::QueryPublicIp { id } => m.len() == 2 && message_id(v) == Some(id) && m[0].1 == Item::Text(
                    "query_public_ip"@,
                ),
                MessageView::ReconnectBootstrap { id } => m.len() == 2 && message_id(v) == Some(id) && m[0].1 == Item::Text(
                    "reconnect_bootstrap"@,
                ),
                MessageView::ReannounceServices { id } => m.len() == 2 && message_id(v) == Some(id) && m[0].1 == Item::Text(
                    "reannounce_services"@,
                ),
                MessageView::ReloadConfig { id } => m.len() == 2 && message_id(v) == Some(id) && m[0].1 == Item::Text(
                    "reload_config"@,
                ),
                MessageView::RelayStatus { id } => m.len() == 2 && message_id(v) == Some(id) && m[0].1 == Item::Text(
                    "relay_status"@,
                ),
                MessageView::PqStatus { id } => m.len() == 2 && message_id(v) == Some(id) && m[0].1 == Item::Text("pq_status"@),
                MessageView::AuthStatus { id } => m.len() == 2 && message_id(v) == Some(id) && m[0].1 == Item::Text(
                    "auth_status"@,
                ),
                MessageView::QueryKey { id, key } => m.len() == 3 && message_id(v) == Some(id) && m[0].1 == Item::Text(
                    "query_key"@,
                ) && m[2] == (Item::Text("key"@), Item::Text(key)),
                MessageView::AddKey { id, key, value, providing } => message_id(v) == Some(id) && m[0].1 == Item::Text(
                    "add_key"@,
                ) && m[2] == (Item::Text("key"@), Item::Text(key)) && (value is Some ==> m[3] == (
                    Item::Text("value"@),
                    Item::Bytes(value->0),
                )) && m.last() == (Item::Text("providing"@), Item::Bool(providing)) && m.len() == (if value is Some {
                    5int
                } else {
                    4
                }),
                MessageView::ServiceRequest { id, service, payload } => m.len() == 4 && message_id(v) == Some(id) && m[0].1
                    == Item::Text("service_request"@) && m[2] == (Item::Text("service"@), Item::Text(service)) && m[3] == (
                    Item::Text("payload"@),
                    Item::Array(octet_items(payload)),
                ),
                MessageView::ServiceRequestTo { id, service, peer, payload } => m.len() == 5 && message_id(v) == Some(id)
                    && m[0].1 == Item::Text("service_request_to"@) && m[2] == (Item::Text("service"@), Item::Text(service))
                    && m[3] == (Item::Text("peer"@), Item::Text(peer)) && m[4] == (
                    Item::Text("payload"@),
                    Item::Array(octet_items(payload)),
                ),
            }
        }),
{
}

/// A body of up to sixteen mebibytes that is one item, a record with texts for keys and no tag in it,
/// holds the message that the record says; any other body holds none.
pub proof fn body_holds_its_record(body: Seq<u8>, v: MessageView)
    ensures
        MAX_FRAME == 16_777_216,
        message_in(body) == Some(v) <==> (cbor_decoding(body) matches Some(item) && (item matches Item::Record(m) && text_keys(m)
            && untagged(item) && message_of_members(m) == Some(v))),
        body_of(v) == cbor_encoding(Item::Record(members_of(v))),
        cbor_decoding(body) is None ==> decode_refusal(body) == cbor_refusal(body),
        cbor_decoding(body) is Some ==> decode_refusal(body) == "not a message of this protocol"@,
{
}

/// What a frame error says.
pub proof fn frame_errors_say_why(e: String, n: usize)
    ensures
        frame_error_text(FrameError::Io(e)) == "io error: "@ + e@,
        frame_error_text(FrameError::TooLarge(n)) == "frame too large: "@ + decimal(n as nat) + " bytes"@,
        frame_error_text(FrameError::Encode(e)) == "cbor encode error: "@ + e@,
        frame_error_text(FrameError::Decode(e)) == "cbor decode error: "@ + e@,
{
}

/// What a message says is what its fields hold.
pub proof fn messages_say_their_fields(m: Message)
    ensures
        m matches Message::Hello { version } ==> m@ == (MessageView::Hello { version }),
        m matches Message::Request { id, service, payload } ==> m@ == (MessageView::Request {
            id,
            service: service@,
            payload: payload@,
        }),
        m matches Message::Reply { id, ok, result, error } ==> (m@ matches MessageView::Reply { id: i, ok: o, result: b, error: e }
            && i == id && o == ok && (result matches Some(x) ==> b == Some(x@)) && (result is None ==> b is None) && (
        error matches Some(x) ==> (e matches Some(y) && y.code == x.code@ && y.message == x.message@)) && (error is None
            ==> e is None)),
        m matches Message::ListServices { id } ==> m@ == (MessageView::ListServices { id }),
        m matches Message::DiscoverProviders { id, service } ==> m@ == (MessageView::DiscoverProviders { id, service: service@ }),
        m matches Message::QueryPublicIp { id } ==> m@ == (MessageView::QueryPublicIp { id }),
        m matches Message::ReconnectBootstrap { id } ==> m@ == (MessageView::ReconnectBootstrap { id }),
        m matches Message::ReannounceServices { id } ==> m@ == (MessageView::ReannounceServices { id }),
        m matches Message::ReloadConfig { id } ==> m@ == (MessageView::ReloadConfig { id }),
        m matches Message::RelayStatus { id } ==> m@ == (MessageView::RelayStatus { id }),
        m matches Message::PqStatus { id } ==> m@ == (MessageView::PqStatus { id }),
        m matches Message::AuthStatus { id } ==> m@ == (MessageView::AuthStatus { id }),
        m matches Message::QueryKey { id, key } ==> m@ == (MessageView::QueryKey { id, key: key@ }),
        m matches Message::AddKey { id, key, value, providing } ==> (m@ matches MessageView::AddKey {
            id: i,
            key: k,
            value: v,
            providing: p,
        } && i == id && k == key@ && p == providing && (value matches Some(b) ==> v == Some(b@)) && (value is None ==> v is None)),
        m matches Message::ServiceRequest { id, service, payload } ==> m@ == (MessageView::ServiceRequest {
            id,
            service: service@,
            payload: payload@,
        }),
        m matches Message::ServiceRequestTo { id, service, peer, payload } ==> m@ == (MessageView::ServiceRequestTo {
            id,
            service: service@,
            peer: peer@,
            payload: payload@,
        }),
{
}

} // verus!
