//! Commands from the node's sidecars and backends.
//!
//! A command may need the network: then it names an action, whose outcome is handed back, until the
//! command is done.

use crate::auth::{is_valid_service_name, service_name, AuthCache, CachedIndex, CachedWhitelist};
use crate::bytes::{copy_bytes, optional_bytes_view};
use crate::config::{required_names, required_names_are_exact, ConfigHandle, NodeConfig};
use crate::crypto::{
    base64_decode, base64_decoding, base64_encode, base64_of, parse_peer_id, peer_id_of_text, PeerId,
};
use crate::json::{json_members, json_of_texts, json_texts, member_of, text_member, texts_to_json, Json, Leaf, LeafView};
use crate::lists::kept_exactly;
use crate::multiaddr::{addr_views, IpAddr, Multiaddr};
use crate::node_controller::authorize::{cache_value, AuthState};
use crate::node_controller::peers::{best_is_nearest, best_of};
use crate::node_controller::relays::{need_relay, needs_relay, NodeController, RELAY_TARGET};
use crate::node_controller::services::{
    listed_types, provider_key, provider_key_text, types_in, SERVICE_TYPES_KEY,
};
use crate::sidecar_protocol::Message;
use crate::text::{
    first_occurrence, join2, lossy_text, occurs_at, same_text, split_once, text_of_bytes,
    text_of_utf8, text_views,
};
use vstd::prelude::*;
use vstd::string::*;
use vstd::utf8::{decode_utf8, encode_utf8, valid_utf8};

verus! {

/// A command in its text form.
pub struct Command {
    pub prefix: String,
    pub content: String,
    pub payload: Vec<u8>,
}

/// What is to be done on the network for a command.
pub enum Action {
    GetRecord(String),
    GetProviders(String),
    PutRecord { key: String, value: Vec<u8> },
    StartProviding(String),
    SendRequest { peer: PeerId, service: String, payload: Vec<u8> },
    /// Dial each address.
    Dial(Vec<Multiaddr>),
    /// Announce the local services.
    Announce,
    /// Rebuild the network.
    Reload,
}

/// What a command waits for.
pub enum Waiting {
    ListServices,
    DiscoverProviders,
    Reconnect,
    Reannounce,
    Reload,
    AddKeyPut { key: String, providing: bool },
    AddKeyProvide { key: String },
    QueryRecord { key: String },
    QueryProviders { key: String, value: Option<Vec<u8>> },
    FindProvider { service: String, payload: Vec<u8> },
    Response,
}

/// The outcome of an action; an error is its text.
pub enum Event {
    /// The record's value, or nothing where none was found.
    Record(Result<Option<Vec<u8>>, String>),
    Providers(Result<Vec<PeerId>, String>),
    Put(Result<(), String>),
    Provided(Result<(), String>),
    Response(Result<Vec<u8>, String>),
    /// Whether some dial worked.
    Dialed(bool),
    Announced(Result<(), String>),
    Reloaded(Result<(), String>),
}

/// A value of the distributed table: as text, in which what is not UTF-8 is replaced, and in base64.
pub struct KeyValue {
    pub text: String,
    pub b64: String,
}

/// The state of the kept index.
#[derive(Debug, Clone, Copy)]
pub struct IndexReport {
    pub version: u64,
    pub expires_at: u64,
    pub age_secs: u64,
    pub services: usize,
    pub fresh: bool,
}

/// The state of one kept whitelist.
#[derive(Debug, Clone, Copy)]
pub struct WhitelistReport {
    pub version: u64,
    pub members: usize,
    pub age_secs: u64,
}

/// The state of what is kept.
pub struct CacheReport {
    pub index: Option<IndexReport>,
    /// By service.
    pub whitelists: Vec<(String, WhitelistReport)>,
    /// The services that require authorization here but are not in the index.
    pub not_in_index: Vec<String>,
}

/// The state of authorization, by name.
#[derive(Debug, Clone, Copy, PartialEq, Eq, Structural)]
pub enum AuthLabel {
    Disabled,
    Active,
    Misconfigured,
}

/// The state of authorization.
pub struct AuthReport {
    pub network: String,
    pub state: AuthLabel,
    /// Why it is misconfigured.
    pub detail: Option<String>,
    /// The local services that require authorization.
    pub local_required: Vec<String>,
    /// Nothing where the cache cannot be read.
    pub cache: Option<CacheReport>,
}

/// The answer to a command.
pub enum Reply {
    /// These bytes.
    Bytes(Vec<u8>),
    PublicIp { ipv4: Option<IpAddr>, ipv6: Option<IpAddr> },
    /// Whether it worked, and why not.
    Outcome { success: bool, error: Option<String> },
    RelayStatus { need_relay: bool, target: usize, active: Vec<PeerId>, pending: Vec<PeerId> },
    PqStatus { enabled: bool, transport: bool, identity: bool, required: bool },
    AuthStatus(AuthReport),
    Added { key: String },
    Key { key: String, value: Option<KeyValue>, providers: Vec<PeerId> },
}

/// What comes next.
pub enum Step {
    /// The command is done, with this answer or this error.
    Done(Result<Reply, String>),
    /// This is to be done, and its outcome to be handed back.
    Do(Action, Waiting),
}

/// Whether a step is the end, with an error of that text.
pub open spec fn fails_with(r: Step, text: Seq<char>) -> bool {
    r matches Step::Done(Err(e)) && e@ == text
}

/// What the value of an `add_key` command is: `value` as text, or else `value_b64`.
pub open spec fn add_key_value(m: Seq<(Seq<char>, LeafView)>) -> Result<Option<Seq<u8>>, Seq<char>> {
    match member_of(m, "value"@) {
        Some(LeafView::Text(t)) => Ok(Some(encode_utf8(t))),
        Some(_) => Err("'value' must be a string"@),
        None => match member_of(m, "value_b64"@) {
            Some(LeafView::Text(t)) => match base64_decoding(t) {
                Ok(b) => Ok(Some(b)),
                Err(e) => Err("invalid base64 in 'value_b64': "@ + e),
            },
            Some(_) => Err("'value_b64' must be a string"@),
            None => Ok(None),
        },
    }
}

/// Reads the value of an `add_key` command. Where both are given, the text counts.
pub fn parse_add_key_value(json: &Json) -> (r: Result<Option<Vec<u8>>, String>)
    ensures
        match r {
            Ok(v) => add_key_value(json@) == Ok::<Option<Seq<u8>>, Seq<char>>(optional_bytes_view(v)),
            Err(e) => add_key_value(json@) == Err::<Option<Seq<u8>>, Seq<char>>(e@),
        },
{
    match json.get("value") {
        Some(Leaf::Text(t)) => {
            return Ok(Some(copy_bytes(t.as_str().as_bytes())));
        },
        Some(_) => {
            return Err("'value' must be a string".to_owned());
        },
        None => {},
    }
    match json.get("value_b64") {
        Some(Leaf::Text(t)) => match base64_decode(t.as_str()) {
            Ok(b) => Ok(Some(b)),
            Err(e) => Err(join2("invalid base64 in 'value_b64': ", e.as_str())),
        },
        Some(_) => Err("'value_b64' must be a string".to_owned()),
        None => Ok(None),
    }
}

/// What adding a key starts with: write the value, or else provide the key.
pub open spec fn add_started(key: Seq<char>, value: Option<Seq<u8>>, providing: bool, r: Step) -> bool {
    if key.len() == 0 {
        fails_with(r, "missing 'key' field"@)
    } else {
        match value {
            Some(b) => r matches Step::Do(Action::PutRecord { key: k, value: v }, Waiting::AddKeyPut { key: w, providing: p })
                && k@ == key && v@ == b && w@ == key && p == providing,
            None => if providing {
                r matches Step::Do(Action::StartProviding(k), Waiting::AddKeyProvide { key: w }) && k@ == key && w@ == key
            } else {
                fails_with(r, "at least one of 'value', 'value_b64' or 'providing' is required"@)
            },
        }
    }
}

fn start_add_key(key: String, value: Option<Vec<u8>>, providing: bool) -> (r: Step)
    ensures
        add_started(key@, optional_bytes_view(value), providing, r),
{
    if key.as_str().is_empty() {
        return Step::Done(Err("missing 'key' field".to_owned()));
    }
    match value {
        Some(value) => Step::Do(
            Action::PutRecord { key: key.clone(), value },
            Waiting::AddKeyPut { key, providing },
        ),
        None => if providing {
            Step::Do(Action::StartProviding(key.clone()), Waiting::AddKeyProvide { key })
        } else {
            Step::Done(
                Err("at least one of 'value', 'value_b64' or 'providing' is required".to_owned()),
            )
        },
    }
}

/// Whether a JSON object asks to provide the key.
pub open spec fn asks_providing(m: Seq<(Seq<char>, LeafView)>) -> bool {
    member_of(m, "providing"@) matches Some(LeafView::Bool(b)) && b
}

/// What an `add_key` command in JSON starts with.
pub open spec fn add_json_started(payload: Seq<u8>, r: Step) -> bool {
    match json_members(payload) {
        Err(e) => fails_with(r, "invalid JSON: "@ + e),
        Ok(m) => {
            let key = match text_member(m, "key"@) {
                Some(k) => k,
                None => Seq::empty(),
            };
            if key.len() == 0 {
                fails_with(r, "missing 'key' field"@)
            } else {
                match add_key_value(m) {
                    Err(e) => fails_with(r, e),
                    Ok(v) => add_started(key, v, asks_providing(m), r),
                }
            }
        },
    }
}

fn start_add_json(payload: &[u8]) -> (r: Step)
    ensures
        add_json_started(payload@, r),
{
    let json = match Json::from_bytes(payload) {
        Ok(j) => j,
        Err(e) => {
            return Step::Done(Err(join2("invalid JSON: ", e.as_str())));
        },
    };
    let key = match json.text("key") {
        Some(k) => k,
        None => {
            return Step::Done(Err("missing 'key' field".to_owned()));
        },
    };
    if key.as_str().is_empty() {
        return Step::Done(Err("missing 'key' field".to_owned()));
    }
    let providing = match json.get("providing") {
        Some(Leaf::Bool(b)) => *b,
        _ => false,
    };
    match parse_add_key_value(&json) {
        Err(e) => Step::Done(Err(e)),
        Ok(value) => start_add_key(key, value, providing),
    }
}

/// What asking for a key starts with.
pub open spec fn query_started(key: Seq<char>, r: Step) -> bool {
    if key.len() == 0 {
        fails_with(r, "missing key"@)
    } else {
        r matches Step::Do(Action::GetRecord(k), Waiting::QueryRecord { key: w }) && k@ == key && w@ == key
    }
}

fn start_query(key: String) -> (r: Step)
    ensures
        query_started(key@, r),
{
    if key.as_str().is_empty() {
        return Step::Done(Err("missing key".to_owned()));
    }
    Step::Do(Action::GetRecord(key.clone()), Waiting::QueryRecord { key })
}

/// What asking the nearest provider of a service starts with: who provides it.
pub open spec fn request_started(service: Seq<char>, payload: Seq<u8>, r: Step) -> bool {
    r matches Step::Do(Action::GetProviders(k), Waiting::FindProvider { service: s, payload: p }) && k@
        == provider_key_text(service) && s@ == service && p@ == payload
}

fn start_request(service: String, payload: Vec<u8>) -> (r: Step)
    ensures
        request_started(service@, payload@, r),
{
    Step::Do(
        Action::GetProviders(provider_key(service.as_str())),
        Waiting::FindProvider { service, payload },
    )
}

/// What asking one peer's service starts with.
pub open spec fn request_to_started(service: Seq<char>, peer: Seq<char>, payload: Seq<u8>, r: Step) -> bool {
    match peer_id_of_text(peer) {
        Ok(id) => r matches Step::Do(Action::SendRequest { peer: p, service: s, payload: b }, Waiting::Response) && p@
            == id && s@ == service && b@ == payload,
        Err(e) => fails_with(r, "invalid peer id: "@ + e),
    }
}

fn start_request_to(service: String, peer: &str, payload: Vec<u8>) -> (r: Step)
    ensures
        request_to_started(service@, peer@, payload@, r),
{
    match parse_peer_id(peer) {
        Ok(peer) => Step::Do(Action::SendRequest { peer, service, payload }, Waiting::Response),
        Err(e) => Step::Done(Err(join2("invalid peer id: ", e.as_str()))),
    }
}

/// The text of bytes that are UTF-8, and no text for others.
pub open spec fn utf8_or_empty(b: Seq<u8>) -> Seq<char> {
    if valid_utf8(b) {
        decode_utf8(b)
    } else {
        Seq::empty()
    }
}

/// The names of some that are names of services, in order.
pub open spec fn only_service_names(names: Seq<Seq<char>>) -> Seq<Seq<char>>
    decreases names.len(),
{
    if names.len() == 0 {
        Seq::empty()
    } else if service_name(names.last()) {
        only_service_names(names.drop_last()).push(names.last())
    } else {
        only_service_names(names.drop_last())
    }
}

/// The whole seconds between two readings of the clock.
pub open spec fn age_secs(fetched_at: u64, clock: u64) -> u64 {
    if clock > fetched_at {
        ((clock - fetched_at) / 1_000_000_000) as u64
    } else {
        0
    }
}

/// Whether a report on the kept index is right.
pub open spec fn index_reported(i: CachedIndex, now: u64, ttl_secs: u64, clock: u64, r: IndexReport) -> bool {
    &&& r.version == i.version
    &&& r.expires_at == i.expires_at
    &&& r.age_secs == age_secs(i.fetched_at, clock)
    &&& r.services == i.services.order().len()
    &&& r.fresh == i.fresh(now, ttl_secs, clock)
}

/// The names whose whitelists are kept, in order.
pub open spec fn names_kept(names: Seq<Seq<char>>, kept: Map<Seq<char>, CachedWhitelist>) -> Seq<Seq<char>>
    decreases names.len(),
{
    if names.len() == 0 {
        Seq::empty()
    } else if kept.dom().contains(names.last()) {
        names_kept(names.drop_last(), kept).push(names.last())
    } else {
        names_kept(names.drop_last(), kept)
    }
}

/// Whether a report on a kept whitelist is right.
pub open spec fn whitelist_reported(w: CachedWhitelist, clock: u64, r: WhitelistReport) -> bool {
    &&& r.version == w.version
    &&& r.members == w.members.order().len()
    &&& r.age_secs == age_secs(w.fetched_at, clock)
}

/// Whether reports on whitelists are those of the names whose whitelists are kept.
pub open spec fn whitelists_reported(
    names: Seq<Seq<char>>,
    kept: Map<Seq<char>, CachedWhitelist>,
    clock: u64,
    r: Seq<(String, WhitelistReport)>,
) -> bool {
    let have = names_kept(names, kept);
    &&& r.len() == have.len()
    &&& forall|i: int|
        0 <= i < r.len() ==> (#[trigger] r[i]).0@ == have[i] && whitelist_reported(kept[have[i]], clock, r[i].1)
}

/// The names that the index does not list, in order; all of them where there is no index.
pub open spec fn names_not_listed(names: Seq<Seq<char>>, index: Option<CachedIndex>) -> Seq<Seq<char>>
    decreases names.len(),
{
    if names.len() == 0 {
        Seq::empty()
    } else if index matches Some(i) && i.services@.dom().contains(names.last()) {
        names_not_listed(names.drop_last(), index)
    } else {
        names_not_listed(names.drop_last(), index).push(names.last())
    }
}

/// Whether a report on what is kept is right.
pub open spec fn cache_reported(
    cache: AuthCache,
    names: Seq<Seq<char>>,
    now: u64,
    ttl_secs: u64,
    clock: u64,
    r: CacheReport,
) -> bool {
    &&& match cache.kept_index() {
        Some(i) => r.index matches Some(x) && index_reported(i, now, ttl_secs, clock, x),
        None => r.index is None,
    }
    &&& whitelists_reported(names, cache.kept_whitelists(), clock, r.whitelists@)
    &&& text_views(r.not_in_index@) == names_not_listed(names, cache.kept_index())
}

/// Whether a report on authorization is right.
pub open spec fn auth_reported(
    state: AuthState,
    config: NodeConfig,
    cache: Option<AuthCache>,
    now: u64,
    clock: u64,
    r: AuthReport,
) -> bool {
    let names = only_service_names(required_names(config.services.dispatcher.local_services@));
    &&& r.network@ == config.auth.network@
    &&& match state {
        AuthState::Disabled => r.state == AuthLabel::Disabled && r.detail is None,
        AuthState::Active(_) => r.state == AuthLabel::Active && r.detail is None,
        AuthState::Misconfigured(why) => r.state == AuthLabel::Misconfigured && (r.detail matches Some(d) && d@ == why@),
    }
    &&& text_views(r.local_required@) == names
    &&& match cache {
        Some(c) => r.cache matches Some(x) && cache_reported(c, names, now, config.auth.cache_ttl_secs as u64, clock, x),
        None => r.cache is None,
    }
}

fn age_of(fetched_at: u64, clock: u64) -> (r: u64)
    ensures
        r == age_secs(fetched_at, clock),
{
    clock.saturating_sub(fetched_at) / 1_000_000_000
}

fn keep_service_names(names: Vec<String>) -> (r: Vec<String>)
    ensures
        text_views(r@) == only_service_names(text_views(names@)),
{
    let ghost all = text_views(names@);
    let mut out: Vec<String> = Vec::new();
    let mut i: usize = 0;
    assert(all.subrange(0, 0) =~= Seq::<Seq<char>>::empty());
    assert(text_views(out@) =~= Seq::<Seq<char>>::empty());
    while i < names.len()
        invariant
            i <= names@.len(),
            all == text_views(names@),
            text_views(out@) == only_service_names(all.subrange(0, i as int)),
        decreases names@.len() - i,
    {
        proof {
            let upto = all.subrange(0, i + 1);
            assert(upto.drop_last() =~= all.subrange(0, i as int));
            assert(upto.last() == names@[i as int]@);
        }
        if is_valid_service_name(names[i].as_str()) {
            let ghost before = out@;
            out.push(names[i].clone());
            assert(text_views(out@) =~= text_views(before).push(names@[i as int]@));
        }
        i += 1;
    }
    assert(all.subrange(0, all.len() as int) =~= all);
    out
}

fn report_cache(cache: &AuthCache, names: &Vec<String>, now: u64, ttl_secs: u64, clock: u64) -> (r: CacheReport)
    ensures
        cache_reported(*cache, text_views(names@), now, ttl_secs, clock, r),
{
    let index = match cache.index() {
        Some(i) => Some(
            IndexReport {
                version: i.version,
                expires_at: i.expires_at,
                age_secs: age_of(i.fetched_at, clock),
                services: i.services.len(),
                fresh: i.is_fresh(now, ttl_secs, clock),
            },
        ),
        None => None,
    };
    let ghost all = text_views(names@);
    let ghost kept = cache.kept_whitelists();
    let mut whitelists: Vec<(String, WhitelistReport)> = Vec::new();
    let mut not_in_index: Vec<String> = Vec::new();
    let mut i: usize = 0;
    assert(all.subrange(0, 0) =~= Seq::<Seq<char>>::empty());
    assert(text_views(not_in_index@) =~= Seq::<Seq<char>>::empty());
    while i < names.len()
        invariant
            i <= names@.len(),
            all == text_views(names@),
            kept == cache.kept_whitelists(),
            whitelists_reported(all.subrange(0, i as int), kept, clock, whitelists@),
            text_views(not_in_index@) == names_not_listed(all.subrange(0, i as int), cache.kept_index()),
        decreases names@.len() - i,
    {
        proof {
            let upto = all.subrange(0, i + 1);
            assert(upto.drop_last() =~= all.subrange(0, i as int));
            assert(upto.last() == names@[i as int]@);
        }
        let name = names[i].as_str();
        match cache.whitelist(name) {
            Some(w) => {
                let report = WhitelistReport {
                    version: w.version,
                    members: w.members.len(),
                    age_secs: age_of(w.fetched_at, clock),
                };
                whitelists.push((names[i].clone(), report));
            },
            None => {},
        }
        let listed = match cache.index() {
            Some(idx) => idx.services.contains(name),
            None => false,
        };
        if !listed {
            let ghost before = not_in_index@;
            not_in_index.push(names[i].clone());
            assert(text_views(not_in_index@) =~= text_views(before).push(names@[i as int]@));
        }
        i += 1;
    }
    assert(all.subrange(0, all.len() as int) =~= all);
    CacheReport { index, whitelists, not_in_index }
}

/// Reports on the state of authorization.
pub fn auth_status(state: &AuthState, config: &ConfigHandle, cache: Option<&AuthCache>, now: u64, clock: u64) -> (r: AuthReport)
    ensures
        auth_reported(*state, config.inner, cache_value(cache), now, clock, r),
{
    let (label, detail) = match state {
        AuthState::Disabled => (AuthLabel::Disabled, None),
        AuthState::Active(_) => (AuthLabel::Active, None),
        AuthState::Misconfigured(why) => (AuthLabel::Misconfigured, Some(why.clone())),
    };
    let local_required = keep_service_names(config.auth_required_services());
    let ttl: u64 = config.auth_cache_ttl() as u64;
    let report = match cache {
        Some(c) => Some(report_cache(c, &local_required, now, ttl, clock)),
        None => None,
    };
    AuthReport { network: config.auth_network(), state: label, detail, local_required, cache: report }
}

/// Whether the answer on relays is right.
pub open spec fn relays_reported(c: NodeController, config: NodeConfig, r: Step) -> bool {
    r matches Step::Done(Ok(Reply::RelayStatus { need_relay, target, active, pending })) && need_relay == needs_relay(config)
        && target == RELAY_TARGET && text_views(active@) == c.active_relays.order() && text_views(pending@)
        == c.pending_relays.order() && (forall|p: Seq<char>| #[trigger]
        text_views(active@).contains(p) <==> c.active_relays@.dom().contains(p)) && (forall|p: Seq<char>| #[trigger]
        text_views(pending@).contains(p) <==> c.pending_relays@.dom().contains(p))
}

/// Whether a step is what a command of a name and a payload, for the node itself, starts with.
pub open spec fn node_command_started(
    c: NodeController,
    config: NodeConfig,
    cache: Option<AuthCache>,
    name: Seq<char>,
    payload: Seq<u8>,
    now: u64,
    clock: u64,
    r: Step,
) -> bool {
    if name == "list_services"@ {
        r matches Step::Do(Action::GetRecord(k), Waiting::ListServices) && k@ == SERVICE_TYPES_KEY@
    } else if name == "discover_providers"@ {
        r matches Step::Do(Action::GetProviders(k), Waiting::DiscoverProviders) && k@ == provider_key_text(
            utf8_or_empty(payload),
        )
    } else if name == "query_public_ip"@ {
        r matches Step::Done(Ok(Reply::PublicIp { ipv4, ipv6 })) && ipv4 == config.network.ipv4_address && ipv6
            == config.network.ipv6_address
    } else if name == "reconnect_bootstrap"@ {
        r matches Step::Do(Action::Dial(nodes), Waiting::Reconnect) && addr_views(nodes@) == addr_views(
            config.services.kademlia.bootstrap_nodes@,
        )
    } else if name == "reannounce_services"@ {
        r matches Step::Do(Action::Announce, Waiting::Reannounce)
    } else if name == "reload_config"@ {
        r matches Step::Do(Action::Reload, Waiting::Reload)
    } else if name == "relay_status"@ {
        relays_reported(c, config, r)
    } else if name == "pq_status"@ {
        r matches Step::Done(Ok(Reply::PqStatus { enabled, transport, identity, required })) && enabled == (transport
            || identity) && transport == config.crypto.pq_transport_enabled && identity
            == config.crypto.pq_identity_enabled && required == config.crypto.pq_required
    } else if name == "auth_status"@ {
        r matches Step::Done(Ok(Reply::AuthStatus(report))) && auth_reported(
            c.auth_state,
            config,
            cache,
            now,
            clock,
            report,
        )
    } else if name == "add_key"@ {
        add_json_started(payload, r)
    } else if name == "query_key"@ {
        query_started(lossy_text(payload), r)
    } else {
        fails_with(r, "Unknown command"@)
    }
}

/// Whether a step is what a command starts with.
pub open spec fn command_started(
    c: NodeController,
    config: NodeConfig,
    cache: Option<AuthCache>,
    cmd: Command,
    now: u64,
    clock: u64,
    r: Step,
) -> bool {
    let content = cmd.content@;
    if cmd.prefix@ == "@"@ {
        node_command_started(c, config, cache, content, cmd.payload@, now, clock, r)
    } else if cmd.prefix@ == "service_request"@ {
        request_started(content, cmd.payload@, r)
    } else if cmd.prefix@ == "service_request_to"@ {
        ||| (forall|i: int| !#[trigger] occurs_at(content, "/in"@, i)) && fails_with(
            r,
            "expected format: <service>/in<peerid>"@,
        )
        ||| exists|i: int| #[trigger]
            first_occurrence(content, "/in"@, i) && request_to_started(
                content.subrange(0, i),
                content.subrange(i + "/in"@.len(), content.len() as int),
                cmd.payload@,
                r,
            )
    } else {
        fails_with(r, "command not supported"@)
    }
}

impl NodeController {
    /// The node's relays.
    fn relay_status(&self, config: &ConfigHandle) -> (r: Step)
        ensures
            relays_reported(*self, config.inner, r),
    {
        let active = self.active_relays.keys();
        let pending = self.pending_relays.keys();
        Step::Done(
            Ok(Reply::RelayStatus { need_relay: need_relay(config), target: RELAY_TARGET, active, pending }),
        )
    }

    fn start_node_command(
        &self,
        config: &ConfigHandle,
        cache: Option<&AuthCache>,
        name: &str,
        payload: Vec<u8>,
        now: u64,
        clock: u64,
    ) -> (r: Step)
        ensures
            node_command_started(
                *self,
                config.inner,
                cache_value(cache),
                name@,
                payload@,
                now,
                clock,
                r,
            ),
    {
        if same_text(name, "list_services") {
            return Step::Do(Action::GetRecord(SERVICE_TYPES_KEY.to_owned()), Waiting::ListServices);
        }
        if same_text(name, "discover_providers") {
            let service = match text_of_utf8(payload) {
                Some(t) => t,
                None => String::new(),
            };
            return Step::Do(
                Action::GetProviders(provider_key(service.as_str())),
                Waiting::DiscoverProviders,
            );
        }
        if same_text(name, "query_public_ip") {
            return Step::Done(
                Ok(
                    Reply::PublicIp {
                        ipv4: config.inner.network.ipv4_address,
                        ipv6: config.inner.network.ipv6_address,
                    },
                ),
            );
        }
        if same_text(name, "reconnect_bootstrap") {
            return Step::Do(Action::Dial(config.bootstrap_nodes()), Waiting::Reconnect);
        }
        if same_text(name, "reannounce_services") {
            return Step::Do(Action::Announce, Waiting::Reannounce);
        }
        if same_text(name, "reload_config") {
            return Step::Do(Action::Reload, Waiting::Reload);
        }
        if same_text(name, "relay_status") {
            return self.relay_status(config);
        }
        if same_text(name, "pq_status") {
            return Step::Done(
                Ok(
                    Reply::PqStatus {
                        enabled: config.pq_enabled(),
                        transport: config.pq_transport_enabled(),
                        identity: config.pq_identity_enabled(),
                        required: config.pq_required(),
                    },
                ),
            );
        }
        if same_text(name, "auth_status") {
            let report = auth_status(&self.auth_state, config, cache, now, clock);
            return Step::Done(Ok(Reply::AuthStatus(report)));
        }
        if same_text(name, "add_key") {
            return start_add_json(payload.as_slice());
        }
        if same_text(name, "query_key") {
            return start_query(text_of_bytes(payload.as_slice()));
        }
        Step::Done(Err("Unknown command".to_owned()))
    }

    /// Starts a command in its text form.
    pub fn start_command(
        &self,
        config: &ConfigHandle,
        cache: Option<&AuthCache>,
        cmd: Command,
        now: u64,
        clock: u64,
    ) -> (r: Step)
        ensures
            command_started(*self, config.inner, cache_value(cache), cmd, now, clock, r),
            r matches Step::Do(Action::SendRequest { peer, service, payload }, _) ==> cmd.prefix@ == "service_request_to"@
                && payload@ == cmd.payload@ && exists|text: Seq<char>|
                #![trigger peer_id_of_text(text)]
                cmd.content@ == service@ + "/in"@ + text && peer_id_of_text(text) == Ok::<Seq<char>, Seq<char>>(peer@),
            cmd.prefix@ == "service_request"@ ==> (r matches Step::Do(
                Action::GetProviders(k),
                Waiting::FindProvider { service, payload },
            ) && k@ == "/oahd/service/"@ + cmd.content@ && service@ == cmd.content@ && payload@ == cmd.payload@),
    {
        proof {
            command_prefixes();
        }
        let prefix = cmd.prefix.as_str();
        if same_text(prefix, "@") {
            return self.start_node_command(config, cache, cmd.content.as_str(), cmd.payload, now, clock);
        }
        if same_text(prefix, "service_request") {
            return start_request(cmd.content, cmd.payload);
        }
        if same_text(prefix, "service_request_to") {
            return match split_once(cmd.content.as_str(), "/in") {
                Some((service, peer)) => {
                    let ghost content = cmd.content@;
                    let ghost i = service@.len() as int;
                    proof {
                        assert(content.subrange(0, i) =~= service@);
                        assert(content.subrange(i + "/in"@.len(), content.len() as int) =~= peer@);
                    }
                    let step = start_request_to(service, peer.as_str(), cmd.payload);
                    assert(first_occurrence(content, "/in"@, i));
                    step
                },
                None => Step::Done(Err("expected format: <service>/in<peerid>".to_owned())),
            };
        }
        Step::Done(Err("command not supported".to_owned()))
    }
}

/// What commands in their text form start with differs.
proof fn command_prefixes()
    ensures
        "@"@.len() == 1,
        "service_request"@.len() == 15,
        "service_request_to"@.len() == 18,
{
    reveal_strlit("@");
    reveal_strlit("service_request");
    reveal_strlit("service_request_to");
}

/// Whether a step is what a message from a sidecar starts with; nothing where the message is no
/// command.
pub open spec fn message_started(
    c: NodeController,
    config: NodeConfig,
    cache: Option<AuthCache>,
    msg: Message,
    now: u64,
    clock: u64,
    r: Option<Step>,
) -> bool {
    match msg {
        Message::Hello { .. } => r is None,
        Message::Request { .. } => r is None,
        Message::Reply { .. } => r is None,
        Message::ListServices { .. } => r matches Some(s) && node_command_started(
            c, config, cache, "list_services"@, Seq::empty(), now, clock, s),
        Message::DiscoverProviders { service, .. } => r matches Some(s) && (s matches Step::Do(
            Action::GetProviders(k),
            Waiting::DiscoverProviders,
        ) && k@ == provider_key_text(service@)),
        Message::QueryPublicIp { .. } => r matches Some(s) && node_command_started(
            c, config, cache, "query_public_ip"@, Seq::empty(), now, clock, s),
        Message::ReconnectBootstrap { .. } => r matches Some(s) && node_command_started(
            c, config, cache, "reconnect_bootstrap"@, Seq::empty(), now, clock, s),
        Message::ReannounceServices { .. } => r matches Some(s) && node_command_started(
            c, config, cache, "reannounce_services"@, Seq::empty(), now, clock, s),
        Message::ReloadConfig { .. } => r matches Some(s) && node_command_started(
            c, config, cache, "reload_config"@, Seq::empty(), now, clock, s),
        Message::RelayStatus { .. } => r matches Some(s) && node_command_started(
            c, config, cache, "relay_status"@, Seq::empty(), now, clock, s),
        Message::PqStatus { .. } => r matches Some(s) && node_command_started(
            c, config, cache, "pq_status"@, Seq::empty(), now, clock, s),
        Message::AuthStatus { .. } => r matches Some(s) && node_command_started(
            c, config, cache, "auth_status"@, Seq::empty(), now, clock, s),
        Message::QueryKey { key, .. } => r matches Some(s) && query_started(key@, s),
        Message::AddKey { key, value, providing, .. } => r matches Some(s) && add_started(
            key@,
            optional_bytes_view(value),
            providing,
            s,
        ),
        Message::ServiceRequest { service, payload, .. } => r matches Some(s) && request_started(
            service@,
            payload@,
            s,
        ),
        Message::ServiceRequestTo { service, peer, payload, .. } => r matches Some(s) && request_to_started(
            service@,
            peer@,
            payload@,
            s,
        ),
    }
}

impl NodeController {
    fn start_plain(&self, config: &ConfigHandle, cache: Option<&AuthCache>, name: &str, now: u64, clock: u64) -> (r: Option<Step>)
        ensures
            r matches Some(s) && node_command_started(
                *self,
                config.inner,
                cache_value(cache),
                name@,
                Seq::empty(),
                now,
                clock,
                s,
            ),
    {
        let none: Vec<u8> = Vec::new();
        Some(self.start_node_command(config, cache, name, none, now, clock))
    }

    /// Starts the command that a message from a sidecar is; nothing where it is none.
    pub fn start_message(
        &self,
        config: &ConfigHandle,
        cache: Option<&AuthCache>,
        msg: Message,
        now: u64,
        clock: u64,
    ) -> (r: Option<Step>)
        ensures
            message_started(*self, config.inner, cache_value(cache), msg, now, clock, r),
            msg matches Message::ServiceRequestTo { service, peer, payload, .. } ==> (peer_id_of_text(peer@) matches Ok(id)
                ==> (r matches Some(
                Step::Do(Action::SendRequest { peer: p, service: s, payload: b }, Waiting::Response),
            ) && p@ == id && s@ == service@ && b@ == payload@)),
            msg matches Message::ServiceRequest { service, payload, .. } ==> (r matches Some(
                Step::Do(Action::GetProviders(k), Waiting::FindProvider { service: s, payload: b }),
            ) && k@ == "/oahd/service/"@ + service@ && s@ == service@ && b@ == payload@),
    {
        match msg {
            Message::Hello { .. } => None,
            Message::Request { .. } => None,
            Message::Reply { .. } => None,
            Message::ListServices { .. } => self.start_plain(config, cache, "list_services", now, clock),
            Message::DiscoverProviders { service, .. } => Some(
                Step::Do(Action::GetProviders(provider_key(service.as_str())), Waiting::DiscoverProviders),
            ),
            Message::QueryPublicIp { .. } => self.start_plain(config, cache, "query_public_ip", now, clock),
            Message::ReconnectBootstrap { .. } => self.start_plain(config, cache, "reconnect_bootstrap", now, clock),
            Message::ReannounceServices { .. } => self.start_plain(config, cache, "reannounce_services", now, clock),
            Message::ReloadConfig { .. } => self.start_plain(config, cache, "reload_config", now, clock),
            Message::RelayStatus { .. } => self.start_plain(config, cache, "relay_status", now, clock),
            Message::PqStatus { .. } => self.start_plain(config, cache, "pq_status", now, clock),
            Message::AuthStatus { .. } => self.start_plain(config, cache, "auth_status", now, clock),
            Message::QueryKey { key, .. } => Some(start_query(key)),
            Message::AddKey { key, value, providing, .. } => Some(start_add_key(key, value, providing)),
            Message::ServiceRequest { service, payload, .. } => Some(start_request(service, payload)),
            Message::ServiceRequestTo { service, peer, payload, .. } => Some(
                start_request_to(service, peer.as_str(), payload),
            ),
        }
    }
}

/// Whether an answer to a query is right: the value as text and in base64, from which the bytes can
/// be read back, and the providers.
pub open spec fn key_answered(key: Seq<char>, value: Option<Seq<u8>>, providers: Seq<Seq<char>>, r: Step) -> bool {
    r matches Step::Done(Ok(Reply::Key { key: k, value: v, providers: p })) && k@ == key && text_views(p@) == providers
        && match value {
        Some(b) => v matches Some(kv) && kv.text@ == lossy_text(b) && kv.b64@ == base64_of(b) && base64_decoding(
            kv.b64@,
        ) == Ok::<Seq<u8>, Seq<char>>(b),
        None => v is None,
    }
}

/// Whether a step is the end, with whether something worked and why not.
pub open spec fn outcome_answered(outcome: Result<(), String>, r: Step) -> bool {
    r matches Step::Done(Ok(Reply::Outcome { success, error })) && match outcome {
        Ok(_) => success && error is None,
        Err(e) => !success && (error matches Some(t) && t@ == e@),
    }
}

/// Whether a step is what a waiting command goes on with after an outcome. An outcome of another
/// kind than the one that is waited for ends the command without a result.
pub open spec fn resumed(c: NodeController, waiting: Waiting, event: Event, r: Step) -> bool {
    match (waiting, event) {
        (Waiting::ListServices, Event::Record(found)) => r matches Step::Done(Ok(Reply::Bytes(b))) && b@ == json_of_texts(
            listed_types(match found {
                Ok(v) => optional_bytes_view(v),
                Err(_) => None,
            }),
        ),
        (Waiting::DiscoverProviders, Event::Providers(found)) => match found {
            Ok(p) => r matches Step::Done(Ok(Reply::Bytes(b))) && b@ == json_of_texts(text_views(p@)),
            Err(e) => fails_with(r, e@),
        },
        (Waiting::Reconnect, Event::Dialed(any)) => r matches Step::Done(Ok(Reply::Outcome { success, error })) && success
            == any && error is None,
        (Waiting::Reannounce, Event::Announced(outcome)) => outcome_answered(outcome, r),
        (Waiting::Reload, Event::Reloaded(outcome)) => outcome_answered(outcome, r),
        (Waiting::AddKeyPut { key, providing }, Event::Put(outcome)) => match outcome {
            Ok(_) => if providing {
                r matches Step::Do(Action::StartProviding(k), Waiting::AddKeyProvide { key: w }) && k@ == key@ && w@
                    == key@
            } else {
                r matches Step::Done(Ok(Reply::Added { key: k })) && k@ == key@
            },
            Err(e) => fails_with(r, "put_record failed: "@ + e@),
        },
        (Waiting::AddKeyProvide { key }, Event::Provided(outcome)) => match outcome {
            Ok(_) => r matches Step::Done(Ok(Reply::Added { key: k })) && k@ == key@,
            Err(e) => fails_with(r, "start_providing failed: "@ + e@),
        },
        (Waiting::QueryRecord { key }, Event::Record(found)) => r matches Step::Do(
            Action::GetProviders(k),
            Waiting::QueryProviders { key: w, value },
        ) && k@ == key@ && w@ == key@ && optional_bytes_view(value) == (match found {
            Ok(v) => optional_bytes_view(v),
            Err(_) => None,
        }),
        (Waiting::QueryProviders { key, value }, Event::Providers(found)) => match found {
            Ok(p) => key_answered(key@, optional_bytes_view(value), text_views(p@), r),
            Err(_) => if value is Some {
                key_answered(key@, optional_bytes_view(value), Seq::empty(), r)
            } else {
                fails_with(r, "key not found"@)
            },
        },
        (Waiting::FindProvider { service, payload }, Event::Providers(found)) => match found {
            Err(e) => fails_with(r, e@),
            Ok(p) => if p@.len() == 0 {
                fails_with(r, "No provider found"@)
            } else {
                r matches Step::Do(Action::SendRequest { peer, service: s, payload: b }, Waiting::Response) && s@
                    == service@ && b@ == payload@ && peer@ == (match best_of(text_views(p@), c.node_rtts@) {
                    Some(best) => best,
                    None => p@[0]@,
                })
            },
        },
        (Waiting::Response, Event::Response(outcome)) => match outcome {
            Ok(data) => r matches Step::Done(Ok(Reply::Bytes(b))) && b@ == data@,
            Err(e) => fails_with(r, e@),
        },
        _ => fails_with(r, "command produced no result"@),
    }
}

fn answer_key(key: String, value: Option<Vec<u8>>, providers: Vec<PeerId>) -> (r: Step)
    ensures
        key_answered(key@, optional_bytes_view(value), text_views(providers@), r),
{
    let value = match value {
        Some(b) => Some(KeyValue { text: text_of_bytes(b.as_slice()), b64: base64_encode(b.as_slice()) }),
        None => None,
    };
    Step::Done(Ok(Reply::Key { key, value, providers }))
}

fn answer_outcome(outcome: Result<(), String>) -> (r: Step)
    ensures
        outcome_answered(outcome, r),
{
    match outcome {
        Ok(_) => Step::Done(Ok(Reply::Outcome { success: true, error: None })),
        Err(e) => Step::Done(Ok(Reply::Outcome { success: false, error: Some(e) })),
    }
}

impl NodeController {
    /// Goes on with a command after the outcome that it waited for.
    pub fn resume_command(&self, waiting: Waiting, event: Event) -> (r: Step)
        ensures
            resumed(*self, waiting, event, r),
    {
        match (waiting, event) {
            (Waiting::ListServices, Event::Record(found)) => {
                let record = match found {
                    Ok(v) => v,
                    Err(_) => None,
                };
                let types = types_in(record);
                Step::Done(Ok(Reply::Bytes(texts_to_json(&types))))
            },
            (Waiting::DiscoverProviders, Event::Providers(found)) => match found {
                Ok(p) => Step::Done(Ok(Reply::Bytes(texts_to_json(&p)))),
                Err(e) => Step::Done(Err(e)),
            },
            (Waiting::Reconnect, Event::Dialed(any)) => Step::Done(
                Ok(Reply::Outcome { success: any, error: None }),
            ),
            (Waiting::Reannounce, Event::Announced(outcome)) => answer_outcome(outcome),
            (Waiting::Reload, Event::Reloaded(outcome)) => answer_outcome(outcome),
            (Waiting::AddKeyPut { key, providing }, Event::Put(outcome)) => match outcome {
                Ok(_) => if providing {
                    Step::Do(Action::StartProviding(key.clone()), Waiting::AddKeyProvide { key })
                } else {
                    Step::Done(Ok(Reply::Added { key }))
                },
                Err(e) => Step::Done(Err(join2("put_record failed: ", e.as_str()))),
            },
            (Waiting::AddKeyProvide { key }, Event::Provided(outcome)) => match outcome {
                Ok(_) => Step::Done(Ok(Reply::Added { key })),
                Err(e) => Step::Done(Err(join2("start_providing failed: ", e.as_str()))),
            },
            (Waiting::QueryRecord { key }, Event::Record(found)) => {
                let value = match found {
                    Ok(v) => v,
                    Err(_) => None,
                };
                Step::Do(Action::GetProviders(key.clone()), Waiting::QueryProviders { key, value })
            },
            (Waiting::QueryProviders { key, value }, Event::Providers(found)) => match found {
                Ok(p) => answer_key(key, value, p),
                Err(_) => if value.is_some() {
                    let none: Vec<PeerId> = Vec::new();
                    assert(text_views(none@) =~= Seq::<Seq<char>>::empty());
                    answer_key(key, value, none)
                } else {
                    Step::Done(Err("key not found".to_owned()))
                },
            },
            (Waiting::FindProvider { service, payload }, Event::Providers(found)) => match found {
                Err(e) => Step::Done(Err(e)),
                Ok(p) => if p.len() == 0 {
                    Step::Done(Err("No provider found".to_owned()))
                } else {
                    assert(text_views(p@) =~= p@.map_values(|t: String| t@));
                    let peer = match self.get_best_peer(&p) {
                        Some(best) => best,
                        None => p[0].clone(),
                    };
                    Step::Do(Action::SendRequest { peer, service, payload }, Waiting::Response)
                },
            },
            (Waiting::Response, Event::Response(outcome)) => match outcome {
                Ok(data) => Step::Done(Ok(Reply::Bytes(data))),
                Err(e) => Step::Done(Err(e)),
            },
            _ => Step::Done(Err("command produced no result".to_owned())),
        }
    }
}

/// How many actions a waiting command can still ask for.
pub open spec fn steps_left(waiting: Waiting) -> nat {
    match waiting {
        Waiting::AddKeyPut { .. } => 1,
        Waiting::QueryRecord { .. } => 1,
        Waiting::FindProvider { .. } => 1,
        _ => 0,
    }
}

/// Every command comes to an end: each outcome either ends it or leaves fewer actions to ask for,
/// and it asks for two at most.
pub proof fn commands_end(c: NodeController, waiting: Waiting, event: Event, r: Step)
    requires
        resumed(c, waiting, event, r),
    ensures
        steps_left(waiting) <= 1,
        r matches Step::Do(_, next) ==> steps_left(next) < steps_left(waiting),
{
}

/// A request to a named peer, in its text form `<service>/in<peer id>`: it goes to that peer, for that
/// service, with the very bytes of the command. What is no peer id is refused, and so is a text without
/// `/in`.
pub proof fn named_peer_gets_the_request(
    c: NodeController,
    config: NodeConfig,
    cache: Option<AuthCache>,
    cmd: Command,
    now: u64,
    clock: u64,
    r: Step,
    service: Seq<char>,
    peer: Seq<char>,
)
    requires
        command_started(c, config, cache, cmd, now, clock, r),
        cmd.prefix@ == "service_request_to"@,
    ensures
        cmd.content@ == service + "/in"@ + peer && (forall|i: int|
            0 <= i < service.len() ==> #[trigger] cmd.content@.subrange(i, i + 3) != "/in"@) ==> {
            &&& peer_id_of_text(peer) matches Ok(id) ==> (r matches Step::Do(
                Action::SendRequest { peer: p, service: s, payload: b },
                Waiting::Response,
            ) && p@ == id && s@ == service && b@ == cmd.payload@)
            &&& peer_id_of_text(peer) matches Err(e) ==> (r matches Step::Done(Err(t)) && t@ == "invalid peer id: "@ + e)
        },
        (forall|i: int| 0 <= i <= cmd.content@.len() - 3 ==> #[trigger] cmd.content@.subrange(i, i + 3) != "/in"@) ==> (r matches Step::Done(
            Err(t),
        ) && t@ == "expected format: <service>/in<peerid>"@),
{
    reveal_strlit("service_request_to");
    reveal_strlit("service_request");
    reveal_strlit("@");
    reveal_strlit("/in");
    assert("service_request_to"@.len() == 18);
    assert("service_request"@.len() == 15);
    assert("@"@.len() == 1);
    let content = cmd.content@;
    if content == service + "/in"@ + peer && (forall|i: int|
        0 <= i < service.len() ==> #[trigger] content.subrange(i, i + 3) != "/in"@) {
        let k = service.len() as int;
        assert(content.subrange(k, k + 3) =~= "/in"@);
        assert(occurs_at(content, "/in"@, k));
        let i = choose|i: int| #[trigger] first_occurrence(content, "/in"@, i);
        assert(first_occurrence(content, "/in"@, i));
        assert forall|j: int| #[trigger] first_occurrence(content, "/in"@, j) implies j == k by {
            if j < k {
                assert(content.subrange(j, j + 3) == "/in"@);
            }
        }
        assert(content.subrange(0, k) =~= service);
        assert(content.subrange(k + 3, content.len() as int) =~= peer);
    }
    if forall|i: int| 0 <= i <= content.len() - 3 ==> #[trigger] content.subrange(i, i + 3) != "/in"@ {
        assert forall|i: int| !#[trigger] occurs_at(content, "/in"@, i) by {
            if occurs_at(content, "/in"@, i) {
                assert(content.subrange(i, i + 3) == "/in"@);
            }
        }
    }
}

/// A message that asks a named peer: the request goes to that peer, for that service, with the very
/// bytes of the message.
pub proof fn message_reaches_the_named_peer(
    c: NodeController,
    config: NodeConfig,
    cache: Option<AuthCache>,
    msg: Message,
    now: u64,
    clock: u64,
    r: Option<Step>,
)
    requires
        message_started(c, config, cache, msg, now, clock, r),
    ensures
        msg matches Message::ServiceRequestTo { service, peer, payload, .. } ==> {
            &&& peer_id_of_text(peer@) matches Ok(id) ==> (r matches Some(
                Step::Do(Action::SendRequest { peer: p, service: s, payload: b }, Waiting::Response),
            ) && p@ == id && s@ == service@ && b@ == payload@)
            &&& peer_id_of_text(peer@) matches Err(e) ==> (r matches Some(Step::Done(Err(t))) && t@ == "invalid peer id: "@ + e)
        },
        r is None <==> msg is Hello || msg is Request || msg is Reply,
{
}

/// A request for a service, as a message or in its text form: the providers of the service are asked
/// for; if there are some, the request goes to one of them with the very bytes of the command, to the
/// nearest where the time to one is known and to the first otherwise; and what the peer answers is the
/// answer.
pub proof fn nearest_provider_gets_the_request(
    c: NodeController,
    config: NodeConfig,
    cache: Option<AuthCache>,
    msg: Message,
    cmd: Command,
    now: u64,
    clock: u64,
    by_message: Option<Step>,
    by_text: Step,
    providers: Vec<PeerId>,
    waiting: Waiting,
    next: Step,
    data: Result<Vec<u8>, String>,
    end: Step,
)
    requires
        message_started(c, config, cache, msg, now, clock, by_message),
        command_started(c, config, cache, cmd, now, clock, by_text),
        msg is ServiceRequest,
        cmd.prefix@ == "service_request"@,
        resumed(c, waiting, Event::Providers(Ok(providers)), next),
        resumed(c, Waiting::Response, Event::Response(data), end),
    ensures
        by_message matches Some(Step::Do(Action::GetProviders(k), Waiting::FindProvider { service: s, payload: b })) && k@
            == "/oahd/service/"@ + msg->ServiceRequest_service@ && s@ == msg->ServiceRequest_service@ && b@
            == msg->ServiceRequest_payload@,
        by_text matches Step::Do(Action::GetProviders(k), Waiting::FindProvider { service: s, payload: b }) && k@
            == "/oahd/service/"@ + cmd.content@ && s@ == cmd.content@ && b@ == cmd.payload@,
        waiting matches Waiting::FindProvider { service, payload } ==> {
            &&& providers@.len() == 0 ==> (next matches Step::Done(Err(_)))
            &&& providers@.len() > 0 ==> (next matches Step::Do(
                Action::SendRequest { peer, service: s, payload: b },
                Waiting::Response,
            ) && s@ == service@ && b@ == payload@ && (exists|i: int|
                0 <= i < providers@.len() && (#[trigger] providers@[i])@ == peer@) && (forall|i: int|
                0 <= i < providers@.len() && c.node_rtts@.dom().contains((#[trigger] providers@[i])@)
                    ==> c.node_rtts@.dom().contains(peer@) && c.node_rtts@[peer@] <= c.node_rtts@[providers@[i]@]) && ((
            forall|i: int| 0 <= i < providers@.len() ==> !c.node_rtts@.dom().contains((#[trigger] providers@[i])@))
                ==> peer@ == providers@[0]@))
        },
        match data {
            Ok(d) => end matches Step::Done(Ok(Reply::Bytes(b))) && b@ == d@,
            Err(e) => end matches Step::Done(Err(t)) && t@ == e@,
        },
{
    reveal_strlit("service_request_to");
    reveal_strlit("service_request");
    reveal_strlit("@");
    assert("service_request_to"@.len() == 18);
    assert("service_request"@.len() == 15);
    assert("@"@.len() == 1);
    let p = text_views(providers@);
    best_is_nearest(p, c.node_rtts@);
    assert forall|i: int| 0 <= i < p.len() implies #[trigger] p[i] == providers@[i]@ by {}
    if waiting is FindProvider && providers@.len() > 0 {
        if let Some(b) = best_of(p, c.node_rtts@) {
            let k = choose|k: int| 0 <= k < p.len() && p[k] == b;
            assert(providers@[k]@ == b);
            assert forall|i: int| 0 <= i < providers@.len() && c.node_rtts@.dom().contains((#[trigger] providers@[i])@) implies c.node_rtts@[b]
                <= c.node_rtts@[providers@[i]@] by {
                assert(p[i] == providers@[i]@);
            }
        } else {
            assert forall|i: int| 0 <= i < providers@.len() implies !c.node_rtts@.dom().contains((#[trigger] providers@[i])@) by {
                assert(p[i] == providers@[i]@);
            }
            assert(providers@[0]@ == p[0]);
        }
    }
}

/// Adding a key: a value is written under that key, byte for byte; then, or where there is no value, the
/// key is provided if that was asked for; and the answer names the key. Without a key, or with neither a
/// value nor providing, it is refused at once.
pub proof fn added_key_is_written_and_provided(
    key: Seq<char>,
    value: Option<Seq<u8>>,
    providing: bool,
    r: Step,
    c: NodeController,
    waiting: Waiting,
    outcome: Result<(), String>,
    next: Step,
)
    requires
        add_started(key, value, providing, r),
        r is Do,
        waiting == r->Do_1,
        resumed(
            c,
            waiting,
            if waiting is AddKeyPut {
                Event::Put(outcome)
            } else {
                Event::Provided(outcome)
            },
            next,
        ),
    ensures
        key.len() > 0,
        value matches Some(b) ==> (r->Do_0 matches Action::PutRecord { key: k, value: v } && k@ == key && v@ == b) && (waiting matches Waiting::AddKeyPut {
            key: w,
            providing: p,
        } && w@ == key && p == providing),
        value is None ==> providing && (r->Do_0 matches Action::StartProviding(k) && k@ == key),
        outcome is Ok && value is Some && providing ==> (next matches Step::Do(
            Action::StartProviding(k),
            Waiting::AddKeyProvide { key: w },
        ) && k@ == key && w@ == key),
        outcome is Ok && (value is None || !providing) ==> (next matches Step::Done(Ok(Reply::Added { key: k })) && k@ == key),
        outcome is Err ==> next matches Step::Done(Err(_)),
{
}

/// What adding a key is given: the text under `value` as its UTF-8 bytes, else the bytes under
/// `value_b64`; and whether to provide the key is what `providing` says, and no otherwise.
pub proof fn added_value_is_the_given_one(m: Seq<(Seq<char>, LeafView)>, text: Seq<char>, bytes: Seq<u8>)
    ensures
        member_of(m, "value"@) == Some(LeafView::Text(text)) ==> add_key_value(m) == Ok::<Option<Seq<u8>>, Seq<char>>(
            Some(encode_utf8(text)),
        ),
        member_of(m, "value"@) is None && member_of(m, "value_b64"@) == Some(LeafView::Text(text)) && base64_decoding(text)
            == Ok::<Seq<u8>, Seq<char>>(bytes) ==> add_key_value(m) == Ok::<Option<Seq<u8>>, Seq<char>>(Some(bytes)),
        member_of(m, "value"@) is None && member_of(m, "value_b64"@) == Some(LeafView::Text(text)) && base64_decoding(text) is Err
            ==> add_key_value(m) is Err,
        member_of(m, "value"@) is None && member_of(m, "value_b64"@) is None ==> add_key_value(m) == Ok::<
            Option<Seq<u8>>,
            Seq<char>,
        >(None),
        asks_providing(m) <==> member_of(m, "providing"@) == Some(LeafView::Bool(true)),
{
}

/// An `add_key` command in JSON does what the same command as a message does.
pub proof fn add_key_in_json_is_add_key(
    payload: Seq<u8>,
    m: Seq<(Seq<char>, LeafView)>,
    key: Seq<char>,
    value: Option<Seq<u8>>,
    r: Step,
)
    requires
        add_json_started(payload, r),
        json_members(payload) == Ok::<Seq<(Seq<char>, LeafView)>, Seq<char>>(m),
        text_member(m, "key"@) == Some(key),
        key.len() > 0,
        add_key_value(m) == Ok::<Option<Seq<u8>>, Seq<char>>(value),
    ensures
        value matches Some(b) ==> (r matches Step::Do(Action::PutRecord { key: k, value: v }, _) && k@ == key && v@ == b),
        value is None && member_of(m, "providing"@) == Some(LeafView::Bool(true)) ==> (r matches Step::Do(
            Action::StartProviding(k),
            _,
        ) && k@ == key),
        value is None && member_of(m, "providing"@) != Some(LeafView::Bool(true)) ==> r matches Step::Done(Err(_)),
{
}

/// Asking for a key: its record is asked for, then who provides it, whatever became of the record; and
/// the answer has the key, the record's bytes in base64, and exactly the providers. Only where there is
/// no record and asking for providers failed is the key not found.
pub proof fn queried_key_is_answered(
    key: Seq<char>,
    r: Step,
    c: NodeController,
    found: Result<Option<Vec<u8>>, String>,
    second: Step,
    peers: Result<Vec<PeerId>, String>,
    end: Step,
)
    requires
        query_started(key, r),
        key.len() > 0,
        resumed(c, r->Do_1, Event::Record(found), second),
        resumed(c, second->Do_1, Event::Providers(peers), end),
    ensures
        r matches Step::Do(Action::GetRecord(k), _) && k@ == key,
        second matches Step::Do(Action::GetProviders(k), _) && k@ == key,
        ({
            let record = match found {
                Ok(Some(b)) => Some(b@),
                _ => None,
            };
            match peers {
                Ok(p) => end matches Step::Done(Ok(Reply::Key { key: k, value, providers })) && k@ == key && text_views(
                    providers@,
                ) == text_views(p@) && (record is None ==> value is None) && (record matches Some(b) ==> (value matches Some(
                    v,
                ) && base64_decoding(v.b64@) == Ok::<Seq<u8>, Seq<char>>(b) && v.text@ == lossy_text(b))),
                Err(_) => match record {
                    Some(b) => end matches Step::Done(Ok(Reply::Key { key: k, value: Some(v), providers })) && k@ == key
                        && providers@.len() == 0 && base64_decoding(v.b64@) == Ok::<Seq<u8>, Seq<char>>(b),
                    None => end matches Step::Done(Err(_)),
                },
            }
        }),
{
    if peers is Err && found matches Ok(Some(_)) {
        let p = end->Done_0->Ok_0->Key_providers@;
        assert(text_views(p).len() == p.len());
    }
}

/// Listing services and finding providers: the record of the network's services, or the providers of the
/// service, are asked for, and the answer is the list that was found as JSON, empty where no record of
/// services can be read.
pub proof fn lists_are_handed_on(
    c: NodeController,
    config: NodeConfig,
    cache: Option<AuthCache>,
    msg: Message,
    now: u64,
    clock: u64,
    r: Option<Step>,
    found: Result<Option<Vec<u8>>, String>,
    peers: Vec<PeerId>,
    services: Step,
    providers: Step,
)
    requires
        message_started(c, config, cache, msg, now, clock, r),
        resumed(c, Waiting::ListServices, Event::Record(found), services),
        resumed(c, Waiting::DiscoverProviders, Event::Providers(Ok(peers)), providers),
    ensures
        msg is ListServices ==> (r matches Some(Step::Do(Action::GetRecord(k), Waiting::ListServices)) && k@
            == "/oahd/service/types"@),
        msg matches Message::DiscoverProviders { service, .. } ==> (r matches Some(
            Step::Do(Action::GetProviders(k), Waiting::DiscoverProviders),
        ) && k@ == "/oahd/service/"@ + service@),
        found matches Ok(Some(b)) ==> (json_texts(b@) matches Some(t) ==> (services matches Step::Done(Ok(Reply::Bytes(j)))
            && j@ == json_of_texts(t))),
        !(found matches Ok(Some(_))) ==> (services matches Step::Done(Ok(Reply::Bytes(j))) && j@ == json_of_texts(
            Seq::<Seq<char>>::empty(),
        )),
        providers matches Step::Done(Ok(Reply::Bytes(j))) && j@ == json_of_texts(text_views(peers@)),
{
    reveal_strlit("list_services");
}

/// What the node says of itself: its configured addresses; whether it needs a relay, which is when it
/// lacks an IP family, and exactly the relays that have accepted and those that were asked; and the
/// switches of the post-quantum layer. What it does at a message's word: dial exactly the configured
/// bootstrap nodes, announce its services, and reload.
pub proof fn node_tells_what_it_has(
    c: NodeController,
    config: NodeConfig,
    cache: Option<AuthCache>,
    msg: Message,
    now: u64,
    clock: u64,
    r: Option<Step>,
)
    requires
        message_started(c, config, cache, msg, now, clock, r),
    ensures
        msg is QueryPublicIp ==> (r matches Some(Step::Done(Ok(Reply::PublicIp { ipv4, ipv6 }))) && ipv4
            == config.network.ipv4_address && ipv6 == config.network.ipv6_address),
        msg is RelayStatus ==> (r matches Some(Step::Done(Ok(Reply::RelayStatus { need_relay, target, active, pending })))
            && target == 3 && (need_relay <==> !(config.network.ipv4_enabled && config.network.ipv6_enabled)) && (forall|
            p: Seq<char>,
        | #[trigger] text_views(active@).contains(p) <==> c.active_relays@.dom().contains(p)) && (forall|p: Seq<char>| #[trigger]
            text_views(pending@).contains(p) <==> c.pending_relays@.dom().contains(p))),
        msg is PqStatus ==> (r matches Some(Step::Done(Ok(Reply::PqStatus { enabled, transport, identity, required })))
            && transport == config.crypto.pq_transport_enabled && identity == config.crypto.pq_identity_enabled && required
            == config.crypto.pq_required && (enabled <==> transport || identity)),
        msg is ReconnectBootstrap ==> (r matches Some(Step::Do(Action::Dial(nodes), Waiting::Reconnect)) && addr_views(nodes@)
            == addr_views(config.services.kademlia.bootstrap_nodes@)),
        msg is ReannounceServices ==> r matches Some(Step::Do(Action::Announce, Waiting::Reannounce)),
        msg is ReloadConfig ==> r matches Some(Step::Do(Action::Reload, Waiting::Reload)),
{
    command_names();
}

/// The names of the node's own commands, and that they differ.
proof fn command_names()
    ensures
        "list_services"@.len() == 13 && "list_services"@[0] == 'l',
        "discover_providers"@.len() == 18,
        "query_public_ip"@.len() == 15,
        "reconnect_bootstrap"@.len() == 19 && "reconnect_bootstrap"@[2] == 'c',
        "reannounce_services"@.len() == 19 && "reannounce_services"@[2] == 'a',
        "reload_config"@.len() == 13 && "reload_config"@[0] == 'r',
        "relay_status"@.len() == 12,
        "pq_status"@.len() == 9 && "pq_status"@[0] == 'p',
        "auth_status"@.len() == 11,
        "add_key"@.len() == 7,
        "query_key"@.len() == 9 && "query_key"@[0] == 'q',
{
    reveal_strlit("list_services");
    reveal_strlit("discover_providers");
    reveal_strlit("query_public_ip");
    reveal_strlit("reconnect_bootstrap");
    reveal_strlit("reannounce_services");
    reveal_strlit("reload_config");
    reveal_strlit("relay_status");
    reveal_strlit("pq_status");
    reveal_strlit("auth_status");
    reveal_strlit("add_key");
    reveal_strlit("query_key");
}

/// A command in its text form does what the message of that name does.
pub proof fn text_commands_are_the_messages(
    c: NodeController,
    config: NodeConfig,
    cache: Option<AuthCache>,
    cmd: Command,
    now: u64,
    clock: u64,
    r: Step,
)
    requires
        command_started(c, config, cache, cmd, now, clock, r),
    ensures
        cmd.prefix@ == "@"@ && cmd.content@ == "list_services"@ ==> (r matches Step::Do(
            Action::GetRecord(k),
            Waiting::ListServices,
        ) && k@ == "/oahd/service/types"@),
        cmd.prefix@ == "@"@ && cmd.content@ == "discover_providers"@ && valid_utf8(cmd.payload@) ==> (r matches Step::Do(
            Action::GetProviders(k),
            Waiting::DiscoverProviders,
        ) && k@ == "/oahd/service/"@ + decode_utf8(cmd.payload@)),
        cmd.prefix@ == "@"@ && cmd.content@ == "query_public_ip"@ ==> (r matches Step::Done(
            Ok(Reply::PublicIp { ipv4, ipv6 }),
        ) && ipv4 == config.network.ipv4_address && ipv6 == config.network.ipv6_address),
        cmd.prefix@ == "@"@ && cmd.content@ == "reconnect_bootstrap"@ ==> (r matches Step::Do(
            Action::Dial(nodes),
            Waiting::Reconnect,
        ) && addr_views(nodes@) == addr_views(config.services.kademlia.bootstrap_nodes@)),
        cmd.prefix@ == "@"@ && cmd.content@ == "reannounce_services"@ ==> r matches Step::Do(
            Action::Announce,
            Waiting::Reannounce,
        ),
        cmd.prefix@ == "@"@ && cmd.content@ == "reload_config"@ ==> r matches Step::Do(Action::Reload, Waiting::Reload),
        cmd.prefix@ == "@"@ && cmd.content@ == "query_key"@ && lossy_text(cmd.payload@).len() > 0 ==> (r matches Step::Do(
            Action::GetRecord(k),
            Waiting::QueryRecord { key: w },
        ) && k@ == lossy_text(cmd.payload@) && w@ == k@),
        cmd.prefix@ != "@"@ && cmd.prefix@ != "service_request"@ && cmd.prefix@ != "service_request_to"@ ==> r matches Step::Done(
            Err(_),
        ),
{
    command_names();
}

/// What is reported of an outcome: whether it worked, and why not.
pub proof fn outcomes_are_reported(
    c: NodeController,
    outcome: Result<(), String>,
    any: bool,
    announced: Step,
    reloaded: Step,
    dialed: Step,
)
    requires
        resumed(c, Waiting::Reannounce, Event::Announced(outcome), announced),
        resumed(c, Waiting::Reload, Event::Reloaded(outcome), reloaded),
        resumed(c, Waiting::Reconnect, Event::Dialed(any), dialed),
    ensures
        announced matches Step::Done(Ok(Reply::Outcome { success, error })) && success == (outcome is Ok) && (outcome matches Err(
            e,
        ) ==> (error matches Some(t) && t@ == e@)) && (outcome is Ok ==> error is None),
        reloaded matches Step::Done(Ok(Reply::Outcome { success, error })) && success == (outcome is Ok) && (outcome matches Err(
            e,
        ) ==> (error matches Some(t) && t@ == e@)) && (outcome is Ok ==> error is None),
        dialed matches Step::Done(Ok(Reply::Outcome { success, error })) && success == any,
{
}

proof fn required_service_names_are_filtered(names: Seq<Seq<char>>)
    ensures
        only_service_names(names) == names.filter(|n: Seq<char>| service_name(n)),
    decreases names.len(),
{
    reveal(Seq::filter);
    if names.len() > 0 {
        required_service_names_are_filtered(names.drop_last());
    }
}

proof fn kept_names_are_filtered(names: Seq<Seq<char>>, kept: Map<Seq<char>, CachedWhitelist>, index: Option<CachedIndex>)
    ensures
        names_kept(names, kept) == names.filter(|n: Seq<char>| kept.dom().contains(n)),
        names_not_listed(names, index) == names.filter(
            |n: Seq<char>| !(index matches Some(i) && i.services@.dom().contains(n)),
        ),
    decreases names.len(),
{
    reveal(Seq::filter);
    if names.len() > 0 {
        kept_names_are_filtered(names.drop_last(), kept, index);
    }
}

/// The report on authorization: the services that require it here are exactly the configured ones that
/// do and have allowed names; every kept whitelist of one of them is reported with its version, its
/// members and its age in whole seconds; those that the index does not list are named; and the index is
/// reported fresh exactly while it counts.
pub proof fn auth_report_is_complete(
    state: AuthState,
    config: NodeConfig,
    cache: AuthCache,
    now: u64,
    clock: u64,
    r: AuthReport,
    x: CacheReport,
)
    requires
        auth_reported(state, config, Some(cache), now, clock, r),
        r.cache == Some(x),
    ensures
        r.network@ == config.auth.network@,
        r.state is Disabled <==> state is Disabled,
        r.state is Active <==> state is Active,
        ({
            let local = config.services.dispatcher.local_services@;
            let required = text_views(r.local_required@);
            let w = cache.kept_whitelists();
            let ttl = config.auth.cache_ttl_secs * 1_000_000_000;
            &&& forall|n: Seq<char>| #[trigger] required.contains(n) <==> service_name(n) && exists|i: int|
                0 <= i < local.len() && (#[trigger] local[i]).name@ == n && local[i].require_auth
            &&& forall|n: Seq<char>| #[trigger] required.contains(n) && w.dom().contains(n) ==> exists|k: int|
                0 <= k < x.whitelists@.len() && (#[trigger] x.whitelists@[k]).0@ == n
            &&& forall|k: int|
                0 <= k < x.whitelists@.len() ==> ({
                    let name = (#[trigger] x.whitelists@[k]).0@;
                    let told = x.whitelists@[k].1;
                    &&& required.contains(name) && w.dom().contains(name)
                    &&& told.version == w[name].version && told.members == w[name].members.order().len()
                    &&& clock >= w[name].fetched_at ==> told.age_secs == (clock - w[name].fetched_at) / 1_000_000_000
                })
            &&& forall|n: Seq<char>| #[trigger] text_views(x.not_in_index@).contains(n) <==> required.contains(n) && !(
            cache.kept_index() matches Some(i) && i.services@.dom().contains(n))
            &&& x.index is Some <==> cache.kept_index() is Some
            &&& cache.kept_index() matches Some(i) ==> (x.index matches Some(told) && told.version == i.version
                && told.expires_at == i.expires_at && told.services == i.services.order().len() && (told.fresh <==> now
                <= i.expires_at && ttl > 0 && clock < i.fetched_at + ttl))
        }),
{
    let local = config.services.dispatcher.local_services@;
    let all = required_names(local);
    let required = text_views(r.local_required@);
    let w = cache.kept_whitelists();
    required_names_are_exact(local);
    required_service_names_are_filtered(all);
    kept_exactly(all, |n: Seq<char>| service_name(n));
    assert forall|n: Seq<char>| #[trigger] required.contains(n) <==> service_name(n) && exists|i: int|
        0 <= i < local.len() && (#[trigger] local[i]).name@ == n && local[i].require_auth by {
        if required.contains(n) {
            let k = choose|k: int| 0 <= k < required.len() && required[k] == n;
            assert(service_name(required[k]) && all.contains(required[k]));
        }
        if service_name(n) && all.contains(n) {
            let k = choose|k: int| 0 <= k < all.len() && all[k] == n;
            assert(required.contains(all[k]));
        }
    }
    kept_names_are_filtered(required, w, cache.kept_index());
    let have = names_kept(required, w);
    kept_exactly(required, |n: Seq<char>| w.dom().contains(n));
    assert forall|n: Seq<char>| #[trigger] required.contains(n) && w.dom().contains(n) implies exists|k: int|
        0 <= k < x.whitelists@.len() && (#[trigger] x.whitelists@[k]).0@ == n by {
        let j = choose|j: int| 0 <= j < required.len() && required[j] == n;
        assert(have.contains(required[j]));
        let k = choose|k: int| 0 <= k < have.len() && have[k] == n;
        assert(x.whitelists@[k].0@ == n);
    }
    assert forall|k: int| 0 <= k < x.whitelists@.len() implies required.contains((#[trigger] x.whitelists@[k]).0@)
        && w.dom().contains(x.whitelists@[k].0@) by {
        assert(w.dom().contains(have[k]) && required.contains(have[k]));
    }
    let index = cache.kept_index();
    let out = |n: Seq<char>| !(index matches Some(i) && i.services@.dom().contains(n));
    kept_exactly(required, out);
    let missing = text_views(x.not_in_index@);
    assert forall|n: Seq<char>| #[trigger] missing.contains(n) <==> required.contains(n) && out(n) by {
        if missing.contains(n) {
            let k = choose|k: int| 0 <= k < missing.len() && missing[k] == n;
            assert(out(missing[k]) && required.contains(missing[k]));
        }
        if required.contains(n) && out(n) {
            let k = choose|k: int| 0 <= k < required.len() && required[k] == n;
            assert(missing.contains(required[k]));
        }
    }
}

/// Adding a key is begun whenever there is a key and something to do with it; otherwise it is told what
/// is missing.
pub proof fn keys_are_added_where_possible(key: Seq<char>, value: Option<Seq<u8>>, providing: bool, r: Step)
    requires
        add_started(key, value, providing, r),
    ensures
        r is Do <==> key.len() > 0 && (value is Some || providing),
        key.len() == 0 ==> (r matches Step::Done(Err(t)) && t@ == "missing 'key' field"@),
        key.len() > 0 && value is None && !providing ==> (r matches Step::Done(Err(t)) && t@
            == "at least one of 'value', 'value_b64' or 'providing' is required"@),
{
}

/// A message that adds a key or asks for one does so for that key, with the very bytes of the message.
pub proof fn messages_name_their_key(
    c: NodeController,
    config: NodeConfig,
    cache: Option<AuthCache>,
    msg: Message,
    now: u64,
    clock: u64,
    r: Option<Step>,
)
    requires
        message_started(c, config, cache, msg, now, clock, r),
    ensures
        msg matches Message::AddKey { key, value, providing, .. } ==> {
            &&& key@.len() > 0 ==> (value matches Some(b) ==> (r matches Some(
                Step::Do(Action::PutRecord { key: k, value: v }, Waiting::AddKeyPut { key: w, providing: p }),
            ) && k@ == key@ && v@ == b@ && w@ == key@ && p == providing))
            &&& key@.len() > 0 && value is None && providing ==> (r matches Some(
                Step::Do(Action::StartProviding(k), Waiting::AddKeyProvide { key: w }),
            ) && k@ == key@ && w@ == key@)
            &&& key@.len() == 0 || (value is None && !providing) ==> (r matches Some(Step::Done(Err(_))))
        },
        msg matches Message::QueryKey { key, .. } ==> {
            &&& key@.len() > 0 ==> (r matches Some(Step::Do(Action::GetRecord(k), Waiting::QueryRecord { key: w })) && k@ == key@
                && w@ == key@)
            &&& key@.len() == 0 ==> (r matches Some(Step::Done(Err(t))) && t@ == "missing key"@)
        },
        msg is AuthStatus ==> (r matches Some(Step::Done(Ok(Reply::AuthStatus(report)))) && auth_reported(
            c.auth_state,
            config,
            cache,
            now,
            clock,
            report,
        )),
{
    command_names();
}

/// The further commands in their text form: those that tell of relays, of the post-quantum layer and of
/// authorization do what the messages do; `add_key` reads a JSON object; and what is no command is told
/// so.
pub proof fn further_text_commands(
    c: NodeController,
    config: NodeConfig,
    cache: Option<AuthCache>,
    cmd: Command,
    now: u64,
    clock: u64,
    r: Step,
)
    requires
        command_started(c, config, cache, cmd, now, clock, r),
    ensures
        cmd.prefix@ == "@"@ && cmd.content@ == "relay_status"@ ==> (r matches Step::Done(
            Ok(Reply::RelayStatus { need_relay, target, active, pending }),
        ) && target == 3 && (need_relay <==> !(config.network.ipv4_enabled && config.network.ipv6_enabled)) && (forall|
            p: Seq<char>,
        | #[trigger] text_views(active@).contains(p) <==> c.active_relays@.dom().contains(p)) && (forall|p: Seq<char>| #[trigger]
            text_views(pending@).contains(p) <==> c.pending_relays@.dom().contains(p))),
        cmd.prefix@ == "@"@ && cmd.content@ == "pq_status"@ ==> (r matches Step::Done(
            Ok(Reply::PqStatus { enabled, transport, identity, required }),
        ) && transport == config.crypto.pq_transport_enabled && identity == config.crypto.pq_identity_enabled && required
            == config.crypto.pq_required && (enabled <==> transport || identity)),
        cmd.prefix@ == "@"@ && cmd.content@ == "auth_status"@ ==> (r matches Step::Done(Ok(Reply::AuthStatus(report)))
            && auth_reported(c.auth_state, config, cache, now, clock, report)),
        cmd.prefix@ == "@"@ && cmd.content@ == "add_key"@ ==> add_json_started(cmd.payload@, r),
        cmd.prefix@ == "@"@ && cmd.content@ == "query_key"@ && lossy_text(cmd.payload@).len() == 0 ==> (r matches Step::Done(
            Err(t),
        ) && t@ == "missing key"@),
        cmd.prefix@ == "@"@ && cmd.content@ == "discover_providers"@ && !valid_utf8(cmd.payload@) ==> (r matches Step::Do(
            Action::GetProviders(k),
            Waiting::DiscoverProviders,
        ) && k@ == "/oahd/service/"@),
        cmd.prefix@ == "@"@ && cmd.content@ != "list_services"@ && cmd.content@ != "discover_providers"@ && cmd.content@
            != "query_public_ip"@ && cmd.content@ != "reconnect_bootstrap"@ && cmd.content@ != "reannounce_services"@
            && cmd.content@ != "reload_config"@ && cmd.content@ != "relay_status"@ && cmd.content@ != "pq_status"@
            && cmd.content@ != "auth_status"@ && cmd.content@ != "add_key"@ && cmd.content@ != "query_key"@ ==> (r matches Step::Done(
            Err(t),
        ) && t@ == "Unknown command"@),
        cmd.prefix@ != "@"@ && cmd.prefix@ != "service_request"@ && cmd.prefix@ != "service_request_to"@ ==> (r matches Step::Done(
            Err(t),
        ) && t@ == "command not supported"@),
{
    command_names();
    assert("/oahd/service/"@ + Seq::<char>::empty() =~= "/oahd/service/"@);
}

/// An `add_key` command in JSON that cannot be read, or lacks its key or has a wrong value, is told what
/// is wrong.
pub proof fn bad_json_is_told(payload: Seq<u8>, m: Seq<(Seq<char>, LeafView)>, key: Seq<char>, r: Step)
    requires
        add_json_started(payload, r),
    ensures
        json_members(payload) matches Err(e) ==> (r matches Step::Done(Err(t)) && t@ == "invalid JSON: "@ + e),
        json_members(payload) == Ok::<Seq<(Seq<char>, LeafView)>, Seq<char>>(m) && text_member(m, "key"@) is None
            ==> (r matches Step::Done(Err(t)) && t@ == "missing 'key' field"@),
        json_members(payload) == Ok::<Seq<(Seq<char>, LeafView)>, Seq<char>>(m) && text_member(m, "key"@) == Some(key)
            && key.len() > 0 ==> (add_key_value(m) matches Err(e) ==> (r matches Step::Done(Err(t)) && t@ == e)),
        member_of(m, "value"@) is Some && !(member_of(m, "value"@) matches Some(LeafView::Text(_))) ==> add_key_value(m)
            == Err::<Option<Seq<u8>>, Seq<char>>("'value' must be a string"@),
        member_of(m, "value"@) is None && member_of(m, "value_b64"@) is Some && !(member_of(m, "value_b64"@) matches Some(
            LeafView::Text(_),
        )) ==> add_key_value(m) == Err::<Option<Seq<u8>>, Seq<char>>("'value_b64' must be a string"@),
        member_of(m, "value"@) is None ==> (member_of(m, "value_b64"@) matches Some(LeafView::Text(t)) ==> (base64_decoding(
            t,
        ) matches Err(e) ==> add_key_value(m) == Err::<Option<Seq<u8>>, Seq<char>>("invalid base64 in 'value_b64': "@ + e))),
{
}

/// What fails is told with the words of the failure, and an outcome that nobody waits for ends the
/// command without a result.
pub proof fn failures_are_told(c: NodeController, waiting: Waiting, event: Event, r: Step)
    requires
        resumed(c, waiting, event, r),
    ensures
        waiting is DiscoverProviders || waiting is FindProvider ==> (event matches Event::Providers(Err(e)) ==> (r matches Step::Done(
            Err(t),
        ) && t@ == e@)),
        waiting is FindProvider ==> (event matches Event::Providers(Ok(p)) ==> (p@.len() == 0 ==> (r matches Step::Done(Err(t))
            && t@ == "No provider found"@))),
        waiting is AddKeyPut ==> (event matches Event::Put(Err(e)) ==> (r matches Step::Done(Err(t)) && t@
            == "put_record failed: "@ + e@)),
        waiting is AddKeyProvide ==> (event matches Event::Provided(Err(e)) ==> (r matches Step::Done(Err(t)) && t@
            == "start_providing failed: "@ + e@)),
        waiting matches Waiting::QueryProviders { key, value } ==> (event matches Event::Providers(Err(e)) ==> (value is None
            ==> (r matches Step::Done(Err(t)) && t@ == "key not found"@))),
        !(event is Record) && (waiting is ListServices || waiting is QueryRecord) ==> (r matches Step::Done(Err(t)) && t@
            == "command produced no result"@),
        !(event is Providers) && (waiting is DiscoverProviders || waiting is QueryProviders || waiting is FindProvider)
            ==> (r matches Step::Done(Err(t)) && t@ == "command produced no result"@),
        !(event is Put) && waiting is AddKeyPut ==> (r matches Step::Done(Err(t)) && t@ == "command produced no result"@),
        !(event is Provided) && waiting is AddKeyProvide ==> (r matches Step::Done(Err(t)) && t@
            == "command produced no result"@),
        !(event is Response) && waiting is Response ==> (r matches Step::Done(Err(t)) && t@ == "command produced no result"@),
        !(event is Dialed) && waiting is Reconnect ==> (r matches Step::Done(Err(t)) && t@ == "command produced no result"@),
        !(event is Announced) && waiting is Reannounce ==> (r matches Step::Done(Err(t)) && t@ == "command produced no result"@),
        !(event is Reloaded) && waiting is Reload ==> (r matches Step::Done(Err(t)) && t@ == "command produced no result"@),
{
}

/// A report without anything kept says so; and a misconfigured network is reported with the reason.
pub proof fn auth_report_gives_the_reason(
    state: AuthState,
    config: NodeConfig,
    cache: Option<AuthCache>,
    now: u64,
    clock: u64,
    r: AuthReport,
)
    requires
        auth_reported(state, config, cache, now, clock, r),
    ensures
        r.cache is Some <==> cache is Some,
        state matches AuthState::Misconfigured(why) ==> r.state is Misconfigured && (r.detail matches Some(d) && d@ == why@),
        !(state is Misconfigured) ==> r.detail is None,
{
}

/// The age of what is kept is in whole seconds, and none where the clock has not moved on.
pub proof fn ages_are_in_seconds(fetched_at: u64, clock: u64)
    ensures
        clock <= fetched_at ==> age_secs(fetched_at, clock) == 0,
        clock > fetched_at ==> age_secs(fetched_at, clock) == (clock - fetched_at) / 1_000_000_000,
{
}

} // verus!
