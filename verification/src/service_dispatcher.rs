//! Between the node and the backends of its local services.

use crate::auth::{is_valid_service_name, service_name};
use crate::config::{ConfigHandle, LocalServiceEntry};
use crate::lists::kept_exactly;
use crate::service_protocol::Response;
use crate::sidecar_protocol::{
    frame_error_text, message_id, ErrorView, FrameError, Message, MessageView, SidecarError,
    PROTOCOL_VERSION,
};
use crate::text::{decimal, decimal_text, join2, text_views};
use std::collections::HashMap;
use vstd::prelude::*;
use vstd::std_specs::hash::*;
use vstd::string::*;

verus! {

/// The first and the longest wait before connecting to a backend again, in seconds.
pub const FIRST_BACKOFF: u64 = 1;

pub const MAX_BACKOFF: u64 = 60;

/// The wait after a wait: twice as long, up to a minute.
pub fn next_backoff(backoff: u64) -> (r: u64)
    ensures
        r == (if backoff * 2 < MAX_BACKOFF {
            backoff * 2
        } else {
            MAX_BACKOFF as int
        }),
        0 < backoff <= MAX_BACKOFF ==> backoff <= r <= MAX_BACKOFF,
        backoff < 30 ==> r == 2 * backoff,
        backoff >= 30 ==> r == 60,
{
    if backoff < MAX_BACKOFF / 2 {
        backoff * 2
    } else {
        MAX_BACKOFF
    }
}

/// Where the backend of a service listens.
pub fn backend_addr(port: u16) -> (r: String)
    ensures
        r@ == "127.0.0.1:"@ + decimal(port as nat),
{
    join2("127.0.0.1:", decimal_text(port as u64).as_str())
}

/// Who waits for the answers of one backend, by the id of the request.
pub struct Pending {
    waiting: HashMap<u128, u64>,
}

impl Pending {
    /// The tickets of who waits.
    pub closed spec fn view(&self) -> Map<u128, u64> {
        self.waiting@
    }

    /// Nobody waits.
    pub fn new() -> (r: Self)
        ensures
            r@ == Map::<u128, u64>::empty(),
    {
        broadcast use group_hash_axioms;

        Pending { waiting: HashMap::new() }
    }

    fn insert(&mut self, id: u128, ticket: u64)
        ensures
            final(self)@ == old(self)@.insert(id, ticket),
    {
        broadcast use group_hash_axioms;

        let _ = self.waiting.insert(id, ticket);
    }

    fn remove(&mut self, id: u128) -> (r: Option<u64>)
        ensures
            final(self)@ == old(self)@.remove(id),
            r == (if old(self)@.dom().contains(id) {
                Some(old(self)@[id])
            } else {
                None
            }),
    {
        broadcast use group_hash_axioms;

        let r = self.waiting.remove(&id);
        assert(self@ =~= old(self)@.remove(id));
        r
    }
}

/// The local services that have allowed names, and the names of the others.
pub struct ServiceDispatcher {
    pub local_services: Vec<LocalServiceEntry>,
    pub rejected: Vec<String>,
    pub query_timeout_secs: u32,
    pub enabled: bool,
}

/// The entries with allowed names, in order.
pub open spec fn allowed(services: Seq<LocalServiceEntry>) -> Seq<LocalServiceEntry>
    decreases services.len(),
{
    if services.len() == 0 {
        Seq::empty()
    } else if service_name(services.last().name@) {
        allowed(services.drop_last()).push(services.last())
    } else {
        allowed(services.drop_last())
    }
}

/// The names that are not allowed, in order.
pub open spec fn refused_names(services: Seq<LocalServiceEntry>) -> Seq<Seq<char>>
    decreases services.len(),
{
    if services.len() == 0 {
        Seq::empty()
    } else if service_name(services.last().name@) {
        refused_names(services.drop_last())
    } else {
        refused_names(services.drop_last()).push(services.last().name@)
    }
}

impl ServiceDispatcher {
    /// Splits the configured services into those that get a backend connection and those that do
    /// not, because their names are reserved or not allowed.
    pub fn new(config: &ConfigHandle) -> (r: Self)
        ensures
            r.local_services@ == allowed(config.inner.services.dispatcher.local_services@),
            text_views(r.rejected@) == refused_names(config.inner.services.dispatcher.local_services@),
            r.query_timeout_secs == config.inner.services.dispatcher.query_timeout_secs,
            r.enabled == config.inner.services.dispatcher.enabled,
    {
        let services = &config.inner.services.dispatcher.local_services;
        let mut local_services: Vec<LocalServiceEntry> = Vec::new();
        let mut rejected: Vec<String> = Vec::new();
        let mut i: usize = 0;
        assert(services@.subrange(0, 0) =~= Seq::<LocalServiceEntry>::empty());
        assert(text_views(rejected@) =~= Seq::<Seq<char>>::empty());
        while i < services.len()
            invariant
                i <= services@.len(),
                local_services@ == allowed(services@.subrange(0, i as int)),
                text_views(rejected@) == refused_names(services@.subrange(0, i as int)),
            decreases services@.len() - i,
        {
            proof {
                let upto = services@.subrange(0, i + 1);
                assert(upto.drop_last() =~= services@.subrange(0, i as int));
                assert(upto.last() == services@[i as int]);
            }
            if is_valid_service_name(services[i].name.as_str()) {
                local_services.push(services[i].copy());
            } else {
                let ghost before = rejected@;
                rejected.push(services[i].name.clone());
                assert(text_views(rejected@) =~= text_views(before).push(services@[i as int].name@));
            }
            i += 1;
        }
        assert(services@.subrange(0, services@.len() as int) =~= services@);
        ServiceDispatcher {
            local_services,
            rejected,
            query_timeout_secs: config.dispatcher_query_timeout(),
            enabled: config.dispatcher_enabled(),
        }
    }
}

/// Every service that gets a backend connection has an allowed name, and every configured service
/// is on one side or the other.
pub proof fn services_are_split(services: Seq<LocalServiceEntry>)
    ensures
        allowed(services).len() + refused_names(services).len() == services.len(),
        forall|i: int| 0 <= i < allowed(services).len() ==> service_name((#[trigger] allowed(services)[i]).name@),
        forall|i: int| 0 <= i < refused_names(services).len() ==> !service_name(#[trigger] refused_names(services)[i]),
    decreases services.len(),
{
    if services.len() > 0 {
        services_are_split(services.drop_last());
    }
}

/// The error of a request for a service that has no backend connection.
pub fn no_backend(service: &str) -> (r: String)
    ensures
        r@ == "No backend for service "@ + service@,
{
    join2("No backend for service ", service)
}

/// Why a handshake failed, if it did: the first frame must say hello in this version.
pub open spec fn handshake_fault(first: Result<Message, FrameError>) -> Option<Seq<char>> {
    match first {
        Ok(msg) => match msg {
            Message::Hello { version } => if version == PROTOCOL_VERSION {
                None
            } else {
                Some(
                    "协议版本不兼容: 对端 "@ + decimal(version as nat) + ", 本端 "@ + decimal(
                        PROTOCOL_VERSION as nat,
                    ),
                )
            },
            _ => Some("期望 hello 首帧"@),
        },
        Err(e) => Some(frame_error_text(e)),
    }
}

/// Judges the first frame that came over a connection.
pub fn handshake(first: Result<Message, FrameError>) -> (r: Result<(), String>)
    ensures
        match r {
            Ok(_) => handshake_fault(first) is None,
            Err(e) => handshake_fault(first) == Some(e@),
        },
{
    match first {
        Ok(msg) => match msg {
            Message::Hello { version } => if version == PROTOCOL_VERSION {
                Ok(())
            } else {
                let mut s = join2("协议版本不兼容: 对端 ", decimal_text(version as u64).as_str());
                s.append(", 本端 ");
                s.append(decimal_text(PROTOCOL_VERSION as u64).as_str());
                Err(s)
            },
            _ => Err("期望 hello 首帧".to_owned()),
        },
        Err(e) => Err(e.text()),
    }
}

/// The message that opens a connection.
pub fn hello() -> (r: Message)
    ensures
        r == (Message::Hello { version: PROTOCOL_VERSION }),
        r == (Message::Hello { version: 2 }),
{
    Message::Hello { version: PROTOCOL_VERSION }
}

/// What to do with a message from a backend.
pub enum ReadAction {
    /// Hand this outcome to who waits.
    Deliver { ticket: u64, outcome: Result<Vec<u8>, String> },
    /// A reply that nobody waits for.
    UnknownReply { id: u128 },
    /// Not a control message: it is only noted.
    Ignore,
    /// A command to the node, to be answered under this id.
    Control { id: u128, msg: Message },
}

/// What a reply says: its result, or its error.
pub open spec fn reply_says(
    ok: bool,
    result: Option<Vec<u8>>,
    error: Option<SidecarError>,
    outcome: Result<Vec<u8>, String>,
) -> bool {
    if ok {
        outcome matches Ok(b) && b@ == (match result {
            Some(x) => x@,
            None => Seq::empty(),
        })
    } else {
        outcome matches Err(t) && t@ == (match error {
            Some(e) => e.message@,
            None => "backend error"@,
        })
    }
}

/// Decides what to do with a message from a backend. A reply is taken out of the table, so that it
/// is delivered once; any other message leaves the table as it is.
pub fn read_message(pending: &mut Pending, msg: Message) -> (r: ReadAction)
    ensures
        match msg {
            Message::Reply { id, ok, result, error } => {
                &&& final(pending)@ == old(pending)@.remove(id)
                &&& if old(pending)@.dom().contains(id) {
                    r matches ReadAction::Deliver { ticket, outcome } && ticket == old(pending)@[id] && reply_says(
                        ok,
                        result,
                        error,
                        outcome,
                    )
                } else {
                    r matches ReadAction::UnknownReply { id: i } && i == id
                }
            },
            Message::Hello { .. } => r is Ignore && *final(pending) == *old(pending),
            _ => (r matches ReadAction::Control { id, msg: m } && message_id(msg@) == Some(id) && m == msg)
                && *final(pending) == *old(pending),
        },
{
    match msg {
        Message::Reply { id, ok, result, error } => match pending.remove(id) {
            Some(ticket) => {
                let outcome = if ok {
                    match result {
                        Some(b) => Ok(b),
                        None => Ok(Vec::new()),
                    }
                } else {
                    match error {
                        Some(e) => Err(e.message),
                        None => Err("backend error".to_owned()),
                    }
                };
                ReadAction::Deliver { ticket, outcome }
            },
            None => ReadAction::UnknownReply { id },
        },
        control => match control.id() {
            Some(id) => ReadAction::Control { id, msg: control },
            None => ReadAction::Ignore,
        },
    }
}

/// A request that went to a backend waits until its own reply comes, whatever other replies come
/// before; then it gets the reply, and waits no longer.
pub proof fn request_waits_for_its_reply(waiting: Map<u128, u64>, id: u128, ticket: u64, others: Seq<u128>)
    requires
        !others.contains(id),
    ensures
        ({
            let begun = after_replies(waiting.insert(id, ticket), others);
            &&& begun.dom().contains(id)
            &&& begun[id] == ticket
            &&& !begun.remove(id).dom().contains(id)
        }),
    decreases others.len(),
{
    if others.len() > 0 {
        let before = others.drop_last();
        assert forall|i: int| 0 <= i < before.len() implies #[trigger] before[i] != id by {
            assert(others[i] == before[i]);
        }
        assert(others[others.len() - 1] != id);
        request_waits_for_its_reply(waiting, id, ticket, before);
    }
}

/// Who waits after replies with some ids have come.
pub open spec fn after_replies(waiting: Map<u128, u64>, ids: Seq<u128>) -> Map<u128, u64>
    decreases ids.len(),
{
    if ids.len() == 0 {
        waiting
    } else {
        after_replies(waiting, ids.drop_last()).remove(ids.last())
    }
}

/// What became of a command that a backend gave.
pub enum ControlOutcome {
    /// The node takes no commands any more.
    NodeGone,
    Done(Result<Vec<u8>, String>),
    /// The node dropped the command.
    ChannelClosed,
    TimedOut,
}

/// The reply to a command: exactly one, under the id of the command, whatever became of it.
pub open spec fn control_reply_view(id: u128, outcome: ControlOutcome) -> MessageView {
    let failed = |code: Seq<char>, message: Seq<char>|
        MessageView::Reply { id, ok: false, result: None, error: Some(ErrorView { code, message }) };
    match outcome {
        ControlOutcome::NodeGone => failed("node_gone"@, "node unavailable"@),
        ControlOutcome::Done(Ok(b)) => MessageView::Reply { id, ok: true, result: Some(b@), error: None },
        ControlOutcome::Done(Err(e)) => failed("command_failed"@, e@),
        ControlOutcome::ChannelClosed => failed("node_gone"@, "command channel closed"@),
        ControlOutcome::TimedOut => failed("timeout"@, "command execution timeout"@),
    }
}

/// The reply to a command.
pub fn control_reply(id: u128, outcome: ControlOutcome) -> (r: Message)
    ensures
        r@ == control_reply_view(id, outcome),
{
    let error = match outcome {
        ControlOutcome::Done(Ok(b)) => {
            return Message::Reply { id, ok: true, result: Some(b), error: None };
        },
        ControlOutcome::NodeGone => SidecarError::new("node_gone", "node unavailable"),
        ControlOutcome::Done(Err(e)) => SidecarError::new("command_failed", e.as_str()),
        ControlOutcome::ChannelClosed => SidecarError::new("node_gone", "command channel closed"),
        ControlOutcome::TimedOut => SidecarError::new("timeout", "command execution timeout"),
    };
    Message::Reply { id, ok: false, result: None, error: Some(error) }
}

/// A request goes to a backend: who waits for its answer is kept under its id, and the message is
/// the one to write.
pub fn begin_request(pending: &mut Pending, id: u128, ticket: u64, service: String, payload: Vec<u8>) -> (r: Message)
    ensures
        final(pending)@ == old(pending)@.insert(id, ticket),
        r == (Message::Request { id, service, payload }),
{
    pending.insert(id, ticket);
    Message::Request { id, service, payload }
}

/// What became of a request to a backend.
pub enum RequestOutcome {
    WriteFailed(FrameError),
    Answered(Result<Vec<u8>, String>),
    /// Whoever was to hand over the answer went away.
    Closed,
    TimedOut,
}

/// Whether a result is what the peer is told.
pub open spec fn request_answered(outcome: RequestOutcome, r: Result<Response, String>) -> bool {
    match outcome {
        RequestOutcome::WriteFailed(e) => r matches Err(t) && t@ == "write to backend failed: "@ + frame_error_text(e),
        RequestOutcome::Answered(Ok(data)) => r matches Ok(x) && x.success && x.data == data,
        RequestOutcome::Answered(Err(e)) => r matches Err(t) && t@ == e@,
        RequestOutcome::Closed => r matches Err(t) && t@ == "backend response channel closed"@,
        RequestOutcome::TimedOut => r matches Err(t) && t@ == "backend request timeout"@,
    }
}

/// Ends a request to a backend. One that was not written or not answered in time is forgotten.
pub fn finish_request(pending: &mut Pending, id: u128, outcome: RequestOutcome) -> (r: Result<Response, String>)
    ensures
        request_answered(outcome, r),
        final(pending)@ == (match outcome {
            RequestOutcome::WriteFailed(_) => old(pending)@.remove(id),
            RequestOutcome::TimedOut => old(pending)@.remove(id),
            _ => old(pending)@,
        }),
{
    match outcome {
        RequestOutcome::WriteFailed(e) => {
            let _ = pending.remove(id);
            Err(join2("write to backend failed: ", e.text().as_str()))
        },
        RequestOutcome::Answered(Ok(data)) => Ok(Response { success: true, data }),
        RequestOutcome::Answered(Err(e)) => Err(e),
        RequestOutcome::Closed => Err("backend response channel closed".to_owned()),
        RequestOutcome::TimedOut => {
            let _ = pending.remove(id);
            Err("backend request timeout".to_owned())
        },
    }
}

/// The services that get a backend connection are, in order, the configured ones with the name of a
/// service; the names of all others, in order, are refused.
pub proof fn named_services_get_a_backend(services: Seq<LocalServiceEntry>)
    ensures
        allowed(services) == services.filter(|e: LocalServiceEntry| service_name(e.name@)),
        refused_names(services) == services.filter(|e: LocalServiceEntry| !service_name(e.name@)).map_values(
            |e: LocalServiceEntry| e.name@,
        ),
        forall|i: int|
            0 <= i < services.len() && service_name((#[trigger] services[i]).name@) ==> allowed(services).contains(services[i]),
    decreases services.len(),
{
    reveal(Seq::filter);
    let keep = |e: LocalServiceEntry| service_name(e.name@);
    let drop = |e: LocalServiceEntry| !service_name(e.name@);
    let name = |e: LocalServiceEntry| e.name@;
    if services.len() > 0 {
        let rest = services.drop_last();
        named_services_get_a_backend(rest);
        if drop(services.last()) {
            assert(rest.filter(drop).push(services.last()).map_values(name) =~= rest.filter(drop).map_values(name).push(
                services.last().name@,
            ));
        }
    } else {
        assert(services.filter(drop).map_values(name) =~= Seq::<Seq<char>>::empty());
    }
    kept_exactly(services, keep);
}

/// Two ends that speak the second version shake hands, whatever else is said fails, and a failure
/// names what was wrong.
pub proof fn only_the_same_version_shakes_hands(first: Result<Message, FrameError>)
    ensures
        handshake_fault(first) is None <==> first == Ok::<Message, FrameError>(Message::Hello { version: 2 }),
        first matches Ok(m) ==> (m matches Message::Hello { version } ==> (version != 2 ==> handshake_fault(first) == Some(
            "协议版本不兼容: 对端 "@ + decimal(version as nat) + ", 本端 "@ + decimal(2),
        ))),
        first matches Ok(m) ==> (!(m is Hello) ==> handshake_fault(first) == Some("期望 hello 首帧"@)),
        first matches Err(e) ==> handshake_fault(first) == Some(frame_error_text(e)),
        PROTOCOL_VERSION == 2,
        FIRST_BACKOFF == 1,
        MAX_BACKOFF == 60,
{
}

/// Who waits for a reply gets its bytes when it is good, none for none, and otherwise the message of
/// its error.
pub proof fn reply_is_handed_on(
    ok: bool,
    result: Option<Vec<u8>>,
    error: Option<SidecarError>,
    outcome: Result<Vec<u8>, String>,
)
    requires
        reply_says(ok, result, error, outcome),
    ensures
        outcome is Ok <==> ok,
        ok && result is Some ==> outcome->Ok_0@ == result->0@,
        ok && result is None ==> outcome->Ok_0@.len() == 0,
        !ok && error is Some ==> outcome->Err_0@ == error->0.message@,
        !ok && error is None ==> outcome->Err_0@ == "backend error"@,
{
}

/// The reply to a command carries the id of the command. It is good, with the bytes of the outcome,
/// exactly when the command was done; otherwise it says with a code and a message why not.
pub proof fn command_is_answered(id: u128, outcome: ControlOutcome)
    ensures
        ({
            let reply = control_reply_view(id, outcome);
            &&& reply is Reply
            &&& reply->Reply_id == id
            &&& reply->Reply_ok <==> (outcome matches ControlOutcome::Done(Ok(b)))
            &&& (outcome matches ControlOutcome::Done(Ok(b)) ==> reply->Reply_result == Some(b@) && reply->Reply_error is None)
            &&& (outcome matches ControlOutcome::Done(Err(e)) ==> reply->Reply_result is None && reply->Reply_error == Some(
                ErrorView { code: "command_failed"@, message: e@ },
            ))
            &&& (outcome is NodeGone ==> reply->Reply_result is None && reply->Reply_error == Some(
                ErrorView { code: "node_gone"@, message: "node unavailable"@ },
            ))
            &&& (outcome is ChannelClosed ==> reply->Reply_result is None && reply->Reply_error == Some(
                ErrorView { code: "node_gone"@, message: "command channel closed"@ },
            ))
            &&& (outcome is TimedOut ==> reply->Reply_result is None && reply->Reply_error == Some(
                ErrorView { code: "timeout"@, message: "command execution timeout"@ },
            ))
        }),
{
}

/// A peer gets what a backend answered, byte for byte, and is told why there is no answer otherwise.
pub proof fn answer_reaches_the_peer(outcome: RequestOutcome, r: Result<Response, String>)
    requires
        request_answered(outcome, r),
    ensures
        r is Ok <==> (outcome matches RequestOutcome::Answered(Ok(data))),
        outcome matches RequestOutcome::Answered(Ok(data)) ==> r->Ok_0.success && r->Ok_0.data == data,
        outcome matches RequestOutcome::Answered(Err(e)) ==> r->Err_0@ == e@,
        outcome matches RequestOutcome::WriteFailed(e) ==> r->Err_0@ == "write to backend failed: "@ + frame_error_text(e),
        outcome is Closed ==> r->Err_0@ == "backend response channel closed"@,
        outcome is TimedOut ==> r->Err_0@ == "backend request timeout"@,
{
}

} // verus!
