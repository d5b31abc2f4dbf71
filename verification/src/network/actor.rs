//! The bookkeeping of the network task: who waits for which query, request or response.
//!
//! Queries, requests and connections are named by the text of their ids. Who waits is named by a
//! ticket, a number that the caller gave.

use crate::bytes::{copy_bytes, optional_bytes_view};
use crate::crypto::PeerId;
use crate::multiaddr::Multiaddr;
use crate::name_map::NameMap;
use crate::network::NetworkError;
use crate::service_protocol::{Request, Response};
use crate::text::same_text;
use vstd::prelude::*;
use vstd::string::*;
use vstd::utf8::encode_utf8;

verus! {

/// What a query of the distributed table asks for.
#[derive(Debug, Clone, Copy, PartialEq, Eq, Structural)]
pub enum KadKind {
    GetRecord,
    GetProviders,
    PutRecord,
    StartProviding,
}

/// Who waits for a query.
#[derive(Debug, Clone, Copy, PartialEq, Eq, Structural)]
pub struct KadPending {
    pub kind: KadKind,
    pub ticket: u64,
}

/// A request from a peer that has no response yet.
#[derive(Debug)]
pub struct InboundPending {
    /// The connection that it came over.
    pub connection: String,
    /// The ticket of the channel for its response.
    pub channel: u64,
}

/// A command to the network task. The ones that are answered carry the ticket of who waits.
pub enum SwarmCommand {
    KadGetRecord { key: Vec<u8>, ticket: u64 },
    KadGetProviders { key: Vec<u8>, ticket: u64 },
    KadPutRecord { key: Vec<u8>, value: Vec<u8>, ticket: u64 },
    KadStartProviding { key: Vec<u8>, ticket: u64 },
    ServiceSendRequest { peer: PeerId, request: Request, ticket: u64 },
    ServiceSendResponse { request_id: String, response: Response },
    ListenOn { addr: Multiaddr, ticket: u64 },
    Dial { addr: Multiaddr, ticket: u64 },
    DisconnectPeer { peer: PeerId },
    /// Rebuild the network from the configuration.
    Reload { ticket: u64 },
    Shutdown,
}

/// What the network task does for a command.
pub enum SwarmAction {
    /// Start a query; `value` is for writing a record.
    Query { kind: KadKind, key: Vec<u8>, value: Option<Vec<u8>>, ticket: u64 },
    /// Tell who waits that the protocol is off.
    Refuse { ticket: u64, error: NetworkError },
    Send { peer: PeerId, request: Request, ticket: u64 },
    /// Send a response over the channel with this ticket.
    Respond { channel: u64, response: Response },
    Listen { addr: Multiaddr, ticket: u64 },
    Dial { addr: Multiaddr, ticket: u64 },
    Disconnect { peer: PeerId },
    Rebuild { ticket: u64 },
    Nothing,
    Stop,
}

/// Whether an action is what a query becomes: refused while the distributed table is off.
pub open spec fn query_planned(
    kad_enabled: bool,
    kind: KadKind,
    key: Seq<u8>,
    value: Option<Seq<u8>>,
    ticket: u64,
    r: SwarmAction,
) -> bool {
    if kad_enabled {
        r matches SwarmAction::Query { kind: k, key: b, value: v, ticket: t } && k == kind && b@ == key && t == ticket
            && optional_bytes_view(v) == value
    } else {
        r matches SwarmAction::Refuse { ticket: t, error } && t == ticket && error == NetworkError::Disabled
    }
}

fn plan_query(kad_enabled: bool, kind: KadKind, key: Vec<u8>, value: Option<Vec<u8>>, ticket: u64) -> (r: SwarmAction)
    ensures
        query_planned(
            kad_enabled,
            kind,
            key@,
            optional_bytes_view(value),
            ticket,
            r,
        ),
{
    if kad_enabled {
        SwarmAction::Query { kind, key, value, ticket }
    } else {
        SwarmAction::Refuse { ticket, error: NetworkError::Disabled }
    }
}

/// The network task's tables.
#[derive(Debug)]
pub struct SwarmActor {
    /// Who waits for each query.
    pub pending_kad: NameMap<KadPending>,
    /// Who waits for each request to a peer.
    pub pending_outbound: NameMap<u64>,
    /// The requests from peers without a response.
    pub pending_inbound: NameMap<InboundPending>,
    /// Whether bootstrapping has worked since the network was built.
    pub bootstrap_triggered: bool,
}

/// The entries of other connections.
pub open spec fn without_connection(m: Map<Seq<char>, InboundPending>, connection: Seq<char>) -> Map<
    Seq<char>,
    InboundPending,
> {
    Map::new(
        |k: Seq<char>| m.dom().contains(k) && m[k].connection@ != connection,
        |k: Seq<char>| m[k],
    )
}

/// The channels of the requests that came over a connection, in order.
pub open spec fn channels_over(order: Seq<Seq<char>>, m: Map<Seq<char>, InboundPending>, connection: Seq<char>) -> Seq<u64>
    decreases order.len(),
{
    if order.len() == 0 {
        Seq::empty()
    } else {
        let before = channels_over(order.drop_last(), m, connection);
        if m[order.last()].connection@ == connection {
            before.push(m[order.last()].channel)
        } else {
            before
        }
    }
}

/// The tickets of some queries, in order.
pub open spec fn kad_tickets(order: Seq<Seq<char>>, m: Map<Seq<char>, KadPending>) -> Seq<u64> {
    order.map_values(|k: Seq<char>| m[k].ticket)
}

/// The tickets of some requests, in order.
pub open spec fn outbound_tickets(order: Seq<Seq<char>>, m: Map<Seq<char>, u64>) -> Seq<u64> {
    order.map_values(|k: Seq<char>| m[k])
}

impl SwarmActor {
    /// Empty tables.
    pub fn new() -> (r: Self)
        ensures
            r.pending_kad@ == Map::<Seq<char>, KadPending>::empty(),
            r.pending_kad.order() == Seq::<Seq<char>>::empty(),
            r.pending_outbound@ == Map::<Seq<char>, u64>::empty(),
            r.pending_outbound.order() == Seq::<Seq<char>>::empty(),
            r.pending_inbound@ == Map::<Seq<char>, InboundPending>::empty(),
            r.pending_inbound.order() == Seq::<Seq<char>>::empty(),
            !r.bootstrap_triggered,
    {
        SwarmActor {
            pending_kad: NameMap::new(),
            pending_outbound: NameMap::new(),
            pending_inbound: NameMap::new(),
            bootstrap_triggered: false,
        }
    }

    /// Decides what to do for a command. Only a response changes the tables: its request is taken out,
    /// so that it is answered once.
    pub fn handle_command(&mut self, cmd: SwarmCommand, kad_enabled: bool) -> (r: SwarmAction)
        ensures
            match cmd {
                SwarmCommand::KadGetRecord { key, ticket } => *final(self) == *old(self) && query_planned(
                    kad_enabled, KadKind::GetRecord, key@, None, ticket, r),
                SwarmCommand::KadGetProviders { key, ticket } => *final(self) == *old(self) && query_planned(
                    kad_enabled, KadKind::GetProviders, key@, None, ticket, r),
                SwarmCommand::KadPutRecord { key, value, ticket } => *final(self) == *old(self) && query_planned(
                    kad_enabled, KadKind::PutRecord, key@, Some(value@), ticket, r),
                SwarmCommand::KadStartProviding { key, ticket } => *final(self) == *old(self) && query_planned(
                    kad_enabled, KadKind::StartProviding, key@, None, ticket, r),
                SwarmCommand::ServiceSendRequest { peer, request, ticket } => *final(self) == *old(self) && r
                    == (SwarmAction::Send { peer, request, ticket }),
                SwarmCommand::ServiceSendResponse { request_id, response } => {
                    &&& final(self).pending_inbound@ == old(self).pending_inbound@.remove(request_id@)
                    &&& *final(self) == (SwarmActor { pending_inbound: final(self).pending_inbound, ..*old(self) })
                    &&& if old(self).pending_inbound@.dom().contains(request_id@) {
                        r == (SwarmAction::Respond {
                            channel: old(self).pending_inbound@[request_id@].channel,
                            response,
                        })
                    } else {
                        r is Nothing
                    }
                },
                SwarmCommand::ListenOn { addr, ticket } => *final(self) == *old(self) && r == (SwarmAction::Listen {
                    addr,
                    ticket,
                }),
                SwarmCommand::Dial { addr, ticket } => *final(self) == *old(self) && r == (SwarmAction::Dial {
                    addr,
                    ticket,
                }),
                SwarmCommand::DisconnectPeer { peer } => *final(self) == *old(self) && r == (SwarmAction::Disconnect {
                    peer,
                }),
                SwarmCommand::Reload { ticket } => *final(self) == *old(self) && r == (SwarmAction::Rebuild { ticket }),
                SwarmCommand::Shutdown => *final(self) == *old(self) && r is Stop,
            },
    {
        match cmd {
            SwarmCommand::KadGetRecord { key, ticket } => plan_query(
                kad_enabled,
                KadKind::GetRecord,
                key,
                None,
                ticket,
            ),
            SwarmCommand::KadGetProviders { key, ticket } => plan_query(
                kad_enabled,
                KadKind::GetProviders,
                key,
                None,
                ticket,
            ),
            SwarmCommand::KadPutRecord { key, value, ticket } => plan_query(
                kad_enabled,
                KadKind::PutRecord,
                key,
                Some(value),
                ticket,
            ),
            SwarmCommand::KadStartProviding { key, ticket } => plan_query(
                kad_enabled,
                KadKind::StartProviding,
                key,
                None,
                ticket,
            ),
            SwarmCommand::ServiceSendRequest { peer, request, ticket } => SwarmAction::Send {
                peer,
                request,
                ticket,
            },
            SwarmCommand::ServiceSendResponse { request_id, response } => match self.pending_inbound.remove(
                request_id.as_str(),
            ) {
                Some(p) => SwarmAction::Respond { channel: p.channel, response },
                None => SwarmAction::Nothing,
            },
            SwarmCommand::ListenOn { addr, ticket } => SwarmAction::Listen { addr, ticket },
            SwarmCommand::Dial { addr, ticket } => SwarmAction::Dial { addr, ticket },
            SwarmCommand::DisconnectPeer { peer } => SwarmAction::Disconnect { peer },
            SwarmCommand::Reload { ticket } => SwarmAction::Rebuild { ticket },
            SwarmCommand::Shutdown => SwarmAction::Stop,
        }
    }

    /// A query has started: who waits for it is kept. One that could not start is answered with the
    /// error.
    pub fn query_started(&mut self, started: Result<String, String>, kind: KadKind, ticket: u64) -> (r: Option<NetworkError>)
        ensures
            match started {
                Ok(id) => r is None && final(self).pending_kad@ == old(self).pending_kad@.insert(
                    id@,
                    (KadPending { kind, ticket }),
                ) && *final(self) == (SwarmActor { pending_kad: final(self).pending_kad, ..*old(self) }),
                Err(e) => r == Some(NetworkError::Kad(e)) && *final(self) == *old(self),
            },
    {
        match started {
            Ok(id) => {
                self.pending_kad.insert(id, KadPending { kind, ticket });
                None
            },
            Err(e) => Some(NetworkError::Kad(e)),
        }
    }

    /// A query has an outcome of a kind: whoever waits for that is to be answered, and waits no
    /// longer. Where another kind was waited for, the entry goes without an answer.
    pub fn query_done(&mut self, id: &str, kind: KadKind) -> (r: Option<u64>)
        ensures
            final(self).pending_kad@ == old(self).pending_kad@.remove(id@),
            *final(self) == (SwarmActor { pending_kad: final(self).pending_kad, ..*old(self) }),
            r == (if old(self).pending_kad@.dom().contains(id@) && old(self).pending_kad@[id@].kind == kind {
                Some(old(self).pending_kad@[id@].ticket)
            } else {
                None
            }),
    {
        match self.pending_kad.remove(id) {
            Some(p) => if p.kind == kind {
                Some(p.ticket)
            } else {
                None
            },
            None => None,
        }
    }

    /// Bootstrapping has an outcome: says whether it worked for the first time since the network was
    /// built.
    pub fn bootstrap_done(&mut self, worked: bool) -> (r: bool)
        ensures
            r == (worked && !old(self).bootstrap_triggered),
            *final(self) == (SwarmActor {
                bootstrap_triggered: old(self).bootstrap_triggered || worked,
                ..*old(self)
            }),
    {
        if worked && !self.bootstrap_triggered {
            self.bootstrap_triggered = true;
            true
        } else {
            false
        }
    }

    /// A request to a peer was sent: who waits for its response is kept.
    pub fn request_sent(&mut self, id: String, ticket: u64)
        ensures
            final(self).pending_outbound@ == old(self).pending_outbound@.insert(id@, ticket),
            *final(self) == (SwarmActor { pending_outbound: final(self).pending_outbound, ..*old(self) }),
    {
        self.pending_outbound.insert(id, ticket);
    }

    /// A request to a peer has a response or has failed: who waited for it.
    pub fn request_done(&mut self, id: &str) -> (r: Option<u64>)
        ensures
            final(self).pending_outbound@ == old(self).pending_outbound@.remove(id@),
            *final(self) == (SwarmActor { pending_outbound: final(self).pending_outbound, ..*old(self) }),
            r == (if old(self).pending_outbound@.dom().contains(id@) {
                Some(old(self).pending_outbound@[id@])
            } else {
                None
            }),
    {
        self.pending_outbound.remove(id)
    }

    /// A peer's request has come in: where its response is to go is kept.
    pub fn request_received(&mut self, request_id: String, connection: String, channel: u64)
        ensures
            final(self).pending_inbound@ == old(self).pending_inbound@.insert(
                request_id@,
                (InboundPending { connection, channel }),
            ),
            *final(self) == (SwarmActor { pending_inbound: final(self).pending_inbound, ..*old(self) }),
    {
        self.pending_inbound.insert(request_id, InboundPending { connection, channel });
    }

    /// A connection has closed: its requests cannot be answered any more and are forgotten. The
    /// channels for their responses.
    pub fn connection_closed(&mut self, connection: &str) -> (r: Vec<u64>)
        ensures
            final(self).pending_inbound@ == without_connection(old(self).pending_inbound@, connection@),
            *final(self) == (SwarmActor { pending_inbound: final(self).pending_inbound, ..*old(self) }),
            r@ == channels_over(old(self).pending_inbound.order(), old(self).pending_inbound@, connection@),
    {
        let n: usize = self.pending_inbound.len();
        let ghost m = self.pending_inbound@;
        let ghost o = self.pending_inbound.order();
        let mut kept: NameMap<InboundPending> = NameMap::new();
        let mut dropped: Vec<u64> = Vec::new();
        let mut i: usize = 0;
        assert(o.subrange(0, 0) =~= Seq::<Seq<char>>::empty());
        while i < n
            invariant
                i <= n,
                n == o.len(),
                *self == *old(self),
                o == self.pending_inbound.order(),
                m == self.pending_inbound@,
                o.no_duplicates(),
                forall|k: Seq<char>| o.contains(k) <==> m.dom().contains(k),
                forall|k: Seq<char>| #[trigger]
                    kept@.dom().contains(k) <==> o.subrange(0, i as int).contains(k) && m[k].connection@ != connection@,
                forall|k: Seq<char>| #[trigger] kept@.dom().contains(k) ==> kept@[k] == m[k],
                dropped@ == channels_over(o.subrange(0, i as int), m, connection@),
            decreases n - i,
        {
            let ghost before = o.subrange(0, i as int);
            let ghost after = o.subrange(0, i + 1);
            proof {
                assert(after =~= before.push(o[i as int]));
                assert(after.drop_last() =~= before);
                assert forall|k: Seq<char>| after.contains(k) <==> before.contains(k) || k == o[i as int] by {
                    if before.contains(k) {
                        let j = choose|j: int| 0 <= j < before.len() && before[j] == k;
                        assert(after[j] == k);
                    }
                    if after.contains(k) && k != o[i as int] {
                        let j = choose|j: int| 0 <= j < after.len() && after[j] == k;
                        assert(before[j] == k);
                    }
                    assert(after[i as int] == o[i as int]);
                }
            }
            let p = self.pending_inbound.value_at(i);
            if same_text(p.connection.as_str(), connection) {
                dropped.push(p.channel);
            } else {
                kept.insert(
                    self.pending_inbound.key_at(i).clone(),
                    InboundPending { connection: p.connection.clone(), channel: p.channel },
                );
            }
            i += 1;
        }
        proof {
            assert(o.subrange(0, n as int) =~= o);
            assert(kept@ =~= without_connection(m, connection@));
        }
        self.pending_inbound = kept;
        dropped
    }

    /// The network is about to be rebuilt: everyone who waits is to be told so, and all tables are
    /// emptied. The tickets of all who waited.
    pub fn begin_reload(&mut self) -> (r: Vec<u64>)
        ensures
            r@ == kad_tickets(old(self).pending_kad.order(), old(self).pending_kad@) + outbound_tickets(
                old(self).pending_outbound.order(),
                old(self).pending_outbound@,
            ),
            forall|k: Seq<char>| #[trigger]
                old(self).pending_kad@.dom().contains(k) ==> r@.contains(old(self).pending_kad@[k].ticket),
            forall|k: Seq<char>| #[trigger]
                old(self).pending_outbound@.dom().contains(k) ==> r@.contains(old(self).pending_outbound@[k]),
            final(self).pending_kad@ == Map::<Seq<char>, KadPending>::empty(),
            final(self).pending_outbound@ == Map::<Seq<char>, u64>::empty(),
            final(self).pending_inbound@ == Map::<Seq<char>, InboundPending>::empty(),
            final(self).bootstrap_triggered == old(self).bootstrap_triggered,
    {
        let mut out: Vec<u64> = Vec::new();
        let n: usize = self.pending_kad.len();
        let ghost ko = self.pending_kad.order();
        let ghost km = self.pending_kad@;
        let mut i: usize = 0;
        while i < n
            invariant
                i <= n,
                n == ko.len(),
                *self == *old(self),
                ko == self.pending_kad.order(),
                km == self.pending_kad@,
                out@.len() == i,
                forall|j: int| 0 <= j < i ==> #[trigger] out@[j] == km[ko[j]].ticket,
            decreases n - i,
        {
            out.push(self.pending_kad.value_at(i).ticket);
            i += 1;
        }
        let m: usize = self.pending_outbound.len();
        let ghost oo = self.pending_outbound.order();
        let ghost om = self.pending_outbound@;
        let mut k: usize = 0;
        while k < m
            invariant
                k <= m,
                m == oo.len(),
                n == ko.len(),
                *self == *old(self),
                oo == self.pending_outbound.order(),
                om == self.pending_outbound@,
                out@.len() == n + k,
                forall|j: int| 0 <= j < n ==> #[trigger] out@[j] == km[ko[j]].ticket,
                forall|j: int| n <= j < n + k ==> #[trigger] out@[j] == om[oo[j - n]],
            decreases m - k,
        {
            out.push(*self.pending_outbound.value_at(k));
            k += 1;
        }
        proof {
            assert(out@ =~= kad_tickets(ko, km) + outbound_tickets(oo, om));
            assert forall|q: Seq<char>| #[trigger] km.dom().contains(q) implies out@.contains(km[q].ticket) by {
                assert(ko.contains(q));
                let j = choose|j: int| 0 <= j < ko.len() && ko[j] == q;
                assert(out@[j] == km[q].ticket);
            }
            assert forall|q: Seq<char>| #[trigger] om.dom().contains(q) implies out@.contains(om[q]) by {
                assert(oo.contains(q));
                let j = choose|j: int| 0 <= j < oo.len() && oo[j] == q;
                assert(out@[n + j] == om[q]);
            }
        }
        self.pending_kad.clear();
        self.pending_outbound.clear();
        self.pending_inbound.clear();
        out
    }

    /// The network was rebuilt: bootstrapping counts anew.
    pub fn reloaded(&mut self)
        ensures
            *final(self) == (SwarmActor { bootstrap_triggered: false, ..*old(self) }),
    {
        self.bootstrap_triggered = false;
    }
}

/// What became of handling a peer's request.
pub enum HandlerOutcome {
    Answered(Result<Response, String>),
    /// Whoever handled it went away.
    Dropped,
}

/// The response to a peer's request: there is one whatever became of handling it, so that the peer
/// does not wait in vain.
pub fn inbound_response(outcome: HandlerOutcome) -> (r: Response)
    ensures
        match outcome {
            HandlerOutcome::Answered(Ok(response)) => r == response,
            HandlerOutcome::Answered(Err(e)) => !r.success && r.data@ == encode_utf8(e@),
            HandlerOutcome::Dropped => !r.success && r.data@ == encode_utf8("request handler dropped"@),
        },
{
    match outcome {
        HandlerOutcome::Answered(Ok(response)) => response,
        HandlerOutcome::Answered(Err(e)) => Response { success: false, data: copy_bytes(e.as_str().as_bytes()) },
        HandlerOutcome::Dropped => Response {
            success: false,
            data: copy_bytes("request handler dropped".as_bytes()),
        },
    }
}

/// The requests of a closed connection are forgotten, and no others; the channels that are dropped are
/// theirs, in order.
pub proof fn closed_connection_takes_its_requests(
    order: Seq<Seq<char>>,
    m: Map<Seq<char>, InboundPending>,
    connection: Seq<char>,
    k: Seq<char>,
)
    ensures
        without_connection(m, connection).dom().contains(k) <==> m.dom().contains(k) && m[k].connection@ != connection,
        without_connection(m, connection).dom().contains(k) ==> without_connection(m, connection)[k] == m[k],
        channels_over(order, m, connection) == order.filter(|q: Seq<char>| m[q].connection@ == connection).map_values(
            |q: Seq<char>| m[q].channel,
        ),
    decreases order.len(),
{
    reveal(Seq::filter);
    let over = |q: Seq<char>| m[q].connection@ == connection;
    let channel = |q: Seq<char>| m[q].channel;
    if order.len() > 0 {
        let rest = order.drop_last();
        closed_connection_takes_its_requests(rest, m, connection, k);
        if over(order.last()) {
            assert(rest.filter(over).push(order.last()).map_values(channel) =~= rest.filter(over).map_values(channel).push(
                m[order.last()].channel,
            ));
        }
    } else {
        assert(order.filter(over).map_values(channel) =~= Seq::<u64>::empty());
    }
}

/// While the distributed table is on, a query asks just what it was to ask, and answers whoever asked;
/// while it is off, whoever asked is told so.
pub proof fn queries_are_passed_on(
    kad_enabled: bool,
    kind: KadKind,
    key: Seq<u8>,
    value: Option<Seq<u8>>,
    ticket: u64,
    r: SwarmAction,
)
    requires
        query_planned(kad_enabled, kind, key, value, ticket, r),
    ensures
        kad_enabled ==> r is Query && r->Query_kind == kind && r->Query_key@ == key && r->Query_ticket == ticket,
        kad_enabled && value is None ==> r->Query_value is None,
        kad_enabled && value is Some ==> r->Query_value is Some && r->Query_value->0@ == value->0,
        !kad_enabled ==> r is Refuse && r->Refuse_ticket == ticket && r->error is Disabled,
{
}

/// Everyone who waits has a ticket, in the order in which they came to wait.
pub proof fn tickets_of_all_who_wait(
    order: Seq<Seq<char>>,
    queries: Map<Seq<char>, KadPending>,
    requests: Map<Seq<char>, u64>,
)
    ensures
        kad_tickets(order, queries).len() == order.len(),
        outbound_tickets(order, requests).len() == order.len(),
        forall|i: int| 0 <= i < order.len() ==> #[trigger] kad_tickets(order, queries)[i] == queries[order[i]].ticket,
        forall|i: int| 0 <= i < order.len() ==> #[trigger] outbound_tickets(order, requests)[i] == requests[order[i]],
{
}

} // verus!
