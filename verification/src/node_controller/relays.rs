//! Which relays the node uses.
//!
//! A node without both IP families reserves a place at up to three bootstrap nodes, which must
//! have both, so that it can be reached from either family.

use crate::auth::AuthCache;
use crate::config::{ConfigHandle, KademliaService, NodeConfig, ServicesConfig};
use crate::crypto::PeerId;
use crate::lists::{kept_alike, kept_differ, kept_exactly, kept_twice};
use crate::multiaddr::{addr_views, extract_peer_id_from_multiaddr, peer_of, Multiaddr, Part, Protocol};
use crate::name_map::NameMap;
use crate::node_controller::authorize::{configured_authority, resolve_auth_state, state_of, AuthState};
use crate::text::same_text;
use vstd::prelude::*;
use vstd::string::*;

verus! {

/// The number of relays that the node wants.
pub const RELAY_TARGET: usize = 3;

/// The seconds to stay away from a relay after so many failures in a row.
pub open spec fn backoff_secs(count: nat) -> nat {
    if count <= 1 {
        30
    } else if count == 2 {
        60
    } else if count == 3 {
        120
    } else if count == 4 {
        240
    } else if count == 5 {
        480
    } else {
        600
    }
}

/// The seconds to stay away from a relay after so many failures in a row: 30, doubling each time,
/// up to ten minutes.
pub fn relay_backoff_secs(count: u32) -> (r: u64)
    ensures
        r as nat == backoff_secs(count as nat),
{
    let less: u32 = count.saturating_sub(1);
    let shift: u32 = if less < 5 {
        less
    } else {
        5
    };
    assert(30u64 << 0u32 == 30) by (bit_vector);
    assert(30u64 << 1u32 == 60) by (bit_vector);
    assert(30u64 << 2u32 == 120) by (bit_vector);
    assert(30u64 << 3u32 == 240) by (bit_vector);
    assert(30u64 << 4u32 == 480) by (bit_vector);
    assert(30u64 << 5u32 == 960) by (bit_vector);
    let secs: u64 = 30u64 << shift;
    if secs < 600 {
        secs
    } else {
        600
    }
}

/// The wait never shrinks with more failures, doubles until it reaches its cap, and stays between
/// half a minute and ten minutes.
pub proof fn backoff_grows_to_its_cap(a: nat, b: nat)
    requires
        a <= b,
    ensures
        30 <= backoff_secs(a) <= backoff_secs(b) <= 600,
        1 <= a ==> (backoff_secs((a + 1) as nat) == 2 * backoff_secs(a) || backoff_secs((a + 1) as nat) == 600),
{
}

/// The node's view of its peers and relays.
pub struct NodeController {
    pub my_peer_id: PeerId,
    /// The last round-trip time to each peer, in nanoseconds.
    pub node_rtts: NameMap<u128>,
    /// The failed pings in a row of each peer.
    pub node_ping_failures: NameMap<u32>,
    /// The relays that have accepted a reservation.
    pub active_relays: NameMap<()>,
    /// The relays that were asked for a reservation, and when (in nanoseconds of a clock that does
    /// not run backwards).
    pub pending_relays: NameMap<u64>,
    /// The failures in a row of each relay.
    pub relay_failures: NameMap<u32>,
    /// Until when to stay away from each relay.
    pub relay_backoff: NameMap<u64>,
    /// The peers that the distributed table names as bootstrap nodes.
    pub bootstrap_providers: NameMap<()>,
    /// Whether this node has announced itself as a bootstrap node.
    pub is_bootstrap_provider: bool,
    pub auth_state: AuthState,
}

/// The state of relays: what the node tracks, and the configured bootstrap nodes.
pub struct RelayView {
    pub active: Map<Seq<char>, ()>,
    pub pending: Map<Seq<char>, u64>,
    pub failures: Map<Seq<char>, u32>,
    pub backoff: Map<Seq<char>, u64>,
    pub nodes: Seq<Seq<Part>>,
}

/// The state of relays of a node with a configuration.
pub open spec fn relay_view(c: NodeController, config: NodeConfig) -> RelayView {
    RelayView {
        active: c.active_relays@,
        pending: c.pending_relays@,
        failures: c.relay_failures@,
        backoff: c.relay_backoff@,
        nodes: addr_views(config.services.kademlia.bootstrap_nodes@),
    }
}

/// Whether two configurations differ at most in the bootstrap nodes.
pub open spec fn same_but_nodes(a: NodeConfig, b: NodeConfig) -> bool {
    a == (NodeConfig {
        services: ServicesConfig {
            kademlia: KademliaService {
                bootstrap_nodes: a.services.kademlia.bootstrap_nodes,
                ..b.services.kademlia
            },
            ..b.services
        },
        ..b
    })
}

/// Whether two controllers differ at most in what they track of relays.
pub open spec fn same_but_relays(a: NodeController, b: NodeController) -> bool {
    a == (NodeController {
        active_relays: a.active_relays,
        pending_relays: a.pending_relays,
        relay_failures: a.relay_failures,
        relay_backoff: a.relay_backoff,
        ..b
    })
}

/// No relay is both asked and accepted.
pub open spec fn disjoint_relays(v: RelayView) -> bool {
    forall|p: Seq<char>| #[trigger] v.active.dom().contains(p) ==> !v.pending.dom().contains(p)
}

/// The addresses that do not name a peer.
pub open spec fn without_peer(nodes: Seq<Seq<Part>>, peer: Seq<char>) -> Seq<Seq<Part>>
    decreases nodes.len(),
{
    if nodes.len() == 0 {
        Seq::empty()
    } else if peer_of(nodes.last()) == Some(peer) {
        without_peer(nodes.drop_last(), peer)
    } else {
        without_peer(nodes.drop_last(), peer).push(nodes.last())
    }
}

/// A peer is forgotten, and taken out of the bootstrap nodes.
pub open spec fn evicted(v: RelayView, peer: Seq<char>) -> RelayView {
    RelayView {
        active: v.active.remove(peer),
        pending: v.pending.remove(peer),
        failures: v.failures.remove(peer),
        backoff: v.backoff.remove(peer),
        nodes: without_peer(v.nodes, peer),
    }
}

/// The failures of a peer after one more; the count stops at its largest value.
pub open spec fn bumped(failures: Map<Seq<char>, u32>, peer: Seq<char>) -> u32 {
    if failures.dom().contains(peer) {
        if failures[peer] < u32::MAX {
            (failures[peer] + 1) as u32
        } else {
            u32::MAX
        }
    } else {
        1
    }
}

/// When the wait after so many failures ends.
pub open spec fn backoff_end(now: u64, count: u32) -> u64 {
    let end = now + backoff_secs(count as nat) * 1_000_000_000;
    if end <= u64::MAX {
        end as u64
    } else {
        u64::MAX
    }
}

/// Whether so many failures take a peer out of the bootstrap nodes.
pub open spec fn too_many(count: u32, max: u32) -> bool {
    max > 0 && count >= max
}

/// A relay has failed once more: stay away for a while, or take it out.
pub open spec fn failed(v: RelayView, peer: Seq<char>, now: u64, max: u32) -> RelayView {
    let count = bumped(v.failures, peer);
    if too_many(count, max) {
        evicted(v, peer)
    } else {
        RelayView {
            failures: v.failures.insert(peer, count),
            backoff: v.backoff.insert(peer, backoff_end(now, count)),
            ..v
        }
    }
}

/// A reservation that was asked for is given up, and counts as a failure.
pub open spec fn given_up(v: RelayView, peer: Seq<char>, now: u64, max: u32) -> RelayView {
    failed(RelayView { pending: v.pending.remove(peer), ..v }, peer, now, max)
}

/// Reservations that were asked for are given up, one after the other.
pub open spec fn all_given_up(v: RelayView, peers: Seq<Seq<char>>, now: u64, max: u32) -> RelayView
    decreases peers.len(),
{
    if peers.len() == 0 {
        v
    } else {
        given_up(all_given_up(v, peers.drop_last(), now, max), peers.last(), now, max)
    }
}

/// Whether one of the failures when reservations are given up takes a peer out.
pub open spec fn giving_up_takes_out(v: RelayView, peers: Seq<Seq<char>>, now: u64, max: u32) -> bool
    decreases peers.len(),
{
    peers.len() > 0 && (giving_up_takes_out(v, peers.drop_last(), now, max) || too_many(
        bumped(all_given_up(v, peers.drop_last(), now, max).failures, peers.last()),
        max,
    ))
}

/// The nanoseconds after which a reservation that was asked for is given up: three checks, and at
/// least three minutes.
pub open spec fn patience(retry_interval_secs: u32) -> nat {
    let secs = if retry_interval_secs * 3 > 180 {
        retry_interval_secs * 3
    } else {
        180
    };
    (secs * 1_000_000_000) as nat
}

/// Whether a reservation asked for at a time is to be given up.
pub open spec fn overdue(since: u64, now: u64, retry_interval_secs: u32) -> bool {
    now >= since && now - since >= patience(retry_interval_secs)
}

/// Those of some peers whose reservations are to be given up, in order.
pub open spec fn overdue_peers(order: Seq<Seq<char>>, pending: Map<Seq<char>, u64>, now: u64, retry: u32) -> Seq<Seq<char>>
    decreases order.len(),
{
    if order.len() == 0 {
        Seq::empty()
    } else if overdue(pending[order.last()], now, retry) {
        overdue_peers(order.drop_last(), pending, now, retry).push(order.last())
    } else {
        overdue_peers(order.drop_last(), pending, now, retry)
    }
}

/// Takes the addresses that name a peer out of a list.
fn drop_peer(nodes: &Vec<Multiaddr>, peer: &str) -> (r: Vec<Multiaddr>)
    ensures
        addr_views(r@) == without_peer(addr_views(nodes@), peer@),
{
    let mut out: Vec<Multiaddr> = Vec::new();
    let ghost all = addr_views(nodes@);
    let mut i: usize = 0;
    assert(all.subrange(0, 0) =~= Seq::<Seq<Part>>::empty());
    assert(addr_views(out@) =~= without_peer(all.subrange(0, 0), peer@));
    while i < nodes.len()
        invariant
            i <= nodes@.len(),
            all == addr_views(nodes@),
            addr_views(out@) == without_peer(all.subrange(0, i as int), peer@),
        decreases nodes@.len() - i,
    {
        proof {
            let upto = all.subrange(0, i + 1);
            assert(upto.drop_last() =~= all.subrange(0, i as int));
            assert(upto.last() == nodes@[i as int]@);
        }
        let named = match extract_peer_id_from_multiaddr(&nodes[i]) {
            Some(p) => same_text(p.as_str(), peer),
            None => false,
        };
        if !named {
            let ghost before = out@;
            out.push(nodes[i].copy());
            assert(addr_views(out@) =~= addr_views(before).push(nodes@[i as int]@));
        }
        i += 1;
    }
    assert(all.subrange(0, all.len() as int) =~= all);
    out
}

impl NodeController {
    /// A controller that knows only its own peer, at no distance, and the configuration's state of
    /// authorization.
    pub fn new(config: &ConfigHandle, my_peer_id: PeerId) -> (r: Self)
        ensures
            r.my_peer_id@ == my_peer_id@,
            r.node_rtts@ == Map::<Seq<char>, u128>::empty().insert(my_peer_id@, 0),
            r.node_ping_failures@ == Map::<Seq<char>, u32>::empty(),
            r.active_relays@ == Map::<Seq<char>, ()>::empty(),
            r.pending_relays@ == Map::<Seq<char>, u64>::empty(),
            r.relay_failures@ == Map::<Seq<char>, u32>::empty(),
            r.relay_backoff@ == Map::<Seq<char>, u64>::empty(),
            r.bootstrap_providers@ == Map::<Seq<char>, ()>::empty(),
            !r.is_bootstrap_provider,
            state_of(config.inner.auth.network@, configured_authority(config.inner), r.auth_state),
    {
        let mut node_rtts: NameMap<u128> = NameMap::new();
        node_rtts.insert(my_peer_id.clone(), 0);
        NodeController {
            my_peer_id,
            node_rtts,
            node_ping_failures: NameMap::new(),
            active_relays: NameMap::new(),
            pending_relays: NameMap::new(),
            relay_failures: NameMap::new(),
            relay_backoff: NameMap::new(),
            bootstrap_providers: NameMap::new(),
            is_bootstrap_provider: false,
            auth_state: resolve_auth_state(config),
        }
    }

    /// Forgets a peer and takes it out of the bootstrap nodes.
    pub fn evict_bootstrap(&mut self, config: &mut ConfigHandle, peer: &str)
        ensures
            relay_view(*final(self), final(config).inner) == evicted(
                relay_view(*old(self), old(config).inner),
                peer@,
            ),
            same_but_relays(*final(self), *old(self)),
            same_but_nodes(final(config).inner, old(config).inner),
    {
        let kept = drop_peer(&config.inner.services.kademlia.bootstrap_nodes, peer);
        config.set_bootstrap_nodes(kept);
        let _ = self.active_relays.remove(peer);
        let _ = self.pending_relays.remove(peer);
        let _ = self.relay_failures.remove(peer);
        let _ = self.relay_backoff.remove(peer);
    }

    /// Counts a failure of a relay: sets how long to stay away from it, or takes it out of the
    /// bootstrap nodes when the failures are too many. Says whether it took it out, in which case
    /// the configuration is to be saved.
    pub fn record_relay_failure(&mut self, config: &mut ConfigHandle, peer: &str, now: u64) -> (r: bool)
        ensures
            relay_view(*final(self), final(config).inner) == failed(
                relay_view(*old(self), old(config).inner),
                peer@,
                now,
                old(config).inner.services.relay.max_failures,
            ),
            r == too_many(
                bumped(old(self).relay_failures@, peer@),
                old(config).inner.services.relay.max_failures,
            ),
            same_but_relays(*final(self), *old(self)),
            same_but_nodes(final(config).inner, old(config).inner),
            !r ==> *final(config) == *old(config),
    {
        let count: u32 = match self.relay_failures.get(peer) {
            Some(c) => c.saturating_add(1),
            None => 1,
        };
        self.relay_failures.insert(peer.to_owned(), count);
        let wait: u64 = relay_backoff_secs(count) * 1_000_000_000;
        self.relay_backoff.insert(peer.to_owned(), now.saturating_add(wait));
        let max: u32 = config.relay_max_failures();
        if max > 0 && count >= max {
            self.evict_bootstrap(config, peer);
            proof {
                let v = relay_view(*old(self), old(config).inner);
                assert(self.relay_failures@ =~= v.failures.remove(peer@));
                assert(self.relay_backoff@ =~= v.backoff.remove(peer@));
            }
            true
        } else {
            false
        }
    }

    /// Gives up the reservations that have waited too long. Says whether a peer was taken out of the
    /// bootstrap nodes, in which case the configuration is to be saved.
    pub fn expire_pending_relays(&mut self, config: &mut ConfigHandle, now: u64) -> (r: bool)
        ensures
            ({
                let retry = old(config).inner.services.relay.retry_interval_secs;
                let late = overdue_peers(old(self).pending_relays.order(), old(self).pending_relays@, now, retry);
                let max = old(config).inner.services.relay.max_failures;
                let before = relay_view(*old(self), old(config).inner);
                &&& relay_view(*final(self), final(config).inner) == all_given_up(before, late, now, max)
                &&& r == giving_up_takes_out(before, late, now, max)
            }),
            same_but_relays(*final(self), *old(self)),
            same_but_nodes(final(config).inner, old(config).inner),
            !r ==> *final(config) == *old(config),
    {
        let retry: u32 = config.relay_retry_interval();
        let secs: u64 = if retry as u64 * 3 > 180 {
            retry as u64 * 3
        } else {
            180
        };
        let timeout: u64 = secs * 1_000_000_000;
        let mut late: Vec<PeerId> = Vec::new();
        let n: usize = self.pending_relays.len();
        let ghost order = self.pending_relays.order();
        let mut i: usize = 0;
        assert(order.subrange(0, 0) =~= Seq::<Seq<char>>::empty());
        assert(late@.map_values(|t: String| t@) =~= Seq::<Seq<char>>::empty());
        while i < n
            invariant
                n == order.len(),
                order == self.pending_relays.order(),
                i <= n,
                *self == *old(self),
                *config == *old(config),
                timeout as nat == patience(retry),
                late@.map_values(|t: String| t@) == overdue_peers(
                    order.subrange(0, i as int),
                    self.pending_relays@,
                    now,
                    retry,
                ),
            decreases n - i,
        {
            proof {
                let upto = order.subrange(0, i + 1);
                assert(upto.drop_last() =~= order.subrange(0, i as int));
                assert(upto.last() == order[i as int]);
            }
            let since: u64 = *self.pending_relays.value_at(i);
            if now >= since && now - since >= timeout {
                let ghost before = late@;
                late.push(self.pending_relays.key_at(i).clone());
                assert(late@.map_values(|t: String| t@) =~= before.map_values(|t: String| t@).push(order[i as int]));
            }
            i += 1;
        }
        assert(order.subrange(0, n as int) =~= order);
        let ghost peers = late@.map_values(|t: String| t@);
        let ghost start = relay_view(*self, config.inner);
        let mut save: bool = false;
        let mut k: usize = 0;
        assert(peers.subrange(0, 0) =~= Seq::<Seq<char>>::empty());
        while k < late.len()
            invariant
                k <= late@.len(),
                peers == late@.map_values(|t: String| t@),
                relay_view(*self, config.inner) == all_given_up(
                    start,
                    peers.subrange(0, k as int),
                    now,
                    old(config).inner.services.relay.max_failures,
                ),
                save == giving_up_takes_out(
                    start,
                    peers.subrange(0, k as int),
                    now,
                    old(config).inner.services.relay.max_failures,
                ),
                same_but_relays(*self, *old(self)),
                same_but_nodes(config.inner, old(config).inner),
                !save ==> *config == *old(config),
            decreases late@.len() - k,
        {
            proof {
                let upto = peers.subrange(0, k + 1);
                assert(upto.drop_last() =~= peers.subrange(0, k as int));
                assert(upto.last() == late@[k as int]@);
            }
            let _ = self.pending_relays.remove(late[k].as_str());
            let out = self.record_relay_failure(config, late[k].as_str(), now);
            if out {
                save = true;
            }
            k += 1;
        }
        assert(peers.subrange(0, peers.len() as int) =~= peers);
        save
    }

    /// A relay has accepted a reservation, or renewed it.
    pub fn relay_accepted(&mut self, peer: &str)
        ensures
            final(self).active_relays@ == old(self).active_relays@.insert(peer@, ()),
            final(self).pending_relays@ == old(self).pending_relays@.remove(peer@),
            final(self).relay_failures@ == old(self).relay_failures@.remove(peer@),
            final(self).relay_backoff@ == old(self).relay_backoff@.remove(peer@),
            same_but_relays(*final(self), *old(self)),
    {
        let _ = self.pending_relays.remove(peer);
        self.active_relays.insert(peer.to_owned(), ());
        let _ = self.relay_failures.remove(peer);
        let _ = self.relay_backoff.remove(peer);
    }
}

/// A bootstrap node that may serve as a relay.
pub struct Candidate {
    pub peer: PeerId,
    pub addr: Multiaddr,
}

/// What a candidate is.
pub struct CandidateView {
    pub peer: Seq<char>,
    pub addr: Seq<Part>,
}

impl Candidate {
    pub open spec fn view(&self) -> CandidateView {
        CandidateView { peer: self.peer@, addr: self.addr@ }
    }
}

/// What candidates are.
pub open spec fn candidate_views(s: Seq<Candidate>) -> Seq<CandidateView> {
    s.map_values(|c: Candidate| c@)
}

/// Whether a peer is among candidates.
pub open spec fn is_candidate(s: Seq<CandidateView>, peer: Seq<char>) -> bool {
    exists|i: int| 0 <= i < s.len() && (#[trigger] s[i]).peer == peer
}

/// The peers that some addresses name, without this node, each once with its first address.
pub open spec fn candidates_of(nodes: Seq<Seq<Part>>, me: Seq<char>) -> Seq<CandidateView>
    decreases nodes.len(),
{
    if nodes.len() == 0 {
        Seq::empty()
    } else {
        let before = candidates_of(nodes.drop_last(), me);
        match peer_of(nodes.last()) {
            Some(p) => if p == me || is_candidate(before, p) {
                before
            } else {
                before.push(CandidateView { peer: p, addr: nodes.last() })
            },
            None => before,
        }
    }
}

/// One round of asking for missing reservations.
pub struct Reconcile {
    pub candidates: Vec<Candidate>,
    /// The candidate that comes next.
    pub next: usize,
    /// The number of relays to have.
    pub desired: usize,
    pub now: u64,
}

/// Whether a candidate is not to be asked: it was asked or has accepted already, or has failed
/// recently.
pub open spec fn passed_over(c: NodeController, peer: Seq<char>, now: u64) -> bool {
    ||| c.active_relays@.dom().contains(peer)
    ||| c.pending_relays@.dom().contains(peer)
    ||| (c.relay_backoff@.dom().contains(peer) && c.relay_backoff@[peer] > now)
}

/// The number of relays that have accepted or were asked.
pub open spec fn relay_count(c: NodeController) -> nat {
    c.active_relays.order().len() + c.pending_relays.order().len()
}

/// Whether the node needs relays: it has not both IP families.
pub open spec fn needs_relay(config: NodeConfig) -> bool {
    !(config.network.ipv4_enabled && config.network.ipv6_enabled)
}

/// Whether the node needs relays.
pub fn need_relay(config: &ConfigHandle) -> (r: bool)
    ensures
        r == needs_relay(config.inner),
{
    !(config.inner.network.ipv4_enabled && config.inner.network.ipv6_enabled)
}

fn relay_candidates(nodes: &Vec<Multiaddr>, me: &str) -> (r: Vec<Candidate>)
    ensures
        candidate_views(r@) == candidates_of(addr_views(nodes@), me@),
{
    let mut out: Vec<Candidate> = Vec::new();
    let ghost all = addr_views(nodes@);
    let mut i: usize = 0;
    assert(all.subrange(0, 0) =~= Seq::<Seq<Part>>::empty());
    assert(candidate_views(out@) =~= Seq::<CandidateView>::empty());
    while i < nodes.len()
        invariant
            i <= nodes@.len(),
            all == addr_views(nodes@),
            candidate_views(out@) == candidates_of(all.subrange(0, i as int), me@),
        decreases nodes@.len() - i,
    {
        proof {
            let upto = all.subrange(0, i + 1);
            assert(upto.drop_last() =~= all.subrange(0, i as int));
            assert(upto.last() == nodes@[i as int]@);
        }
        match extract_peer_id_from_multiaddr(&nodes[i]) {
            Some(p) => {
                let seen = names_peer(&out, p.as_str());
                if !same_text(p.as_str(), me) && !seen {
                    let ghost before = out@;
                    let ghost pv = p@;
                    out.push(Candidate { peer: p, addr: nodes[i].copy() });
                    assert(candidate_views(out@) =~= candidate_views(before).push(
                        CandidateView { peer: pv, addr: nodes@[i as int]@ },
                    ));
                }
            },
            None => {},
        }
        i += 1;
    }
    assert(all.subrange(0, all.len() as int) =~= all);
    out
}

fn names_peer(s: &Vec<Candidate>, peer: &str) -> (r: bool)
    ensures
        r == is_candidate(candidate_views(s@), peer@),
{
    let ghost all = candidate_views(s@);
    let mut i: usize = 0;
    while i < s.len()
        invariant
            i <= s@.len(),
            all == candidate_views(s@),
            forall|j: int| 0 <= j < i ==> (#[trigger] all[j]).peer != peer@,
        decreases s@.len() - i,
    {
        assert(all[i as int] == s@[i as int]@);
        if same_text(s[i].peer.as_str(), peer) {
            return true;
        }
        i += 1;
    }
    false
}

impl NodeController {
    /// Starts a round of asking for missing reservations, if the node needs relays: reservations that
    /// have waited too long are given up, then the candidates are the peers of the bootstrap nodes.
    /// Also says whether the configuration is to be saved.
    pub fn begin_reconcile(&mut self, config: &mut ConfigHandle, now: u64) -> (r: (Option<Reconcile>, bool))
        ensures
            !needs_relay(old(config).inner) ==> r == (None::<Reconcile>, false) && *final(self) == *old(self) && *final(config)
                == *old(config),
            needs_relay(old(config).inner) ==> ({
                let retry = old(config).inner.services.relay.retry_interval_secs;
                let late = overdue_peers(old(self).pending_relays.order(), old(self).pending_relays@, now, retry);
                let max = old(config).inner.services.relay.max_failures;
                let before = relay_view(*old(self), old(config).inner);
                let nodes = addr_views(final(config).inner.services.kademlia.bootstrap_nodes@);
                &&& relay_view(*final(self), final(config).inner) == all_given_up(before, late, now, max)
                &&& r.1 == giving_up_takes_out(before, late, now, max)
                &&& same_but_relays(*final(self), *old(self))
                &&& same_but_nodes(final(config).inner, old(config).inner)
                &&& !r.1 ==> *final(config) == *old(config)
                &&& r.0 matches Some(round) && candidate_views(round.candidates@) == candidates_of(nodes, old(self).my_peer_id@)
                    && round.next == 0 && round.now == now && round.desired == (if round.candidates@.len() < RELAY_TARGET {
                    round.candidates@.len()
                } else {
                    RELAY_TARGET as nat
                })
            }),
    {
        if !need_relay(config) {
            return (None, false);
        }
        let save = self.expire_pending_relays(config, now);
        let candidates = relay_candidates(
            &config.inner.services.kademlia.bootstrap_nodes,
            self.my_peer_id.as_str(),
        );
        let desired: usize = if candidates.len() < RELAY_TARGET {
            candidates.len()
        } else {
            RELAY_TARGET
        };
        (Some(Reconcile { candidates, next: 0, desired, now }), save)
    }

    /// The next relay to ask in a round, with the address to listen on; nothing when there are enough
    /// relays or no candidate is left.
    pub fn next_relay(&self, round: &mut Reconcile) -> (r: Option<Candidate>)
        ensures
            final(round).candidates == old(round).candidates,
            final(round).desired == old(round).desired,
            final(round).now == old(round).now,
            match r {
                Some(c) => relay_count(*self) < old(round).desired && old(round).next < final(round).next
                    <= old(round).candidates@.len() && ({
                    let chosen = old(round).candidates@[final(round).next - 1];
                    &&& c.peer@ == chosen.peer@
                    &&& c.addr@ == chosen.addr@.push(Part::P2pCircuit)
                    &&& !passed_over(*self, c.peer@, old(round).now)
                }) && (forall|j: int|
                    old(round).next <= j < final(round).next - 1 ==> passed_over(
                        *self,
                        (#[trigger] old(round).candidates@[j]).peer@,
                        old(round).now,
                    )),
                None => if relay_count(*self) >= old(round).desired || old(round).next >= old(round).candidates@.len() {
                    final(round).next == old(round).next
                } else {
                    &&& final(round).next == old(round).candidates@.len()
                    &&& forall|j: int|
                        old(round).next <= j < old(round).candidates@.len() ==> passed_over(
                            *self,
                            (#[trigger] old(round).candidates@[j]).peer@,
                            old(round).now,
                        )
                },
            },
    {
        let active: usize = self.active_relays.len();
        let pending: usize = self.pending_relays.len();
        if active >= round.desired || pending >= round.desired - active {
            return None;
        }
        while round.next < round.candidates.len()
            invariant
                relay_count(*self) < old(round).desired,
                round.candidates == old(round).candidates,
                round.desired == old(round).desired,
                round.now == old(round).now,
                old(round).next <= round.next,
                round.next <= round.candidates@.len() || round.next == old(round).next,
                forall|j: int|
                    old(round).next <= j < round.next ==> passed_over(
                        *self,
                        (#[trigger] old(round).candidates@[j]).peer@,
                        old(round).now,
                    ),
            decreases round.candidates@.len() - round.next,
        {
            let i: usize = round.next;
            round.next = i + 1;
            let peer = round.candidates[i].peer.as_str();
            let waits = match self.relay_backoff.get(peer) {
                Some(until) => *until > round.now,
                None => false,
            };
            let skip = self.active_relays.contains(peer) || self.pending_relays.contains(peer) || waits;
            if !skip {
                let mut addr = round.candidates[i].addr.copy();
                addr.push(Protocol::P2pCircuit);
                return Some(Candidate { peer: round.candidates[i].peer.clone(), addr });
            }
        }
        None
    }

    /// Takes note of whether asking a relay worked: then the answer is awaited, otherwise it counts
    /// as a failure. Says whether the configuration is to be saved.
    pub fn relay_asked(&mut self, config: &mut ConfigHandle, peer: &str, listening: bool, now: u64) -> (r: bool)
        ensures
            ({
                let before = relay_view(*old(self), old(config).inner);
                relay_view(*final(self), final(config).inner) == (if listening {
                    RelayView { pending: before.pending.insert(peer@, now), ..before }
                } else {
                    failed(before, peer@, now, old(config).inner.services.relay.max_failures)
                })
            }),
            same_but_relays(*final(self), *old(self)),
            same_but_nodes(final(config).inner, old(config).inner),
            r == (!listening && too_many(
                bumped(old(self).relay_failures@, peer@),
                old(config).inner.services.relay.max_failures,
            )),
            !r ==> *final(config) == *old(config),
            listening ==> relay_count(*final(self)) <= relay_count(*old(self)) + 1,
    {
        if listening {
            self.pending_relays.insert(peer.to_owned(), now);
            false
        } else {
            self.record_relay_failure(config, peer, now)
        }
    }
}

/// Whether an address leads over a relay.
pub open spec fn relayed(a: Seq<Part>) -> bool {
    exists|i: int| 0 <= i < a.len() && #[trigger] a[i] is P2pCircuit
}

fn is_relayed(a: &Multiaddr) -> (r: bool)
    ensures
        r == relayed(a@),
{
    let mut i: usize = 0;
    while i < a.parts.len()
        invariant
            i <= a.parts@.len(),
            forall|j: int| 0 <= j < i ==> !(#[trigger] a@[j] is P2pCircuit),
        decreases a.parts@.len() - i,
    {
        match &a.parts[i] {
            Protocol::P2pCircuit => {
                assert(a@[i as int] is P2pCircuit);
                return true;
            },
            _ => {},
        }
        i += 1;
    }
    false
}

/// A listener on one address has closed: if a tracked relay was behind it, the relay is lost, and
/// that counts as a failure. Says whether one was lost.
pub open spec fn one_closed(v: RelayView, addr: Seq<Part>, now: u64, max: u32) -> (RelayView, bool) {
    match peer_of(addr) {
        Some(p) => if relayed(addr) && (v.active.dom().contains(p) || v.pending.dom().contains(p)) {
            (
                failed(
                    RelayView { active: v.active.remove(p), pending: v.pending.remove(p), ..v },
                    p,
                    now,
                    max,
                ),
                true,
            )
        } else {
            (v, false)
        },
        None => (v, false),
    }
}

/// A listener on several addresses has closed.
pub open spec fn closed(v: RelayView, addrs: Seq<Seq<Part>>, now: u64, max: u32) -> (RelayView, bool)
    decreases addrs.len(),
{
    if addrs.len() == 0 {
        (v, false)
    } else {
        let (before, lost) = closed(v, addrs.drop_last(), now, max);
        let (after, more) = one_closed(before, addrs.last(), now, max);
        (after, lost || more)
    }
}

/// Whether losing the relay behind one address takes the peer out.
pub open spec fn closing_one_takes_out(v: RelayView, addr: Seq<Part>, max: u32) -> bool {
    peer_of(addr) matches Some(p) && relayed(addr) && (v.active.dom().contains(p) || v.pending.dom().contains(p))
        && too_many(bumped(v.failures, p), max)
}

/// Whether losing the relays behind several addresses takes a peer out.
pub open spec fn closing_takes_out(v: RelayView, addrs: Seq<Seq<Part>>, now: u64, max: u32) -> bool
    decreases addrs.len(),
{
    addrs.len() > 0 && (closing_takes_out(v, addrs.drop_last(), now, max) || closing_one_takes_out(
        closed(v, addrs.drop_last(), now, max).0,
        addrs.last(),
        max,
    ))
}

/// What became of a closed listener.
pub struct Closed {
    /// Whether a tracked relay was lost, so that another should be asked.
    pub lost: bool,
    /// Whether the configuration is to be saved.
    pub save: bool,
}

impl NodeController {
    /// Takes note of a listener that closed.
    pub fn handle_listener_closed(&mut self, config: &mut ConfigHandle, addresses: &Vec<Multiaddr>, now: u64) -> (r: Closed)
        ensures
            (relay_view(*final(self), final(config).inner), r.lost) == closed(
                relay_view(*old(self), old(config).inner),
                addr_views(addresses@),
                now,
                old(config).inner.services.relay.max_failures,
            ),
            r.save == closing_takes_out(
                relay_view(*old(self), old(config).inner),
                addr_views(addresses@),
                now,
                old(config).inner.services.relay.max_failures,
            ),
            forall|i: int, j: int|
                0 <= i < addresses@.len() && 0 <= j < addresses@[i]@.len() && #[trigger] addresses@[i]@[j] is P2pCircuit
                    && peer_of(addresses@[i]@) is Some ==> !final(self).active_relays@.dom().contains(
                    peer_of(addresses@[i]@)->0,
                ) && !final(self).pending_relays@.dom().contains(peer_of(addresses@[i]@)->0),
            r.lost <==> exists|i: int, j: int|
                0 <= i < addresses@.len() && 0 <= j < addresses@[i]@.len() && #[trigger] addresses@[i]@[j] is P2pCircuit
                    && peer_of(addresses@[i]@) is Some && (old(self).active_relays@.dom().contains(
                    peer_of(addresses@[i]@)->0,
                ) || old(self).pending_relays@.dom().contains(peer_of(addresses@[i]@)->0)),
            same_but_relays(*final(self), *old(self)),
            same_but_nodes(final(config).inner, old(config).inner),
            !r.save ==> *final(config) == *old(config),
    {
        let ghost all = addr_views(addresses@);
        let ghost start = relay_view(*self, config.inner);
        let mut lost: bool = false;
        let mut save: bool = false;
        let mut i: usize = 0;
        assert(all.subrange(0, 0) =~= Seq::<Seq<Part>>::empty());
        while i < addresses.len()
            invariant
                i <= addresses@.len(),
                all == addr_views(addresses@),
                (relay_view(*self, config.inner), lost) == closed(
                    start,
                    all.subrange(0, i as int),
                    now,
                    old(config).inner.services.relay.max_failures,
                ),
                save == closing_takes_out(
                    start,
                    all.subrange(0, i as int),
                    now,
                    old(config).inner.services.relay.max_failures,
                ),
                same_but_relays(*self, *old(self)),
                same_but_nodes(config.inner, old(config).inner),
                !save ==> *config == *old(config),
            decreases addresses@.len() - i,
        {
            let ghost before = relay_view(*self, config.inner);
            proof {
                let upto = all.subrange(0, i + 1);
                assert(upto.drop_last() =~= all.subrange(0, i as int));
                assert(upto.last() == addresses@[i as int]@);
            }
            if is_relayed(&addresses[i]) {
                match extract_peer_id_from_multiaddr(&addresses[i]) {
                    Some(p) => {
                        let peer = p.as_str();
                        let was_active = self.active_relays.contains(peer);
                        let was_pending = self.pending_relays.contains(peer);
                        if was_active || was_pending {
                            let _ = self.active_relays.remove(peer);
                            let _ = self.pending_relays.remove(peer);
                            lost = true;
                            let out = self.record_relay_failure(config, peer, now);
                            if out {
                                save = true;
                            }
                        }
                    },
                    None => {},
                }
            }
            i += 1;
        }
        assert(all.subrange(0, all.len() as int) =~= all);
        proof {
            let max = old(config).inner.services.relay.max_failures;
            closed_relay_is_lost(start, all, now, max, Seq::empty());
            assert forall|i: int, j: int|
                0 <= i < addresses@.len() && 0 <= j < addresses@[i]@.len() && #[trigger] addresses@[i]@[j] is P2pCircuit
                    && peer_of(addresses@[i]@) is Some implies !self.active_relays@.dom().contains(peer_of(addresses@[i]@)->0)
                && !self.pending_relays@.dom().contains(peer_of(addresses@[i]@)->0) by {
                closed_relay_is_lost(start, all, now, max, peer_of(addresses@[i]@)->0);
                assert(all[i][j] is P2pCircuit);
            }
            if exists|i: int, j: int|
                0 <= i < addresses@.len() && 0 <= j < addresses@[i]@.len() && #[trigger] addresses@[i]@[j] is P2pCircuit
                    && peer_of(addresses@[i]@) is Some && (start.active.dom().contains(peer_of(addresses@[i]@)->0)
                    || start.pending.dom().contains(peer_of(addresses@[i]@)->0)) {
                let (i, j) = choose|i: int, j: int|
                    0 <= i < addresses@.len() && 0 <= j < addresses@[i]@.len() && #[trigger] addresses@[i]@[j] is P2pCircuit
                        && peer_of(addresses@[i]@) is Some && (start.active.dom().contains(peer_of(addresses@[i]@)->0)
                        || start.pending.dom().contains(peer_of(addresses@[i]@)->0));
                assert(all[i][j] is P2pCircuit);
            }
            if lost {
                let i = choose|i: int|
                    0 <= i < all.len() && peer_of(#[trigger] all[i]) is Some && (start.active.dom().contains(
                        peer_of(all[i])->0,
                    ) || start.pending.dom().contains(peer_of(all[i])->0)) && exists|j: int|
                        0 <= j < all[i].len() && #[trigger] all[i][j] is P2pCircuit;
                let j = choose|j: int| 0 <= j < all[i].len() && #[trigger] all[i][j] is P2pCircuit;
                assert(addresses@[i]@[j] is P2pCircuit);
            }
        }
        Closed { lost, save }
    }

    /// Forgets what belonged to the old network, after it was rebuilt, and reads the configuration's
    /// state of authorization again.
    pub fn network_reloaded(&mut self, config: &ConfigHandle, cache: &mut AuthCache)
        ensures
            final(self).my_peer_id == old(self).my_peer_id,
            final(self).node_rtts == old(self).node_rtts,
            final(self).node_ping_failures == old(self).node_ping_failures,
            final(self).active_relays@ == Map::<Seq<char>, ()>::empty(),
            final(self).pending_relays@ == Map::<Seq<char>, u64>::empty(),
            final(self).relay_failures@ == Map::<Seq<char>, u32>::empty(),
            final(self).relay_backoff@ == Map::<Seq<char>, u64>::empty(),
            final(self).bootstrap_providers@ == Map::<Seq<char>, ()>::empty(),
            !final(self).is_bootstrap_provider,
            state_of(config.inner.auth.network@, configured_authority(config.inner), final(self).auth_state),
            final(cache).kept_index() is None,
            final(cache).kept_whitelists() == Map::<Seq<char>, crate::auth::CachedWhitelist>::empty(),
    {
        self.active_relays.clear();
        self.pending_relays.clear();
        self.relay_failures.clear();
        self.relay_backoff.clear();
        self.bootstrap_providers.clear();
        self.is_bootstrap_provider = false;
        self.auth_state = resolve_auth_state(config);
        cache.clear();
    }
}

/// Whatever happens to relays, no relay is both asked and accepted: failing, giving up, closing,
/// accepting, and asking one that was not passed over keep that.
pub proof fn relays_stay_disjoint(v: RelayView, peer: Seq<char>, peers: Seq<Seq<char>>, addrs: Seq<Seq<Part>>, now: u64, max: u32)
    requires
        disjoint_relays(v),
    ensures
        disjoint_relays(failed(v, peer, now, max)),
        disjoint_relays(all_given_up(v, peers, now, max)),
        disjoint_relays(closed(v, addrs, now, max).0),
        disjoint_relays(
            RelayView { active: v.active.insert(peer, ()), pending: v.pending.remove(peer), ..v },
        ),
        !v.active.dom().contains(peer) ==> disjoint_relays(
            RelayView { pending: v.pending.insert(peer, now), ..v },
        ),
    decreases peers.len() + addrs.len(),
{
    if peers.len() > 0 {
        relays_stay_disjoint(v, peer, peers.drop_last(), Seq::empty(), now, max);
    }
    if addrs.len() > 0 {
        relays_stay_disjoint(v, peer, Seq::empty(), addrs.drop_last(), now, max);
    }
}

/// A relay that has just failed is passed over until its wait is over; so it is not asked again in
/// the same round.
pub proof fn failed_relay_waits(v: RelayView, peer: Seq<char>, now: u64, max: u32)
    requires
        now < u64::MAX,
    ensures
        too_many(bumped(v.failures, peer), max) || (failed(v, peer, now, max).backoff.dom().contains(peer) && failed(
            v,
            peer,
            now,
            max,
        ).backoff[peer] > now),
{
}

/// A peer that was taken out is not tracked any more, and no bootstrap node names it.
pub proof fn evicted_peer_is_gone(v: RelayView, peer: Seq<char>)
    ensures
        !evicted(v, peer).active.dom().contains(peer),
        !evicted(v, peer).pending.dom().contains(peer),
        !evicted(v, peer).failures.dom().contains(peer),
        !evicted(v, peer).backoff.dom().contains(peer),
        forall|i: int|
            0 <= i < evicted(v, peer).nodes.len() ==> peer_of(#[trigger] evicted(v, peer).nodes[i]) != Some(peer),
{
    without_peer_is_exact(v.nodes, peer);
}

proof fn without_peer_is_exact(nodes: Seq<Seq<Part>>, peer: Seq<char>)
    ensures
        forall|i: int|
            0 <= i < without_peer(nodes, peer).len() ==> peer_of(#[trigger] without_peer(nodes, peer)[i]) != Some(peer),
    decreases nodes.len(),
{
    if nodes.len() > 0 {
        without_peer_is_exact(nodes.drop_last(), peer);
    }
}

/// The candidates are all different, and this node is not among them.
pub proof fn candidates_differ(nodes: Seq<Seq<Part>>, me: Seq<char>)
    ensures
        forall|i: int| 0 <= i < candidates_of(nodes, me).len() ==> (#[trigger] candidates_of(nodes, me)[i]).peer != me,
        forall|i: int, j: int|
            0 <= i < j < candidates_of(nodes, me).len() ==> (#[trigger] candidates_of(nodes, me)[i]).peer
                != (#[trigger] candidates_of(nodes, me)[j]).peer,
    decreases nodes.len(),
{
    if nodes.len() > 0 {
        candidates_differ(nodes.drop_last(), me);
        let before = candidates_of(nodes.drop_last(), me);
        let after = candidates_of(nodes, me);
        assert forall|i: int, j: int| 0 <= i < j < after.len() implies (#[trigger] after[i]).peer != (#[trigger] after[j]).peer by {
            if j < before.len() {
                assert(before[i].peer != before[j].peer);
            } else {
                assert(before[i] == after[i]);
            }
        }
    }
}

proof fn without_peer_is_filter(nodes: Seq<Seq<Part>>, peer: Seq<char>)
    ensures
        without_peer(nodes, peer) == nodes.filter(|a: Seq<Part>| peer_of(a) != Some(peer)),
    decreases nodes.len(),
{
    reveal(Seq::filter);
    if nodes.len() > 0 {
        without_peer_is_filter(nodes.drop_last(), peer);
    }
}

/// The wait after a first failure is half a minute; each further failure doubles it, until the double
/// would be more than ten minutes, and then it is ten minutes.
pub proof fn backoff_doubles_from_half_a_minute(count: nat)
    ensures
        backoff_secs(0) == 30,
        backoff_secs(1) == 30,
        count >= 1 ==> backoff_secs(count + 1) == (if 2 * backoff_secs(count) <= 600 {
            2 * backoff_secs(count)
        } else {
            600
        }),
{
}

/// A failure of a relay adds one to its failures in a row. Where there are not too many (`max` or more,
/// and never where `max` is 0) it is stayed away from, for the wait after so many failures from now on,
/// and all else stays. Where there are too many, it is forgotten, and exactly the bootstrap nodes that
/// name it are taken out. What is known of other relays stays as it is.
pub proof fn failure_is_counted(v: RelayView, peer: Seq<char>, now: u64, max: u32, q: Seq<char>)
    ensures
        ({
            let after = failed(v, peer, now, max);
            let count = if v.failures.dom().contains(peer) {
                if v.failures[peer] < u32::MAX {
                    v.failures[peer] + 1
                } else {
                    u32::MAX as int
                }
            } else {
                1
            };
            let out = max > 0 && count >= max;
            &&& bumped(v.failures, peer) == count
            &&& too_many(bumped(v.failures, peer), max) <==> out
            &&& !out ==> {
                &&& after.failures == v.failures.insert(peer, count as u32)
                &&& after.backoff.dom().contains(peer)
                &&& now + backoff_secs(count as nat) * 1_000_000_000 <= u64::MAX ==> after.backoff[peer] == now + backoff_secs(
                    count as nat,
                ) * 1_000_000_000
                &&& now + backoff_secs(count as nat) * 1_000_000_000 > u64::MAX ==> after.backoff[peer] == u64::MAX
                &&& after.active == v.active && after.pending == v.pending && after.nodes == v.nodes
            }
            &&& out ==> {
                &&& !after.active.dom().contains(peer) && !after.pending.dom().contains(peer)
                &&& !after.failures.dom().contains(peer) && !after.backoff.dom().contains(peer)
                &&& after.nodes == v.nodes.filter(|a: Seq<Part>| peer_of(a) != Some(peer))
            }
            &&& q != peer ==> {
                &&& after.active.dom().contains(q) == v.active.dom().contains(q)
                &&& after.pending.dom().contains(q) == v.pending.dom().contains(q)
                &&& after.failures.dom().contains(q) == v.failures.dom().contains(q)
                &&& after.backoff.dom().contains(q) == v.backoff.dom().contains(q)
                &&& v.pending.dom().contains(q) ==> after.pending[q] == v.pending[q]
                &&& v.failures.dom().contains(q) ==> after.failures[q] == v.failures[q]
                &&& v.backoff.dom().contains(q) ==> after.backoff[q] == v.backoff[q]
            }
        }),
{
    without_peer_is_filter(v.nodes, peer);
}

/// Whether a closed address leads over a relay to a peer.
pub open spec fn names_relay(addr: Seq<Part>, peer: Seq<char>) -> bool {
    peer_of(addr) == Some(peer) && exists|i: int| 0 <= i < addr.len() && #[trigger] addr[i] is P2pCircuit
}

/// One step of `closed_relay_is_lost`.
proof fn one_closed_loses(v: RelayView, addr: Seq<Part>, now: u64, max: u32, q: Seq<char>)
    ensures
        ({
            let (after, lost) = one_closed(v, addr, now, max);
            let known = v.active.dom().contains(q) || v.pending.dom().contains(q);
            &&& names_relay(addr, q) ==> !after.active.dom().contains(q) && !after.pending.dom().contains(q) && lost == known
            &&& !names_relay(addr, q) || !known ==> {
                &&& after.active.dom().contains(q) == v.active.dom().contains(q)
                &&& after.pending.dom().contains(q) == v.pending.dom().contains(q)
                &&& after.failures.dom().contains(q) == v.failures.dom().contains(q)
                &&& after.backoff.dom().contains(q) == v.backoff.dom().contains(q)
                &&& v.pending.dom().contains(q) ==> after.pending[q] == v.pending[q]
                &&& v.failures.dom().contains(q) ==> after.failures[q] == v.failures[q]
                &&& v.backoff.dom().contains(q) ==> after.backoff[q] == v.backoff[q]
            }
            &&& names_relay(addr, q) && known ==> {
                &&& too_many(bumped(v.failures, q), max) ==> !after.failures.dom().contains(q) && !after.backoff.dom().contains(q)
                &&& !too_many(bumped(v.failures, q), max) ==> after.failures.dom().contains(q) && after.failures[q] == bumped(
                    v.failures,
                    q,
                ) && after.backoff.dom().contains(q) && after.backoff[q] == backoff_end(now, bumped(v.failures, q))
            }
            &&& lost ==> exists|p: Seq<char>| #[trigger]
                names_relay(addr, p) && (v.active.dom().contains(p) || v.pending.dom().contains(p))
        }),
{
    if one_closed(v, addr, now, max).1 {
        assert(names_relay(addr, peer_of(addr)->0));
    }
}

proof fn closed_relay_is_lost_of(v: RelayView, addrs: Seq<Seq<Part>>, now: u64, max: u32, q: Seq<char>)
    ensures
        ({
            let (after, lost) = closed(v, addrs, now, max);
            let named = exists|i: int| 0 <= i < addrs.len() && names_relay(#[trigger] addrs[i], q);
            let known = v.active.dom().contains(q) || v.pending.dom().contains(q);
            &&& named ==> !after.active.dom().contains(q) && !after.pending.dom().contains(q)
            &&& named && known ==> {
                &&& lost
                &&& too_many(bumped(v.failures, q), max) ==> !after.failures.dom().contains(q) && !after.backoff.dom().contains(q)
                &&& !too_many(bumped(v.failures, q), max) ==> after.failures.dom().contains(q) && after.failures[q] == bumped(
                    v.failures,
                    q,
                ) && after.backoff.dom().contains(q) && after.backoff[q] == backoff_end(now, bumped(v.failures, q))
            }
            &&& !named || !known ==> {
                &&& after.active.dom().contains(q) == v.active.dom().contains(q)
                &&& after.pending.dom().contains(q) == v.pending.dom().contains(q)
                &&& after.failures.dom().contains(q) == v.failures.dom().contains(q)
                &&& after.backoff.dom().contains(q) == v.backoff.dom().contains(q)
                &&& v.pending.dom().contains(q) ==> after.pending[q] == v.pending[q]
                &&& v.failures.dom().contains(q) ==> after.failures[q] == v.failures[q]
                &&& v.backoff.dom().contains(q) ==> after.backoff[q] == v.backoff[q]
            }
        }),
        closed(v, addrs, now, max).1 <==> exists|i: int, p: Seq<char>|
            0 <= i < addrs.len() && #[trigger] names_relay(addrs[i], p) && (v.active.dom().contains(p) || v.pending.dom().contains(
                p,
            )),
    decreases addrs.len(),
{
    if addrs.len() > 0 {
        let rest = addrs.drop_last();
        let last = addrs.len() - 1;
        assert(addrs[last] == addrs.last());
        assert forall|i: int| 0 <= i < rest.len() implies #[trigger] rest[i] == addrs[i] by {}
        closed_relay_is_lost_of(v, rest, now, max, q);
        let (mid, lost) = closed(v, rest, now, max);
        one_closed_loses(mid, addrs.last(), now, max, q);
        let named_before = exists|i: int| 0 <= i < rest.len() && names_relay(#[trigger] rest[i], q);
        let named = exists|i: int| 0 <= i < addrs.len() && names_relay(#[trigger] addrs[i], q);
        if named_before {
            let i = choose|i: int| 0 <= i < rest.len() && names_relay(#[trigger] rest[i], q);
            assert(names_relay(addrs[i], q));
        }
        if named && !named_before {
            let i = choose|i: int| 0 <= i < addrs.len() && names_relay(#[trigger] addrs[i], q);
            if i < last {
                assert(names_relay(rest[i], q));
            }
        }
        let (after, more) = one_closed(mid, addrs.last(), now, max);
        if more {
            let p = choose|p: Seq<char>| #[trigger]
                names_relay(addrs.last(), p) && (mid.active.dom().contains(p) || mid.pending.dom().contains(p));
            closed_relay_is_lost_of(v, rest, now, max, p);
            assert(names_relay(addrs[last], p));
        }
        if lost {
            let (i, p) = choose|i: int, p: Seq<char>|
                0 <= i < rest.len() && #[trigger] names_relay(rest[i], p) && (v.active.dom().contains(p)
                    || v.pending.dom().contains(p));
            assert(names_relay(addrs[i], p));
        }
        if exists|i: int, p: Seq<char>|
            0 <= i < addrs.len() && #[trigger] names_relay(addrs[i], p) && (v.active.dom().contains(p)
                || v.pending.dom().contains(p)) {
            let (i, p) = choose|i: int, p: Seq<char>|
                0 <= i < addrs.len() && #[trigger] names_relay(addrs[i], p) && (v.active.dom().contains(p)
                    || v.pending.dom().contains(p));
            if i < last {
                assert(names_relay(rest[i], p));
            } else {
                closed_relay_is_lost_of(v, rest, now, max, p);
                one_closed_loses(mid, addrs.last(), now, max, p);
                if exists|k: int| 0 <= k < rest.len() && names_relay(#[trigger] rest[k], p) {
                    let k = choose|k: int| 0 <= k < rest.len() && names_relay(#[trigger] rest[k], p);
                    assert(names_relay(rest[k], p));
                }
            }
        }
    }
}


proof fn closed_nodes(v: RelayView, addrs: Seq<Seq<Part>>, now: u64, max: u32)
    ensures
        closed(v, addrs, now, max).0.nodes == v.nodes.filter(
            |a: Seq<Part>| !(peer_of(a) is Some && taken_out(v, addrs, max, peer_of(a)->0)),
        ),
        closing_takes_out(v, addrs, now, max) <==> exists|p: Seq<char>| taken_out(v, addrs, max, p),
    decreases addrs.len(),
{
    let keep = |a: Seq<Part>| !(peer_of(a) is Some && taken_out(v, addrs, max, peer_of(a)->0));
    if addrs.len() == 0 {
        kept_alike(v.nodes, keep, |a: Seq<Part>| true);
        all_kept(v.nodes);
    } else {
        let rest = addrs.drop_last();
        let last = addrs.len() - 1;
        assert(addrs[last] == addrs.last());
        assert forall|i: int| 0 <= i < rest.len() implies #[trigger] rest[i] == addrs[i] by {}
        closed_nodes(v, rest, now, max);
        let mid = closed(v, rest, now, max).0;
        let before = |a: Seq<Part>| !(peer_of(a) is Some && taken_out(v, rest, max, peer_of(a)->0));
        assert forall|p: Seq<char>| taken_out(v, addrs, max, p) <==> taken_out(v, rest, max, p) || (closing_one_takes_out(
            mid,
            addrs.last(),
            max,
        ) && peer_of(addrs.last()) == Some(p)) by {
            closed_relay_is_lost_of(v, rest, now, max, p);
            one_closed_loses(mid, addrs.last(), now, max, p);
            if taken_out(v, rest, max, p) {
                let i = choose|i: int| 0 <= i < rest.len() && names_relay(#[trigger] rest[i], p);
                assert(names_relay(addrs[i], p));
            }
            if exists|i: int| 0 <= i < addrs.len() && names_relay(#[trigger] addrs[i], p) {
                let i = choose|i: int| 0 <= i < addrs.len() && names_relay(#[trigger] addrs[i], p);
                if i < last {
                    assert(names_relay(rest[i], p));
                }
            }
            if closing_one_takes_out(mid, addrs.last(), max) && peer_of(addrs.last()) == Some(p) {
                assert(names_relay(addrs[last], p));
            }
        }
        if closing_one_takes_out(mid, addrs.last(), max) {
            let p = peer_of(addrs.last())->0;
            assert(taken_out(v, addrs, max, p));
            let other = |a: Seq<Part>| peer_of(a) != Some(p);
            without_peer_is_filter(mid.nodes, p);
            kept_twice(v.nodes, before, other);
            kept_alike(v.nodes, |a: Seq<Part>| before(a) && other(a), keep);
        } else {
            kept_alike(v.nodes, before, keep);
        }
        if closing_takes_out(v, rest, now, max) {
            let p = choose|p: Seq<char>| taken_out(v, rest, max, p);
            assert(taken_out(v, addrs, max, p));
        }
    }
}

/// Whether the relay at a peer is lost once too often when a listener on some addresses closes.
pub open spec fn taken_out(v: RelayView, addrs: Seq<Seq<Part>>, max: u32, p: Seq<char>) -> bool {
    (exists|i: int| 0 <= i < addrs.len() && names_relay(#[trigger] addrs[i], p)) && (v.active.dom().contains(p)
        || v.pending.dom().contains(p)) && too_many(bumped(v.failures, p), max)
}

proof fn all_kept<A>(s: Seq<A>)
    ensures
        s.filter(|a: A| true) == s,
    decreases s.len(),
{
    reveal(Seq::filter);
    if s.len() > 0 {
        all_kept(s.drop_last());
        assert(s.drop_last().push(s.last()) =~= s);
    }
}

/// A listener has closed. After that, no relay that one of its relayed addresses names is asked for or
/// accepted any more. A relay was lost exactly when one of the addresses named one that was asked for or
/// accepted; each such relay has failed once more (it is stayed away from, or forgotten when the
/// failures are too many, when the bootstrap nodes that name it are taken out and the configuration is
/// to be saved). What is known of all other relays stays as it is.
pub proof fn closed_relay_is_lost(v: RelayView, addrs: Seq<Seq<Part>>, now: u64, max: u32, q: Seq<char>)
    ensures
        ({
            let (after, lost) = closed(v, addrs, now, max);
            let named = exists|i: int|
                0 <= i < addrs.len() && peer_of(#[trigger] addrs[i]) == Some(q) && exists|j: int|
                    0 <= j < addrs[i].len() && #[trigger] addrs[i][j] is P2pCircuit;
            let known = v.active.dom().contains(q) || v.pending.dom().contains(q);
            let count = if !v.failures.dom().contains(q) {
                1
            } else if v.failures[q] < u32::MAX {
                v.failures[q] + 1
            } else {
                u32::MAX as int
            };
            let out = max > 0 && count >= max;
            &&& named ==> !after.active.dom().contains(q) && !after.pending.dom().contains(q)
            &&& named && known ==> lost
            &&& named && known && out ==> {
                &&& !after.failures.dom().contains(q) && !after.backoff.dom().contains(q)
                &&& closing_takes_out(v, addrs, now, max)
                &&& forall|k: int| 0 <= k < after.nodes.len() ==> peer_of(#[trigger] after.nodes[k]) != Some(q)
            }
            &&& named && known && !out ==> {
                &&& after.failures.dom().contains(q) && after.failures[q] == count
                &&& after.backoff.dom().contains(q)
                &&& after.backoff[q] > now || now == u64::MAX
            }
            &&& !(named && known && out) ==> forall|k: int|
                0 <= k < v.nodes.len() && peer_of(#[trigger] v.nodes[k]) == Some(q) ==> after.nodes.contains(v.nodes[k])
            &&& forall|k: int|
                0 <= k < v.nodes.len() && peer_of(#[trigger] v.nodes[k]) is None ==> after.nodes.contains(v.nodes[k])
            &&& !named || !known ==> {
                &&& after.active.dom().contains(q) == v.active.dom().contains(q)
                &&& after.pending.dom().contains(q) == v.pending.dom().contains(q)
                &&& after.failures.dom().contains(q) == v.failures.dom().contains(q)
                &&& after.backoff.dom().contains(q) == v.backoff.dom().contains(q)
                &&& v.pending.dom().contains(q) ==> after.pending[q] == v.pending[q]
                &&& v.failures.dom().contains(q) ==> after.failures[q] == v.failures[q]
                &&& v.backoff.dom().contains(q) ==> after.backoff[q] == v.backoff[q]
            }
        }),
        closed(v, addrs, now, max).1 <==> exists|i: int|
            0 <= i < addrs.len() && peer_of(#[trigger] addrs[i]) is Some && (v.active.dom().contains(peer_of(addrs[i])->0)
                || v.pending.dom().contains(peer_of(addrs[i])->0)) && exists|j: int|
                0 <= j < addrs[i].len() && #[trigger] addrs[i][j] is P2pCircuit,
{
    closed_relay_is_lost_of(v, addrs, now, max, q);
    closed_nodes(v, addrs, now, max);
    let keep = |a: Seq<Part>| !(peer_of(a) is Some && taken_out(v, addrs, max, peer_of(a)->0));
    kept_exactly(v.nodes, keep);
    assert forall|i: int| 0 <= i < addrs.len() implies (names_relay(#[trigger] addrs[i], q) <==> peer_of(addrs[i]) == Some(q)
        && exists|j: int| 0 <= j < addrs[i].len() && #[trigger] addrs[i][j] is P2pCircuit) by {}
    let (after, lost) = closed(v, addrs, now, max);
    assert forall|k: int| 0 <= k < v.nodes.len() && keep(#[trigger] v.nodes[k]) implies after.nodes.contains(v.nodes[k]) by {}
    assert forall|k: int| 0 <= k < after.nodes.len() implies keep(#[trigger] after.nodes[k]) by {}
    closed_is_lost(v, addrs, now, max);
    assert(taken_out(v, addrs, max, q) ==> closing_takes_out(v, addrs, now, max));
}

proof fn closed_is_lost(v: RelayView, addrs: Seq<Seq<Part>>, now: u64, max: u32)
    ensures
        closed(v, addrs, now, max).1 <==> exists|i: int|
            0 <= i < addrs.len() && peer_of(#[trigger] addrs[i]) is Some && (v.active.dom().contains(peer_of(addrs[i])->0)
                || v.pending.dom().contains(peer_of(addrs[i])->0)) && exists|j: int|
                0 <= j < addrs[i].len() && #[trigger] addrs[i][j] is P2pCircuit,
{
    closed_relay_is_lost_of(v, addrs, now, max, Seq::empty());
    let lost = closed(v, addrs, now, max).1;
    if lost {
        let (i, p) = choose|i: int, p: Seq<char>|
            0 <= i < addrs.len() && #[trigger] names_relay(addrs[i], p) && (v.active.dom().contains(p)
                || v.pending.dom().contains(p));
        assert(peer_of(addrs[i]) == Some(p));
    }
    if exists|i: int|
        0 <= i < addrs.len() && peer_of(#[trigger] addrs[i]) is Some && (v.active.dom().contains(peer_of(addrs[i])->0)
            || v.pending.dom().contains(peer_of(addrs[i])->0)) && exists|j: int|
            0 <= j < addrs[i].len() && #[trigger] addrs[i][j] is P2pCircuit {
        let i = choose|i: int|
            0 <= i < addrs.len() && peer_of(#[trigger] addrs[i]) is Some && (v.active.dom().contains(peer_of(addrs[i])->0)
                || v.pending.dom().contains(peer_of(addrs[i])->0)) && exists|j: int|
                0 <= j < addrs[i].len() && #[trigger] addrs[i][j] is P2pCircuit;
        assert(names_relay(addrs[i], peer_of(addrs[i])->0));
    }
}

/// What happens to relays changes nothing else of the node, and of the configuration only the bootstrap
/// nodes; and what is known of relays is what the node and the configuration hold.
pub proof fn only_relays_change(a: NodeController, b: NodeController, x: NodeConfig, y: NodeConfig)
    ensures
        same_but_relays(a, b) ==> a.my_peer_id == b.my_peer_id && a.node_rtts == b.node_rtts && a.node_ping_failures
            == b.node_ping_failures && a.bootstrap_providers == b.bootstrap_providers && a.is_bootstrap_provider
            == b.is_bootstrap_provider && a.auth_state == b.auth_state,
        same_but_nodes(x, y) ==> x == (NodeConfig { services: x.services, ..y }) && x.services == (ServicesConfig {
            kademlia: x.services.kademlia,
            ..y.services
        }) && x.services.kademlia == (KademliaService {
            bootstrap_nodes: x.services.kademlia.bootstrap_nodes,
            ..y.services.kademlia
        }),
        relay_view(a, x).active == a.active_relays@,
        relay_view(a, x).pending == a.pending_relays@,
        relay_view(a, x).failures == a.relay_failures@,
        relay_view(a, x).backoff == a.relay_backoff@,
        relay_view(a, x).nodes.len() == x.services.kademlia.bootstrap_nodes@.len(),
        forall|i: int|
            0 <= i < x.services.kademlia.bootstrap_nodes@.len() ==> relay_view(a, x).nodes[i] == (
            #[trigger] x.services.kademlia.bootstrap_nodes@[i])@,
{
}

/// A relay that was asked is given up after three checks and at least three minutes, and not before.
pub proof fn patience_is_three_checks(since: u64, now: u64, retry_interval_secs: u32)
    ensures
        overdue(since, now, retry_interval_secs) <==> now >= since + retry_interval_secs * 3 * 1_000_000_000 && now >= since
            + 180 * 1_000_000_000,
{
}

proof fn overdue_is_filter(order: Seq<Seq<char>>, pending: Map<Seq<char>, u64>, now: u64, retry: u32)
    ensures
        overdue_peers(order, pending, now, retry) == order.filter(|p: Seq<char>| overdue(pending[p], now, retry)),
    decreases order.len(),
{
    reveal(Seq::filter);
    if order.len() > 0 {
        overdue_is_filter(order.drop_last(), pending, now, retry);
    }
}

proof fn given_up_one(v: RelayView, peer: Seq<char>, now: u64, max: u32, q: Seq<char>)
    ensures
        ({
            let after = given_up(v, peer, now, max);
            &&& q == peer ==> !after.pending.dom().contains(q)
            &&& q == peer && too_many(bumped(v.failures, q), max) ==> !after.failures.dom().contains(q)
                && !after.backoff.dom().contains(q)
            &&& q == peer && !too_many(bumped(v.failures, q), max) ==> after.failures.dom().contains(q) && after.failures[q]
                == bumped(v.failures, q) && after.backoff.dom().contains(q) && after.backoff[q] == backoff_end(
                now,
                bumped(v.failures, q),
            )
            &&& q != peer ==> {
                &&& after.active.dom().contains(q) == v.active.dom().contains(q)
                &&& after.pending.dom().contains(q) == v.pending.dom().contains(q)
                &&& after.failures.dom().contains(q) == v.failures.dom().contains(q)
                &&& after.backoff.dom().contains(q) == v.backoff.dom().contains(q)
                &&& v.pending.dom().contains(q) ==> after.pending[q] == v.pending[q]
                &&& v.failures.dom().contains(q) ==> after.failures[q] == v.failures[q]
                &&& v.backoff.dom().contains(q) ==> after.backoff[q] == v.backoff[q]
            }
        }),
{
}

/// The relays that were asked for too long are given up: exactly those that have waited for three checks
/// and three minutes are asked for no more, and each has failed once more. The others still are, and
/// nothing of them changes.
pub proof fn late_relays_are_given_up(v: RelayView, order: Seq<Seq<char>>, now: u64, retry: u32, max: u32, q: Seq<char>)
    requires
        order.no_duplicates(),
        forall|p: Seq<char>| order.contains(p) <==> #[trigger] v.pending.dom().contains(p),
    ensures
        ({
            let after = all_given_up(v, overdue_peers(order, v.pending, now, retry), now, max);
            let late = v.pending.dom().contains(q) && now >= v.pending[q] + retry * 3 * 1_000_000_000 && now >= v.pending[q] + 180
                * 1_000_000_000;
            &&& after.pending.dom().contains(q) <==> v.pending.dom().contains(q) && !late
            &&& late && too_many(bumped(v.failures, q), max) ==> !after.failures.dom().contains(q)
                && !after.backoff.dom().contains(q)
            &&& late && !too_many(bumped(v.failures, q), max) ==> after.failures.dom().contains(q) && after.failures[q]
                == bumped(v.failures, q) && after.backoff.dom().contains(q) && after.backoff[q] == backoff_end(
                now,
                bumped(v.failures, q),
            )
            &&& !late ==> {
                &&& after.active.dom().contains(q) == v.active.dom().contains(q)
                &&& after.failures.dom().contains(q) == v.failures.dom().contains(q)
                &&& after.backoff.dom().contains(q) == v.backoff.dom().contains(q)
                &&& v.pending.dom().contains(q) ==> after.pending[q] == v.pending[q]
                &&& v.failures.dom().contains(q) ==> after.failures[q] == v.failures[q]
                &&& v.backoff.dom().contains(q) ==> after.backoff[q] == v.backoff[q]
            }
        }),
{
    let keep = |p: Seq<char>| overdue(v.pending[p], now, retry);
    overdue_is_filter(order, v.pending, now, retry);
    kept_exactly(order, keep);
    kept_differ(order, keep);
    let late = order.filter(keep);
    all_given_up_of(v, late, now, max, q);
    if order.contains(q) && keep(q) {
        let k = choose|k: int| 0 <= k < order.len() && order[k] == q;
        assert(late.contains(order[k]));
    }
    if late.contains(q) {
        let k = choose|k: int| 0 <= k < late.len() && late[k] == q;
        assert(keep(late[k]) && order.contains(late[k]));
    }
}

proof fn all_given_up_of(v: RelayView, peers: Seq<Seq<char>>, now: u64, max: u32, q: Seq<char>)
    requires
        peers.no_duplicates(),
    ensures
        ({
            let after = all_given_up(v, peers, now, max);
            &&& peers.contains(q) ==> !after.pending.dom().contains(q)
            &&& peers.contains(q) && too_many(bumped(v.failures, q), max) ==> !after.failures.dom().contains(q)
                && !after.backoff.dom().contains(q)
            &&& peers.contains(q) && !too_many(bumped(v.failures, q), max) ==> after.failures.dom().contains(q)
                && after.failures[q] == bumped(v.failures, q) && after.backoff.dom().contains(q) && after.backoff[q]
                == backoff_end(now, bumped(v.failures, q))
            &&& !peers.contains(q) ==> {
                &&& after.active.dom().contains(q) == v.active.dom().contains(q)
                &&& after.pending.dom().contains(q) == v.pending.dom().contains(q)
                &&& after.failures.dom().contains(q) == v.failures.dom().contains(q)
                &&& after.backoff.dom().contains(q) == v.backoff.dom().contains(q)
                &&& v.pending.dom().contains(q) ==> after.pending[q] == v.pending[q]
                &&& v.failures.dom().contains(q) ==> after.failures[q] == v.failures[q]
                &&& v.backoff.dom().contains(q) ==> after.backoff[q] == v.backoff[q]
            }
        }),
    decreases peers.len(),
{
    if peers.len() > 0 {
        let rest = peers.drop_last();
        assert forall|i: int| 0 <= i < rest.len() implies #[trigger] rest[i] == peers[i] by {}
        assert(rest.no_duplicates());
        all_given_up_of(v, rest, now, max, q);
        given_up_one(all_given_up(v, rest, now, max), peers.last(), now, max, q);
        if q == peers.last() {
            if rest.contains(q) {
                let k = choose|k: int| 0 <= k < rest.len() && rest[k] == q;
                assert(peers[k] != peers[peers.len() - 1]);
            }
            assert(peers[peers.len() - 1] == q);
        } else {
            if peers.contains(q) {
                let k = choose|k: int| 0 <= k < peers.len() && peers[k] == q;
                assert(rest[k] == q);
            }
            if rest.contains(q) {
                let k = choose|k: int| 0 <= k < rest.len() && rest[k] == q;
                assert(peers[k] == q);
            }
        }
    }
}

/// Every peer that a bootstrap node names, but this node, is a candidate, with the first address that
/// names it; and there are no other candidates.
pub proof fn candidates_are_the_named_peers(nodes: Seq<Seq<Part>>, me: Seq<char>)
    ensures
        forall|p: Seq<char>| #[trigger] is_candidate(candidates_of(nodes, me), p) <==> p != me && exists|i: int|
            0 <= i < nodes.len() && peer_of(#[trigger] nodes[i]) == Some(p),
        forall|k: int|
            0 <= k < candidates_of(nodes, me).len() ==> exists|i: int|
                0 <= i < nodes.len() && #[trigger] nodes[i] == (#[trigger] candidates_of(nodes, me)[k]).addr && peer_of(nodes[i])
                    == Some(candidates_of(nodes, me)[k].peer) && forall|j: int|
                    0 <= j < i ==> peer_of(#[trigger] nodes[j]) != Some(candidates_of(nodes, me)[k].peer),
    decreases nodes.len(),
{
    if nodes.len() > 0 {
        let rest = nodes.drop_last();
        candidates_are_the_named_peers(rest, me);
        let a = candidates_of(rest, me);
        let b = candidates_of(nodes, me);
        let last = nodes.len() - 1;
        assert(nodes[last] == nodes.last());
        assert forall|i: int| 0 <= i < rest.len() implies #[trigger] rest[i] == nodes[i] by {}
        assert forall|k: int| 0 <= k < a.len() implies #[trigger] b[k] == a[k] by {}
        assert forall|p: Seq<char>| #[trigger] is_candidate(b, p) <==> p != me && exists|i: int|
            0 <= i < nodes.len() && peer_of(#[trigger] nodes[i]) == Some(p) by {
            if is_candidate(a, p) {
                let k = choose|k: int| 0 <= k < a.len() && (#[trigger] a[k]).peer == p;
                assert(b[k].peer == p);
                let i = choose|i: int| 0 <= i < rest.len() && peer_of(#[trigger] rest[i]) == Some(p);
                assert(peer_of(nodes[i]) == Some(p));
            }
            if is_candidate(b, p) && !is_candidate(a, p) {
                let k = choose|k: int| 0 <= k < b.len() && (#[trigger] b[k]).peer == p;
                if k < a.len() {
                    assert(a[k].peer == p);
                }
                assert(peer_of(nodes[last]) == Some(p));
            }
            if p != me && exists|i: int| 0 <= i < nodes.len() && peer_of(#[trigger] nodes[i]) == Some(p) {
                let i = choose|i: int| 0 <= i < nodes.len() && peer_of(#[trigger] nodes[i]) == Some(p);
                if i < last {
                    assert(peer_of(rest[i]) == Some(p));
                } else if !is_candidate(a, p) {
                    assert(b[b.len() - 1].peer == p);
                }
            }
        }
        assert forall|k: int| 0 <= k < b.len() implies exists|i: int|
            0 <= i < nodes.len() && #[trigger] nodes[i] == (#[trigger] b[k]).addr && peer_of(nodes[i]) == Some(b[k].peer)
                && forall|j: int| 0 <= j < i ==> peer_of(#[trigger] nodes[j]) != Some(b[k].peer) by {
            if k < a.len() {
                assert(b[k] == a[k]);
                let i = choose|i: int|
                    0 <= i < rest.len() && #[trigger] rest[i] == a[k].addr && peer_of(rest[i]) == Some(a[k].peer) && forall|
                        j: int,
                    |
                        0 <= j < i ==> peer_of(#[trigger] rest[j]) != Some(a[k].peer);
                assert(nodes[i] == b[k].addr);
                assert forall|j: int| 0 <= j < i implies peer_of(#[trigger] nodes[j]) != Some(b[k].peer) by {
                    assert(peer_of(rest[j]) != Some(a[k].peer));
                }
            } else {
                let p = b[k].peer;
                assert(!is_candidate(a, p));
                assert forall|j: int| 0 <= j < last implies peer_of(#[trigger] nodes[j]) != Some(p) by {
                    assert(rest[j] == nodes[j]);
                    if peer_of(rest[j]) == Some(p) {
                        assert(is_candidate(a, p));
                    }
                }
                assert(nodes[last] == b[k].addr);
            }
        }
    }
}

/// A relay is asked exactly when it has neither accepted nor was asked, and its wait is over; the node
/// needs relays exactly when it lacks an IP family, and wants three.
pub proof fn relay_is_asked_when_free(c: NodeController, config: NodeConfig, peer: Seq<char>, now: u64)
    ensures
        !passed_over(c, peer, now) <==> !c.active_relays@.dom().contains(peer) && !c.pending_relays@.dom().contains(peer) && (
        c.relay_backoff@.dom().contains(peer) ==> c.relay_backoff@[peer] <= now),
        needs_relay(config) <==> !config.network.ipv4_enabled || !config.network.ipv6_enabled,
        RELAY_TARGET == 3,
        relay_count(c) == c.active_relays.order().len() + c.pending_relays.order().len(),
{
}

/// When a listener has closed, the configuration is to be saved exactly when one of its relayed
/// addresses names a known relay whose failures are now too many; and the bootstrap nodes that are left
/// are, in order, those that name no such relay.
pub proof fn closing_saves_when_a_node_goes(v: RelayView, addrs: Seq<Seq<Part>>, now: u64, max: u32)
    ensures
        closing_takes_out(v, addrs, now, max) <==> exists|i: int, j: int|
            0 <= i < addrs.len() && 0 <= j < addrs[i].len() && #[trigger] addrs[i][j] is P2pCircuit && peer_of(addrs[i]) is Some
                && (v.active.dom().contains(peer_of(addrs[i])->0) || v.pending.dom().contains(peer_of(addrs[i])->0))
                && max > 0 && bumped(v.failures, peer_of(addrs[i])->0) >= max,
        !closing_takes_out(v, addrs, now, max) ==> closed(v, addrs, now, max).0.nodes == v.nodes,
        closed(v, addrs, now, max).0.nodes == v.nodes.filter(
            |a: Seq<Part>|
                !(peer_of(a) is Some && (v.active.dom().contains(peer_of(a)->0) || v.pending.dom().contains(peer_of(a)->0))
                    && max > 0 && bumped(v.failures, peer_of(a)->0) >= max && exists|i: int, j: int|
                    0 <= i < addrs.len() && 0 <= j < addrs[i].len() && #[trigger] addrs[i][j] is P2pCircuit && peer_of(
                        addrs[i],
                    ) == peer_of(a)),
        ),
{
    closed_nodes(v, addrs, now, max);
    let keep = |a: Seq<Part>| !(peer_of(a) is Some && taken_out(v, addrs, max, peer_of(a)->0));
    let plain = |a: Seq<Part>|
        !(peer_of(a) is Some && (v.active.dom().contains(peer_of(a)->0) || v.pending.dom().contains(peer_of(a)->0)) && max > 0
            && bumped(v.failures, peer_of(a)->0) >= max && exists|i: int, j: int|
            0 <= i < addrs.len() && 0 <= j < addrs[i].len() && #[trigger] addrs[i][j] is P2pCircuit && peer_of(addrs[i])
                == peer_of(a));
    assert forall|a: Seq<Part>| keep(a) == #[trigger] plain(a) by {
        if peer_of(a) is Some {
            let p = peer_of(a)->0;
            if exists|i: int| 0 <= i < addrs.len() && names_relay(#[trigger] addrs[i], p) {
                let i = choose|i: int| 0 <= i < addrs.len() && names_relay(#[trigger] addrs[i], p);
                let j = choose|j: int| 0 <= j < addrs[i].len() && #[trigger] addrs[i][j] is P2pCircuit;
                assert(addrs[i][j] is P2pCircuit && peer_of(addrs[i]) == peer_of(a));
            }
            if exists|i: int, j: int|
                0 <= i < addrs.len() && 0 <= j < addrs[i].len() && #[trigger] addrs[i][j] is P2pCircuit && peer_of(addrs[i])
                    == peer_of(a) {
                let (i, j) = choose|i: int, j: int|
                    0 <= i < addrs.len() && 0 <= j < addrs[i].len() && #[trigger] addrs[i][j] is P2pCircuit && peer_of(
                        addrs[i],
                    ) == peer_of(a);
                assert(names_relay(addrs[i], p));
            }
        }
    }
    kept_alike(v.nodes, keep, plain);
    if closing_takes_out(v, addrs, now, max) {
        let p = choose|p: Seq<char>| taken_out(v, addrs, max, p);
        let i = choose|i: int| 0 <= i < addrs.len() && names_relay(#[trigger] addrs[i], p);
        let j = choose|j: int| 0 <= j < addrs[i].len() && #[trigger] addrs[i][j] is P2pCircuit;
        assert(addrs[i][j] is P2pCircuit);
    } else {
        kept_alike(v.nodes, keep, |a: Seq<Part>| true);
        all_kept(v.nodes);
    }
    if exists|i: int, j: int|
        0 <= i < addrs.len() && 0 <= j < addrs[i].len() && #[trigger] addrs[i][j] is P2pCircuit && peer_of(addrs[i]) is Some && (
        v.active.dom().contains(peer_of(addrs[i])->0) || v.pending.dom().contains(peer_of(addrs[i])->0)) && max > 0 && bumped(
            v.failures,
            peer_of(addrs[i])->0,
        ) >= max {
        let (i, j) = choose|i: int, j: int|
            0 <= i < addrs.len() && 0 <= j < addrs[i].len() && #[trigger] addrs[i][j] is P2pCircuit && peer_of(addrs[i]) is Some
                && (v.active.dom().contains(peer_of(addrs[i])->0) || v.pending.dom().contains(peer_of(addrs[i])->0))
                && max > 0 && bumped(v.failures, peer_of(addrs[i])->0) >= max;
        assert(names_relay(addrs[i], peer_of(addrs[i])->0));
        assert(taken_out(v, addrs, max, peer_of(addrs[i])->0));
    }
}

proof fn given_up_nodes(v: RelayView, peers: Seq<Seq<char>>, now: u64, max: u32)
    requires
        peers.no_duplicates(),
    ensures
        giving_up_takes_out(v, peers, now, max) <==> exists|i: int|
            0 <= i < peers.len() && max > 0 && bumped(v.failures, #[trigger] peers[i]) >= max,
        all_given_up(v, peers, now, max).nodes == v.nodes.filter(
            |a: Seq<Part>|
                !(peer_of(a) is Some && max > 0 && bumped(v.failures, peer_of(a)->0) >= max && peers.contains(peer_of(a)->0)),
        ),
    decreases peers.len(),
{
    let keep = |a: Seq<Part>|
        !(peer_of(a) is Some && max > 0 && bumped(v.failures, peer_of(a)->0) >= max && peers.contains(peer_of(a)->0));
    if peers.len() == 0 {
        kept_alike(v.nodes, keep, |a: Seq<Part>| true);
        all_kept(v.nodes);
    } else {
        let rest = peers.drop_last();
        let last = peers.len() - 1;
        let p = peers.last();
        assert(peers[last] == p);
        assert forall|i: int| 0 <= i < rest.len() implies #[trigger] rest[i] == peers[i] by {}
        given_up_nodes(v, rest, now, max);
        all_given_up_of(v, rest, now, max, p);
        let mid = all_given_up(v, rest, now, max);
        if rest.contains(p) {
            let k = choose|k: int| 0 <= k < rest.len() && rest[k] == p;
            assert(peers[k] != peers[last]);
        }
        assert(bumped(mid.failures, p) == bumped(v.failures, p));
        let before = |a: Seq<Part>|
            !(peer_of(a) is Some && max > 0 && bumped(v.failures, peer_of(a)->0) >= max && rest.contains(peer_of(a)->0));
        assert forall|q: Seq<char>| #[trigger] peers.contains(q) <==> rest.contains(q) || q == p by {
            if peers.contains(q) {
                let k = choose|k: int| 0 <= k < peers.len() && peers[k] == q;
                if k < last {
                    assert(rest[k] == q);
                }
            }
            if rest.contains(q) {
                let k = choose|k: int| 0 <= k < rest.len() && rest[k] == q;
                assert(peers[k] == q);
            }
        }
        if too_many(bumped(v.failures, p), max) {
            let other = |a: Seq<Part>| peer_of(a) != Some(p);
            without_peer_is_filter(mid.nodes, p);
            kept_twice(v.nodes, before, other);
            kept_alike(v.nodes, |a: Seq<Part>| before(a) && other(a), keep);
        } else {
            kept_alike(v.nodes, before, keep);
        }
        if giving_up_takes_out(v, rest, now, max) {
            let i = choose|i: int| 0 <= i < rest.len() && max > 0 && bumped(v.failures, #[trigger] rest[i]) >= max;
            assert(bumped(v.failures, peers[i]) >= max);
        }
        if exists|i: int| 0 <= i < peers.len() && max > 0 && bumped(v.failures, #[trigger] peers[i]) >= max {
            let i = choose|i: int| 0 <= i < peers.len() && max > 0 && bumped(v.failures, #[trigger] peers[i]) >= max;
            if i < last {
                assert(bumped(v.failures, rest[i]) >= max);
            }
        }
    }
}

/// When relays are given up, the configuration is to be saved exactly when one of them has now failed
/// too often; and the bootstrap nodes that are left are, in order, those that name no such relay.
pub proof fn giving_up_saves_when_a_node_goes(v: RelayView, order: Seq<Seq<char>>, now: u64, retry: u32, max: u32)
    requires
        order.no_duplicates(),
        forall|p: Seq<char>| order.contains(p) <==> #[trigger] v.pending.dom().contains(p),
    ensures
        giving_up_takes_out(v, overdue_peers(order, v.pending, now, retry), now, max) <==> exists|p: Seq<char>| #[trigger]
            v.pending.dom().contains(p) && now >= v.pending[p] + retry * 3 * 1_000_000_000 && now >= v.pending[p] + 180
                * 1_000_000_000 && max > 0 && bumped(v.failures, p) >= max,
        all_given_up(v, overdue_peers(order, v.pending, now, retry), now, max).nodes == v.nodes.filter(
            |a: Seq<Part>|
                !(peer_of(a) is Some && v.pending.dom().contains(peer_of(a)->0) && now >= v.pending[peer_of(a)->0] + retry * 3
                    * 1_000_000_000 && now >= v.pending[peer_of(a)->0] + 180 * 1_000_000_000 && max > 0 && bumped(
                    v.failures,
                    peer_of(a)->0,
                ) >= max),
        ),
{
    let late = |p: Seq<char>| overdue(v.pending[p], now, retry);
    overdue_is_filter(order, v.pending, now, retry);
    kept_exactly(order, late);
    kept_differ(order, late);
    let peers = order.filter(late);
    given_up_nodes(v, peers, now, max);
    assert forall|p: Seq<char>| #[trigger] peers.contains(p) <==> v.pending.dom().contains(p) && late(p) by {
        if order.contains(p) && late(p) {
            let k = choose|k: int| 0 <= k < order.len() && order[k] == p;
            assert(peers.contains(order[k]));
        }
        if peers.contains(p) {
            let k = choose|k: int| 0 <= k < peers.len() && peers[k] == p;
            assert(late(peers[k]) && order.contains(peers[k]));
        }
    }
    kept_alike(
        v.nodes,
        |a: Seq<Part>|
            !(peer_of(a) is Some && max > 0 && bumped(v.failures, peer_of(a)->0) >= max && peers.contains(peer_of(a)->0)),
        |a: Seq<Part>|
            !(peer_of(a) is Some && v.pending.dom().contains(peer_of(a)->0) && now >= v.pending[peer_of(a)->0] + retry * 3
                * 1_000_000_000 && now >= v.pending[peer_of(a)->0] + 180 * 1_000_000_000 && max > 0 && bumped(
                v.failures,
                peer_of(a)->0,
            ) >= max),
    );
    if giving_up_takes_out(v, peers, now, max) {
        let i = choose|i: int| 0 <= i < peers.len() && max > 0 && bumped(v.failures, #[trigger] peers[i]) >= max;
        assert(peers.contains(peers[i]));
        assert(v.pending.dom().contains(peers[i]));
    }
    if exists|p: Seq<char>| #[trigger]
        v.pending.dom().contains(p) && now >= v.pending[p] + retry * 3 * 1_000_000_000 && now >= v.pending[p] + 180
            * 1_000_000_000 && max > 0 && bumped(v.failures, p) >= max {
        let p = choose|p: Seq<char>| #[trigger]
            v.pending.dom().contains(p) && now >= v.pending[p] + retry * 3 * 1_000_000_000 && now >= v.pending[p] + 180
                * 1_000_000_000 && max > 0 && bumped(v.failures, p) >= max;
        assert(peers.contains(p));
        let k = choose|k: int| 0 <= k < peers.len() && peers[k] == p;
        assert(bumped(v.failures, peers[k]) >= max);
    }
}

/// What candidates say is what their fields hold, in order.
pub proof fn candidates_say_their_fields(s: Seq<Candidate>)
    ensures
        candidate_views(s).len() == s.len(),
        forall|i: int|
            0 <= i < s.len() ==> (#[trigger] candidate_views(s)[i]).peer == s[i].peer@ && candidate_views(s)[i].addr == s[i].addr@,
{
}

} // verus!
