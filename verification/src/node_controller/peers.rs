//! What the node keeps of its peers: how near they are, and which are bootstrap nodes.

use crate::config::{copy_addrs, ConfigHandle};
use crate::crypto::PeerId;
use crate::multiaddr::{
    addr_views, bootstrap_addrs_from, chosen_addrs, dual_stack, is_dual_stack_addrs, Multiaddr, Part,
};
use crate::name_map::NameMap;
use crate::node_controller::relays::{same_but_nodes, NodeController};
use crate::text::{starts_with, strip_prefix};
use vstd::prelude::*;
use vstd::string::*;

verus! {

/// The key under which bootstrap nodes announce themselves in the distributed table.
pub const BOOTSTRAP_PROVIDER_KEY: &'static str = "/oahd/bootstrap";

/// What the agent version of a node of this network starts with.
pub const AGENT_PREFIX: &'static str = "/oahd/";

/// Whether a peer's agent version is one of this network.
pub fn is_network_agent(agent_version: &str) -> (r: bool)
    ensures
        r == starts_with(agent_version@, AGENT_PREFIX@),
        r == starts_with(agent_version@, "/oahd/"@),
{
    strip_prefix(agent_version, AGENT_PREFIX).is_some()
}

/// The failed pings in a row of a peer.
pub open spec fn ping_failures_of(failures: Map<Seq<char>, u32>, peer: Seq<char>) -> u32 {
    if failures.dom().contains(peer) {
        failures[peer]
    } else {
        0
    }
}

/// The nearest of some peers: one with the smallest known time, the first of those.
pub open spec fn best_of(providers: Seq<Seq<char>>, rtts: Map<Seq<char>, u128>) -> Option<Seq<char>>
    decreases providers.len(),
{
    if providers.len() == 0 {
        None
    } else {
        let before = best_of(providers.drop_last(), rtts);
        let p = providers.last();
        if !rtts.dom().contains(p) {
            before
        } else {
            match before {
                Some(b) => if rtts[p] < rtts[b] {
                    Some(p)
                } else {
                    before
                },
                None => Some(p),
            }
        }
    }
}

/// The nearest peer is one of them, and none of them is nearer; there is one exactly when the time
/// to some of them is known.
pub proof fn best_is_nearest(providers: Seq<Seq<char>>, rtts: Map<Seq<char>, u128>)
    ensures
        best_of(providers, rtts) matches Some(b) ==> providers.contains(b) && rtts.dom().contains(b) && forall|i: int|
            0 <= i < providers.len() && rtts.dom().contains(#[trigger] providers[i]) ==> rtts[b] <= rtts[providers[i]],
        best_of(providers, rtts) is None ==> forall|i: int|
            0 <= i < providers.len() ==> !rtts.dom().contains(#[trigger] providers[i]),
    decreases providers.len(),
{
    if providers.len() > 0 {
        let before = providers.drop_last();
        best_is_nearest(before, rtts);
        assert forall|i: int| 0 <= i < providers.len() - 1 implies #[trigger] providers[i] == before[i] by {}
        if let Some(b) = best_of(before, rtts) {
            let k = choose|k: int| 0 <= k < before.len() && before[k] == b;
            assert(providers[k] == b);
        }
        assert(providers[providers.len() - 1] == providers.last());
    }
}

impl NodeController {
    /// A ping was answered after so many nanoseconds.
    pub fn ping_answered(&mut self, peer: &str, rtt: u128)
        ensures
            final(self).node_rtts@ == old(self).node_rtts@.insert(peer@, rtt),
            final(self).node_ping_failures@ == old(self).node_ping_failures@.remove(peer@),
            *final(self) == (NodeController {
                node_rtts: final(self).node_rtts,
                node_ping_failures: final(self).node_ping_failures,
                ..*old(self)
            }),
    {
        self.node_rtts.insert(peer.to_owned(), rtt);
        let _ = self.node_ping_failures.remove(peer);
    }

    /// A ping has failed: the peer's time is forgotten. After `max` failures in a row (0 for never)
    /// the peer is to be disconnected, and its count starts again; says whether.
    pub fn ping_failed(&mut self, peer: &str, max: u32) -> (r: bool)
        ensures
            final(self).node_rtts@ == old(self).node_rtts@.remove(peer@),
            ({
                let count = ping_failures_of(old(self).node_ping_failures@, peer@) + 1;
                &&& r == (max > 0 && count >= max)
                &&& final(self).node_ping_failures@ == (if max == 0 {
                    old(self).node_ping_failures@
                } else if r {
                    old(self).node_ping_failures@.remove(peer@)
                } else {
                    old(self).node_ping_failures@.insert(peer@, count as u32)
                })
            }),
            *final(self) == (NodeController {
                node_rtts: final(self).node_rtts,
                node_ping_failures: final(self).node_ping_failures,
                ..*old(self)
            }),
    {
        let _ = self.node_rtts.remove(peer);
        if max == 0 {
            return false;
        }
        let before: u32 = match self.node_ping_failures.get(peer) {
            Some(c) => *c,
            None => 0,
        };
        if before >= max - 1 {
            let _ = self.node_ping_failures.remove(peer);
            true
        } else {
            self.node_ping_failures.insert(peer.to_owned(), before + 1);
            false
        }
    }

    /// The nearest of some peers, if the time to one of them is known.
    pub fn get_best_peer(&self, providers: &Vec<PeerId>) -> (r: Option<PeerId>)
        ensures
            r.deep_view() == best_of(providers@.map_values(|t: String| t@), self.node_rtts@),
    {
        let ghost all = providers@.map_values(|t: String| t@);
        let mut best: Option<usize> = None;
        let mut best_rtt: u128 = 0;
        let mut i: usize = 0;
        assert(all.subrange(0, 0) =~= Seq::<Seq<char>>::empty());
        while i < providers.len()
            invariant
                i <= providers@.len(),
                all == providers@.map_values(|t: String| t@),
                match best {
                    Some(b) => b < i && best_of(all.subrange(0, i as int), self.node_rtts@) == Some(all[b as int])
                        && self.node_rtts@.dom().contains(all[b as int]) && self.node_rtts@[all[b as int]] == best_rtt,
                    None => best_of(all.subrange(0, i as int), self.node_rtts@) is None,
                },
            decreases providers@.len() - i,
        {
            proof {
                let upto = all.subrange(0, i + 1);
                assert(upto.drop_last() =~= all.subrange(0, i as int));
                assert(upto.last() == providers@[i as int]@);
            }
            match self.node_rtts.get(providers[i].as_str()) {
                Some(rtt) => {
                    if best.is_none() || *rtt < best_rtt {
                        best = Some(i);
                        best_rtt = *rtt;
                    }
                },
                None => {},
            }
            i += 1;
        }
        assert(all.subrange(0, all.len() as int) =~= all);
        match best {
            Some(b) => Some(providers[b].clone()),
            None => None,
        }
    }

    /// Whether the node should announce itself as a bootstrap node: it may, it has both IP families,
    /// and it has not done so yet.
    pub fn should_announce_bootstrap(&self, config: &ConfigHandle) -> (r: bool)
        ensures
            r == (!self.is_bootstrap_provider && config.inner.node.allow_bootstrap
                && config.inner.network.ipv4_enabled && config.inner.network.ipv6_enabled),
    {
        !self.is_bootstrap_provider && config.allow_bootstrap() && config.inner.network.ipv4_enabled
            && config.inner.network.ipv6_enabled
    }

    /// Takes note of whether announcing worked.
    pub fn bootstrap_announced(&mut self, done: bool)
        ensures
            *final(self) == (NodeController {
                is_bootstrap_provider: old(self).is_bootstrap_provider || done,
                ..*old(self)
            }),
    {
        if done {
            self.is_bootstrap_provider = true;
        }
    }

    /// Takes the peers that the distributed table names as bootstrap nodes; where asking failed, the
    /// old ones stay.
    pub fn refresh_bootstrap_providers(&mut self, providers: Option<Vec<PeerId>>)
        ensures
            match providers {
                Some(list) => forall|p: Seq<char>| #[trigger]
                    final(self).bootstrap_providers@.dom().contains(p) <==> list@.map_values(|t: String| t@).contains(p),
                None => *final(self) == *old(self),
            },
            *final(self) == (NodeController {
                bootstrap_providers: final(self).bootstrap_providers,
                ..*old(self)
            }),
    {
        match providers {
            Some(list) => {
                let ghost all = list@.map_values(|t: String| t@);
                let mut set: NameMap<()> = NameMap::new();
                let mut i: usize = 0;
                while i < list.len()
                    invariant
                        i <= list@.len(),
                        all == list@.map_values(|t: String| t@),
                        forall|p: Seq<char>| #[trigger] set@.dom().contains(p) <==> all.subrange(0, i as int).contains(p),
                    decreases list@.len() - i,
                {
                    let ghost before = all.subrange(0, i as int);
                    let ghost after = all.subrange(0, i + 1);
                    set.insert(list[i].clone(), ());
                    proof {
                        assert(after =~= before.push(all[i as int]));
                        assert forall|p: Seq<char>| #[trigger] set@.dom().contains(p) <==> after.contains(p) by {
                            if before.contains(p) {
                                let j = choose|j: int| 0 <= j < before.len() && before[j] == p;
                                assert(after[j] == p);
                            }
                            if after.contains(p) && p != all[i as int] {
                                let j = choose|j: int| 0 <= j < after.len() && after[j] == p;
                                assert(before[j] == p);
                            }
                            assert(after[i as int] == all[i as int]);
                        }
                    }
                    i += 1;
                }
                assert(all.subrange(0, all.len() as int) =~= all);
                self.bootstrap_providers = set;
            },
            None => {},
        }
    }

    /// Adds a peer to the bootstrap nodes if it listens on both IP families and is named as a
    /// bootstrap node: one address of each family, unless it is there already. Says whether the
    /// configuration changed and is to be saved.
    pub fn add_bootstrap_node_if_new(&self, config: &mut ConfigHandle, listen_addrs: &Vec<Multiaddr>, peer: &str) -> (r: bool)
        ensures
            ({
                let before = addr_views(old(config).inner.services.kademlia.bootstrap_nodes@);
                let after = addr_views(final(config).inner.services.kademlia.bootstrap_nodes@);
                let listens = addr_views(listen_addrs@);
                if dual_stack(listens) && self.bootstrap_providers@.dom().contains(peer@) {
                    after == added(before, chosen_addrs(listens, peer@)) && r == (after.len() > before.len())
                } else {
                    !r
                }
            }),
            !r ==> *final(config) == *old(config),
            same_but_nodes(final(config).inner, old(config).inner),
    {
        if !is_dual_stack_addrs(listen_addrs) {
            return false;
        }
        if !self.bootstrap_providers.contains(peer) {
            return false;
        }
        let candidates = bootstrap_addrs_from(listen_addrs, peer);
        let ghost extra = addr_views(candidates@);
        let ghost before = addr_views(config.inner.services.kademlia.bootstrap_nodes@);
        let mut nodes = copy_addrs(&config.inner.services.kademlia.bootstrap_nodes);
        let mut changed: bool = false;
        let mut i: usize = 0;
        assert(extra.subrange(0, 0) =~= Seq::<Seq<Part>>::empty());
        while i < candidates.len()
            invariant
                i <= candidates@.len(),
                *config == *old(config),
                extra == addr_views(candidates@),
                addr_views(nodes@) == added(before, extra.subrange(0, i as int)),
                addr_views(nodes@).len() >= before.len(),
                changed == (addr_views(nodes@).len() > before.len()),
                !changed ==> addr_views(nodes@) == before,
            decreases candidates@.len() - i,
        {
            proof {
                let upto = extra.subrange(0, i + 1);
                assert(upto.drop_last() =~= extra.subrange(0, i as int));
                assert(upto.last() == candidates@[i as int]@);
            }
            if !holds_addr(&nodes, &candidates[i]) {
                let ghost had = nodes@;
                nodes.push(candidates[i].copy());
                assert(addr_views(nodes@) =~= addr_views(had).push(candidates@[i as int]@));
                changed = true;
            }
            i += 1;
        }
        assert(extra.subrange(0, extra.len() as int) =~= extra);
        if changed {
            config.set_bootstrap_nodes(nodes);
        }
        changed
    }
}

/// A list with further addresses at its end, each unless it is there already.
pub open spec fn added(nodes: Seq<Seq<Part>>, extra: Seq<Seq<Part>>) -> Seq<Seq<Part>>
    decreases extra.len(),
{
    if extra.len() == 0 {
        nodes
    } else {
        let before = added(nodes, extra.drop_last());
        if before.contains(extra.last()) {
            before
        } else {
            before.push(extra.last())
        }
    }
}

/// The old addresses stay in front, every further one is there, and adding them again changes
/// nothing.
pub proof fn added_keeps_and_has_all(nodes: Seq<Seq<Part>>, extra: Seq<Seq<Part>>)
    ensures
        added(nodes, extra).len() >= nodes.len(),
        added(nodes, extra).subrange(0, nodes.len() as int) == nodes,
        forall|i: int| 0 <= i < extra.len() ==> added(nodes, extra).contains(#[trigger] extra[i]),
        added(added(nodes, extra), extra) == added(nodes, extra),
{
    adding_has_all(nodes, extra);
    adding_what_is_there(added(nodes, extra), extra);
}

proof fn adding_what_is_there(nodes: Seq<Seq<Part>>, extra: Seq<Seq<Part>>)
    requires
        forall|i: int| 0 <= i < extra.len() ==> nodes.contains(#[trigger] extra[i]),
    ensures
        added(nodes, extra) == nodes,
    decreases extra.len(),
{
    if extra.len() > 0 {
        let rest = extra.drop_last();
        assert forall|i: int| 0 <= i < rest.len() implies nodes.contains(#[trigger] rest[i]) by {
            assert(rest[i] == extra[i]);
        }
        adding_what_is_there(nodes, rest);
        assert(nodes.contains(extra[extra.len() - 1]));
    }
}

proof fn adding_has_all(nodes: Seq<Seq<Part>>, extra: Seq<Seq<Part>>)
    ensures
        added(nodes, extra).len() >= nodes.len(),
        added(nodes, extra).subrange(0, nodes.len() as int) == nodes,
        forall|i: int| 0 <= i < extra.len() ==> added(nodes, extra).contains(#[trigger] extra[i]),
    decreases extra.len(),
{
    if extra.len() == 0 {
        assert(nodes.subrange(0, nodes.len() as int) =~= nodes);
    } else {
        let rest = extra.drop_last();
        adding_has_all(nodes, rest);
        let before = added(nodes, rest);
        let after = added(nodes, extra);
        assert(after.subrange(0, nodes.len() as int) =~= before.subrange(0, nodes.len() as int));
        assert forall|i: int| 0 <= i < extra.len() implies after.contains(#[trigger] extra[i]) by {
            if i < rest.len() {
                assert(rest[i] == extra[i]);
                assert(before.contains(rest[i]));
                let k = choose|k: int| 0 <= k < before.len() && before[k] == extra[i];
                assert(after[k] == extra[i]);
            } else if !before.contains(extra.last()) {
                assert(after[before.len() as int] == extra[i]);
            }
        }
    }
}

fn holds_addr(nodes: &Vec<Multiaddr>, addr: &Multiaddr) -> (r: bool)
    ensures
        r == addr_views(nodes@).contains(addr@),
{
    let ghost all = addr_views(nodes@);
    let mut i: usize = 0;
    while i < nodes.len()
        invariant
            i <= nodes@.len(),
            all == addr_views(nodes@),
            forall|j: int| 0 <= j < i ==> all[j] != addr@,
        decreases nodes@.len() - i,
    {
        if nodes[i].same(addr) {
            assert(all[i as int] == addr@);
            return true;
        }
        i += 1;
    }
    false
}

/// Of several nearest peers the first is taken: a peer whose time is known, with a longer time to every
/// known one before it and no shorter time to any known one after it.
pub proof fn first_of_the_nearest_is_best(providers: Seq<Seq<char>>, rtts: Map<Seq<char>, u128>, i: int)
    requires
        0 <= i < providers.len(),
        rtts.dom().contains(providers[i]),
        forall|j: int| 0 <= j < i && rtts.dom().contains(#[trigger] providers[j]) ==> rtts[providers[j]] > rtts[providers[i]],
        forall|j: int|
            i < j < providers.len() && rtts.dom().contains(#[trigger] providers[j]) ==> rtts[providers[j]]
                >= rtts[providers[i]],
    ensures
        best_of(providers, rtts) == Some(providers[i]),
    decreases providers.len(),
{
    let rest = providers.drop_last();
    assert forall|j: int| 0 <= j < rest.len() implies #[trigger] rest[j] == providers[j] by {}
    best_is_nearest(rest, rtts);
    if i < rest.len() {
        first_of_the_nearest_is_best(rest, rtts, i);
        assert(providers[providers.len() - 1] == providers.last());
    } else {
        assert(providers.last() == providers[i]);
        if let Some(b) = best_of(rest, rtts) {
            let k = choose|k: int| 0 <= k < rest.len() && rest[k] == b;
            assert(providers[k] == b);
        }
    }
}

/// Nothing is added but what was to be added and was not there, and nothing twice.
pub proof fn added_is_new(nodes: Seq<Seq<Part>>, extra: Seq<Seq<Part>>)
    ensures
        forall|k: int|
            nodes.len() <= k < added(nodes, extra).len() ==> extra.contains(#[trigger] added(nodes, extra)[k]) && !nodes.contains(
                added(nodes, extra)[k],
            ),
        forall|j: int, k: int|
            nodes.len() <= j < k < added(nodes, extra).len() ==> #[trigger] added(nodes, extra)[j] != #[trigger] added(
                nodes,
                extra,
            )[k],
    decreases extra.len(),
{
    if extra.len() > 0 {
        let rest = extra.drop_last();
        added_is_new(nodes, rest);
        adding_has_all(nodes, rest);
        let before = added(nodes, rest);
        let after = added(nodes, extra);
        assert forall|k: int| 0 <= k < before.len() implies #[trigger] after[k] == before[k] by {}
        assert forall|k: int| 0 <= k < nodes.len() implies #[trigger] before[k] == nodes[k] by {
            assert(before.subrange(0, nodes.len() as int)[k] == nodes[k]);
        }
        assert forall|k: int| nodes.len() <= k < after.len() implies extra.contains(#[trigger] after[k]) && !nodes.contains(
            after[k],
        ) by {
            if k < before.len() {
                assert(rest.contains(before[k]));
                let m = choose|m: int| 0 <= m < rest.len() && rest[m] == before[k];
                assert(extra[m] == after[k]);
            } else {
                assert(extra[extra.len() - 1] == after[k]);
                if nodes.contains(after[k]) {
                    let m = choose|m: int| 0 <= m < nodes.len() && nodes[m] == after[k];
                    assert(before[m] == after[k]);
                }
            }
        }
        assert forall|j: int, k: int| nodes.len() <= j < k < after.len() implies #[trigger] after[j] != #[trigger] after[k] by {
            if k < before.len() {
                assert(before[j] != before[k]);
            } else {
                assert(before.contains(before[j]));
            }
        }
    }
}

/// The agents of this network, and the bootstrap nodes of it, go by these names; a peer without failed
/// pings has none.
pub proof fn network_names(failures: Map<Seq<char>, u32>, peer: Seq<char>)
    ensures
        AGENT_PREFIX@ == "/oahd/"@,
        BOOTSTRAP_PROVIDER_KEY@ == "/oahd/bootstrap"@,
        !failures.dom().contains(peer) ==> ping_failures_of(failures, peer) == 0,
        failures.dom().contains(peer) ==> ping_failures_of(failures, peer) == failures[peer],
{
}

} // verus!
