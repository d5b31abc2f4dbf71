//! The settings of the network's protocols, as the configuration gives them.

use crate::config::{ConfigHandle, NodeConfig};
use crate::node_controller::peers::AGENT_PREFIX;
use crate::text::{join2, starts_with};
use vstd::prelude::*;
use vstd::string::*;

verus! {

/// The protocol id of the distributed table.
pub const KAD_PROTOCOL: &'static str = "/ipfs/kad/1.0.0";

/// How many reservations a relay grants.
pub const RELAY_MAX_RESERVATIONS: usize = 16;

/// The settings of ping.
#[derive(Debug, Clone, Copy, PartialEq, Eq, Structural)]
pub struct PingSettings {
    pub interval_secs: u32,
    pub timeout_secs: u32,
}

/// The settings of the distributed table.
#[derive(Debug, Clone, Copy, PartialEq, Eq, Structural)]
pub struct KadSettings {
    pub record_ttl_secs: u32,
    pub query_timeout_secs: u32,
    /// How many peers keep a record; nothing for the protocol's own default.
    pub replication_factor: Option<u32>,
}

/// The settings of the relay that this node is for others.
#[derive(Debug, Clone, Copy, PartialEq, Eq, Structural)]
pub enum RelaySettings {
    /// Grant up to so many reservations.
    Grant(usize),
    /// Grant none, to no peer.
    RefuseAll,
}

/// The settings of all protocols; a protocol that is off has none.
#[derive(Debug)]
pub struct BehaviourSettings {
    pub ping: Option<PingSettings>,
    /// What the node calls itself.
    pub agent_version: String,
    pub kademlia: Option<KadSettings>,
    pub relay: RelaySettings,
}

/// The relay settings of a configuration: only a node with both IP families is a relay.
pub open spec fn relay_settings(config: NodeConfig) -> RelaySettings {
    if config.network.ipv4_enabled && config.network.ipv6_enabled {
        RelaySettings::Grant(RELAY_MAX_RESERVATIONS)
    } else {
        RelaySettings::RefuseAll
    }
}

/// The settings that a configuration gives, for a program of some version. Peers of this network
/// know the agent version as one of theirs.
pub fn behaviour_settings(config: &ConfigHandle, version: &str) -> (r: BehaviourSettings)
    ensures
        r.ping == (if config.inner.services.ping.enabled {
            Some(
                PingSettings {
                    interval_secs: config.inner.services.ping.interval_secs,
                    timeout_secs: config.inner.services.ping.with_timeout,
                },
            )
        } else {
            None
        }),
        r.agent_version@ == AGENT_PREFIX@ + version@,
        starts_with(r.agent_version@, AGENT_PREFIX@),
        r.kademlia == (if config.inner.services.kademlia.enabled {
            Some(
                KadSettings {
                    record_ttl_secs: config.inner.services.kademlia.record_ttl_seconds,
                    query_timeout_secs: config.inner.services.kademlia.query_timeout_seconds,
                    replication_factor: if config.inner.services.kademlia.replication_factor == 0 {
                        None
                    } else {
                        Some(config.inner.services.kademlia.replication_factor)
                    },
                },
            )
        } else {
            None
        }),
        r.relay == relay_settings(config.inner),
{
    let ping = if config.ping_enabled() {
        Some(PingSettings { interval_secs: config.ping_interval(), timeout_secs: config.ping_timeout() })
    } else {
        None
    };
    let factor: u32 = config.kademlia_replication_factor();
    let kademlia = if config.kademlia_enabled() {
        Some(
            KadSettings {
                record_ttl_secs: config.kademlia_record_ttl(),
                query_timeout_secs: config.kademlia_query_timeout(),
                replication_factor: if factor == 0 {
                    None
                } else {
                    Some(factor)
                },
            },
        )
    } else {
        None
    };
    let relay = if config.inner.network.ipv4_enabled && config.inner.network.ipv6_enabled {
        RelaySettings::Grant(RELAY_MAX_RESERVATIONS)
    } else {
        RelaySettings::RefuseAll
    };
    let agent_version = join2(AGENT_PREFIX, version);
    assert(agent_version@.subrange(0, AGENT_PREFIX@.len() as int) =~= AGENT_PREFIX@);
    BehaviourSettings { ping, agent_version, kademlia, relay }
}

/// A node is a relay for up to sixteen others exactly when it has both IP families.
pub proof fn dual_stack_nodes_relay(config: NodeConfig)
    ensures
        config.network.ipv4_enabled && config.network.ipv6_enabled ==> relay_settings(config) == RelaySettings::Grant(16),
        !config.network.ipv4_enabled || !config.network.ipv6_enabled ==> relay_settings(config) == RelaySettings::RefuseAll,
        KAD_PROTOCOL@ == "/ipfs/kad/1.0.0"@,
{
}

} // verus!
