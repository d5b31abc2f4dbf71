//! The node's configuration.

use crate::multiaddr::{addr_views, IpAddr, Multiaddr};
use crate::name_map::NameMap;
use crate::text::{decimal, decimal_text, join2, same_text, text_views};
use vstd::prelude::*;
use vstd::string::*;

verus! {

/// The default of switches that are on.
pub fn bool_true() -> (r: bool)
    ensures
        r,
{
    true
}

/// The default of switches that are off.
pub fn bool_false() -> (r: bool)
    ensures
        !r,
{
    false
}

/// Hours as seconds.
pub fn hours(h: u32) -> (r: u32)
    requires
        h * 3600 <= u32::MAX,
    ensures
        r == h * 3600,
{
    h * 3600
}

/// The network that stands for no authorization.
pub fn default_auth_network() -> (r: String)
    ensures
        r@ == "none"@,
{
    "none".to_owned()
}

/// The name of a node that was given none.
pub fn default_name() -> (r: String)
    ensures
        r@ == "未设置的p2p节点"@,
{
    "未设置的p2p节点".to_owned()
}

/// The description of a node that was given none.
pub fn default_description() -> (r: String)
    ensures
        r@ == "无详细描述"@,
{
    "无详细描述".to_owned()
}

/// Who the node is.
#[derive(Debug)]
pub struct NodeInfo {
    pub name: String,
    pub description: String,
    /// Whether the node may serve others as a bootstrap node, if it has both IP families.
    pub allow_bootstrap: bool,
}

impl Default for NodeInfo {
    fn default() -> (r: Self)
        ensures
            r.name@ == "未设置的p2p节点"@,
            r.description@ == "无详细描述"@,
            r.allow_bootstrap,
    {
        NodeInfo { name: default_name(), description: default_description(), allow_bootstrap: bool_true() }
    }
}

/// Where the node listens, and what it announces.
#[derive(Debug)]
pub struct NetworkConfig {
    pub ipv4_enabled: bool,
    pub ipv4_address: Option<IpAddr>,
    pub ipv6_enabled: bool,
    pub ipv6_address: Option<IpAddr>,
    pub port: u32,
    pub announce_addresses: Vec<Multiaddr>,
}

impl Default for NetworkConfig {
    fn default() -> (r: Self)
        ensures
            !r.ipv4_enabled,
            r.ipv4_address is None,
            !r.ipv6_enabled,
            r.ipv6_address is None,
            r.port == 5000,
            r.announce_addresses@.len() == 0,
    {
        NetworkConfig {
            ipv4_enabled: bool_false(),
            ipv4_address: None,
            ipv6_enabled: bool_false(),
            ipv6_address: None,
            port: 5000,
            announce_addresses: Vec::new(),
        }
    }
}

/// The ping protocol.
#[derive(Debug, Clone, Copy)]
pub struct PingService {
    pub enabled: bool,
    pub interval_secs: u32,
    pub with_timeout: u32,
    /// How many failures in a row cut a connection; 0 for never.
    pub max_failures: u32,
}

impl Default for PingService {
    fn default() -> (r: Self)
        ensures
            r == (PingService { enabled: true, interval_secs: 15, with_timeout: 10, max_failures: 2 }),
    {
        PingService { enabled: bool_true(), interval_secs: 15, with_timeout: 10, max_failures: 2 }
    }
}

/// The distributed table.
#[derive(Debug)]
pub struct KademliaService {
    pub enabled: bool,
    pub record_ttl_seconds: u32,
    pub replication_factor: u32,
    pub query_timeout_seconds: u32,
    pub bootstrap_nodes: Vec<Multiaddr>,
}

impl Default for KademliaService {
    fn default() -> (r: Self)
        ensures
            r.enabled,
            r.record_ttl_seconds == 3600,
            r.replication_factor == 20,
            r.query_timeout_seconds == 60,
            r.bootstrap_nodes@.len() == 0,
    {
        KademliaService {
            enabled: bool_true(),
            record_ttl_seconds: hours(1),
            replication_factor: 20,
            query_timeout_seconds: 60,
            bootstrap_nodes: Vec::new(),
        }
    }
}

/// Reservations at relays, which a node without both IP families needs to be reached.
#[derive(Debug, Clone, Copy)]
pub struct RelayService {
    /// The seconds between two checks for missing reservations.
    pub retry_interval_secs: u32,
    /// How many failures in a row take a node out of the bootstrap list; 0 for never.
    pub max_failures: u32,
}

impl Default for RelayService {
    fn default() -> (r: Self)
        ensures
            r == (RelayService { retry_interval_secs: 60, max_failures: 3 }),
    {
        RelayService { retry_interval_secs: 60, max_failures: 3 }
    }
}

/// A service that a local backend offers.
#[derive(Debug)]
pub struct LocalServiceEntry {
    pub name: String,
    pub host: String,
    pub port: u16,
    /// Whether only authorized peers may use the service.
    pub require_auth: bool,
}

impl LocalServiceEntry {
    /// A copy of the entry.
    pub fn copy(&self) -> (r: Self)
        ensures
            r == *self,
    {
        LocalServiceEntry {
            name: self.name.clone(),
            host: self.host.clone(),
            port: self.port,
            require_auth: self.require_auth,
        }
    }
}

/// The dispatcher of service requests.
#[derive(Debug)]
pub struct DispatcherConfig {
    pub enabled: bool,
    pub query_timeout_secs: u32,
    pub record_ttl_secs: u32,
    pub local_services: Vec<LocalServiceEntry>,
}

impl Default for DispatcherConfig {
    fn default() -> (r: Self)
        ensures
            r.enabled,
            r.query_timeout_secs == 60,
            r.record_ttl_secs == 3600,
            r.local_services@.len() == 0,
    {
        DispatcherConfig {
            enabled: bool_true(),
            query_timeout_secs: 60,
            record_ttl_secs: hours(1),
            local_services: Vec::new(),
        }
    }
}

/// The services.
#[derive(Debug)]
pub struct ServicesConfig {
    pub ping: PingService,
    pub kademlia: KademliaService,
    pub dispatcher: DispatcherConfig,
    pub relay: RelayService,
}

/// Whether services have their defaults.
pub open spec fn default_services(s: ServicesConfig) -> bool {
    &&& s.ping == (PingService { enabled: true, interval_secs: 15, with_timeout: 10, max_failures: 2 })
    &&& s.kademlia.enabled
    &&& s.kademlia.record_ttl_seconds == 3600
    &&& s.kademlia.replication_factor == 20
    &&& s.kademlia.query_timeout_seconds == 60
    &&& s.kademlia.bootstrap_nodes@.len() == 0
    &&& s.dispatcher.enabled
    &&& s.dispatcher.query_timeout_secs == 60
    &&& s.dispatcher.record_ttl_secs == 3600
    &&& s.dispatcher.local_services@.len() == 0
    &&& s.relay == (RelayService { retry_interval_secs: 60, max_failures: 3 })
}

impl Default for ServicesConfig {
    fn default() -> (r: Self)
        ensures
            default_services(r),
    {
        ServicesConfig {
            ping: PingService::default(),
            kademlia: KademliaService::default(),
            dispatcher: DispatcherConfig::default(),
            relay: RelayService::default(),
        }
    }
}

/// The post-quantum layer.
#[derive(Debug, Clone, Copy)]
pub struct CryptoConfig {
    pub pq_transport_enabled: bool,
    pub pq_identity_enabled: bool,
    pub pq_required: bool,
}

impl Default for CryptoConfig {
    fn default() -> (r: Self)
        ensures
            r == (CryptoConfig { pq_transport_enabled: false, pq_identity_enabled: false, pq_required: false }),
    {
        CryptoConfig {
            pq_transport_enabled: bool_false(),
            pq_identity_enabled: bool_false(),
            pq_required: bool_false(),
        }
    }
}

/// Authorization. The network "none" stands for no authorization; any other needs an authority
/// in `networks`.
#[derive(Debug)]
pub struct AuthConfig {
    pub network: String,
    /// For how many seconds a kept index or whitelist counts.
    pub cache_ttl_secs: u32,
    /// The seconds between two refreshes.
    pub refresh_interval_secs: u32,
    /// The trust anchors by network.
    pub networks: NameMap<AuthNetworkConfig>,
}

impl Default for AuthConfig {
    fn default() -> (r: Self)
        ensures
            r.network@ == "none"@,
            r.cache_ttl_secs == 300,
            r.refresh_interval_secs == 60,
            r.networks@ == Map::<Seq<char>, AuthNetworkConfig>::empty(),
    {
        AuthConfig {
            network: default_auth_network(),
            cache_ttl_secs: 300,
            refresh_interval_secs: 60,
            networks: NameMap::new(),
        }
    }
}

/// The trust anchor of one network.
#[derive(Debug)]
pub struct AuthNetworkConfig {
    /// The base64 text of the authority's ed25519 public key.
    pub authority: String,
}

impl Default for AuthNetworkConfig {
    fn default() -> (r: Self)
        ensures
            r.authority@.len() == 0,
    {
        AuthNetworkConfig { authority: String::new() }
    }
}

/// The whole configuration.
#[derive(Debug)]
pub struct NodeConfig {
    pub node: NodeInfo,
    pub network: NetworkConfig,
    pub services: ServicesConfig,
    pub crypto: CryptoConfig,
    pub auth: AuthConfig,
}

/// Whether a configuration has only defaults.
pub open spec fn default_config(c: NodeConfig) -> bool {
    &&& c.node.name@ == "未设置的p2p节点"@
    &&& c.node.description@ == "无详细描述"@
    &&& c.node.allow_bootstrap
    &&& !c.network.ipv4_enabled
    &&& c.network.ipv4_address is None
    &&& !c.network.ipv6_enabled
    &&& c.network.ipv6_address is None
    &&& c.network.port == 5000
    &&& c.network.announce_addresses@.len() == 0
    &&& default_services(c.services)
    &&& c.crypto == (CryptoConfig { pq_transport_enabled: false, pq_identity_enabled: false, pq_required: false })
    &&& c.auth.network@ == "none"@
    &&& c.auth.cache_ttl_secs == 300
    &&& c.auth.refresh_interval_secs == 60
    &&& c.auth.networks@ == Map::<Seq<char>, AuthNetworkConfig>::empty()
}

impl Default for NodeConfig {
    fn default() -> (r: Self)
        ensures
            default_config(r),
    {
        NodeConfig {
            node: NodeInfo::default(),
            network: NetworkConfig::default(),
            services: ServicesConfig::default(),
            crypto: CryptoConfig::default(),
            auth: AuthConfig::default(),
        }
    }
}

/// Whether two configurations say the same.
pub open spec fn same_config(a: NodeConfig, b: NodeConfig) -> bool {
    &&& a.node.name@ == b.node.name@
    &&& a.node.description@ == b.node.description@
    &&& a.node.allow_bootstrap == b.node.allow_bootstrap
    &&& a.network.ipv4_enabled == b.network.ipv4_enabled
    &&& a.network.ipv4_address == b.network.ipv4_address
    &&& a.network.ipv6_enabled == b.network.ipv6_enabled
    &&& a.network.ipv6_address == b.network.ipv6_address
    &&& a.network.port == b.network.port
    &&& addr_views(a.network.announce_addresses@) == addr_views(b.network.announce_addresses@)
    &&& a.services.ping == b.services.ping
    &&& a.services.kademlia.enabled == b.services.kademlia.enabled
    &&& a.services.kademlia.record_ttl_seconds == b.services.kademlia.record_ttl_seconds
    &&& a.services.kademlia.replication_factor == b.services.kademlia.replication_factor
    &&& a.services.kademlia.query_timeout_seconds == b.services.kademlia.query_timeout_seconds
    &&& addr_views(a.services.kademlia.bootstrap_nodes@) == addr_views(b.services.kademlia.bootstrap_nodes@)
    &&& a.services.dispatcher.enabled == b.services.dispatcher.enabled
    &&& a.services.dispatcher.query_timeout_secs == b.services.dispatcher.query_timeout_secs
    &&& a.services.dispatcher.record_ttl_secs == b.services.dispatcher.record_ttl_secs
    &&& service_views(a.services.dispatcher.local_services@) == service_views(b.services.dispatcher.local_services@)
    &&& a.services.relay == b.services.relay
    &&& a.crypto == b.crypto
    &&& a.auth.network@ == b.auth.network@
    &&& a.auth.cache_ttl_secs == b.auth.cache_ttl_secs
    &&& a.auth.refresh_interval_secs == b.auth.refresh_interval_secs
    &&& authorities(a.auth.networks@) == authorities(b.auth.networks@)
}

/// What a local service says.
pub struct LocalServiceView {
    pub name: Seq<char>,
    pub host: Seq<char>,
    pub port: u16,
    pub require_auth: bool,
}

impl LocalServiceEntry {
    pub open spec fn view(&self) -> LocalServiceView {
        LocalServiceView { name: self.name@, host: self.host@, port: self.port, require_auth: self.require_auth }
    }
}

/// What local services say.
pub open spec fn service_views(s: Seq<LocalServiceEntry>) -> Seq<LocalServiceView> {
    s.map_values(|e: LocalServiceEntry| e@)
}

/// The texts of the authorities, by network.
pub open spec fn authorities(m: Map<Seq<char>, AuthNetworkConfig>) -> Map<Seq<char>, Seq<char>> {
    m.map_values(|n: AuthNetworkConfig| n.authority@)
}

/// A copy of a list of addresses.
pub fn copy_addrs(addrs: &Vec<Multiaddr>) -> (r: Vec<Multiaddr>)
    ensures
        addr_views(r@) == addr_views(addrs@),
{
    let mut out: Vec<Multiaddr> = Vec::new();
    let mut i: usize = 0;
    while i < addrs.len()
        invariant
            i <= addrs@.len(),
            out@.len() == i,
            forall|j: int| 0 <= j < i ==> (#[trigger] out@[j])@ == addrs@[j]@,
        decreases addrs@.len() - i,
    {
        out.push(addrs[i].copy());
        i += 1;
    }
    assert(addr_views(out@) =~= addr_views(addrs@));
    out
}

fn copy_services(services: &Vec<LocalServiceEntry>) -> (r: Vec<LocalServiceEntry>)
    ensures
        r@ == services@,
{
    let mut out: Vec<LocalServiceEntry> = Vec::new();
    let mut i: usize = 0;
    while i < services.len()
        invariant
            i <= services@.len(),
            out@ == services@.subrange(0, i as int),
        decreases services@.len() - i,
    {
        out.push(services[i].copy());
        assert(services@.subrange(0, i + 1) =~= services@.subrange(0, i as int).push(services@[i as int]));
        i += 1;
    }
    assert(services@.subrange(0, services@.len() as int) =~= services@);
    out
}

fn copy_networks(networks: &NameMap<AuthNetworkConfig>) -> (r: NameMap<AuthNetworkConfig>)
    ensures
        r@ == networks@,
{
    let n: usize = networks.len();
    let mut out: NameMap<AuthNetworkConfig> = NameMap::new();
    let mut i: usize = 0;
    while i < n
        invariant
            n == networks.order().len(),
            i <= n,
            networks.order().no_duplicates(),
            forall|k: Seq<char>| networks.order().contains(k) <==> networks@.dom().contains(k),
            forall|k: Seq<char>|
                #[trigger] out@.dom().contains(k) <==> networks.order().subrange(0, i as int).contains(k),
            forall|k: Seq<char>| #[trigger] out@.dom().contains(k) ==> out@[k] == networks@[k],
        decreases n - i,
    {
        let key = networks.key_at(i);
        let value = networks.value_at(i);
        let ghost o = networks.order();
        let ghost before = o.subrange(0, i as int);
        let ghost after = o.subrange(0, i + 1);
        assert(after =~= before.push(o[i as int]));
        let ghost had = out@;
        out.insert(key.clone(), AuthNetworkConfig { authority: value.authority.clone() });
        proof {
            assert forall|k: Seq<char>| #[trigger] out@.dom().contains(k) <==> after.contains(k) by {
                if before.contains(k) {
                    let j = choose|j: int| 0 <= j < before.len() && before[j] == k;
                    assert(after[j] == k);
                }
                if after.contains(k) && k != o[i as int] {
                    let j = choose|j: int| 0 <= j < after.len() && after[j] == k;
                    assert(before[j] == k);
                }
                assert(after[i as int] == o[i as int]);
            }
        }
        i += 1;
    }
    proof {
        assert(networks.order().subrange(0, n as int) =~= networks.order());
        assert(out@ =~= networks@);
    }
    out
}

impl NodeConfig {
    /// A copy of the configuration.
    pub fn copy(&self) -> (r: Self)
        ensures
            same_config(r, *self),
    {
        NodeConfig {
            node: NodeInfo {
                name: self.node.name.clone(),
                description: self.node.description.clone(),
                allow_bootstrap: self.node.allow_bootstrap,
            },
            network: NetworkConfig {
                ipv4_enabled: self.network.ipv4_enabled,
                ipv4_address: self.network.ipv4_address,
                ipv6_enabled: self.network.ipv6_enabled,
                ipv6_address: self.network.ipv6_address,
                port: self.network.port,
                announce_addresses: copy_addrs(&self.network.announce_addresses),
            },
            services: ServicesConfig {
                ping: self.services.ping,
                kademlia: KademliaService {
                    enabled: self.services.kademlia.enabled,
                    record_ttl_seconds: self.services.kademlia.record_ttl_seconds,
                    replication_factor: self.services.kademlia.replication_factor,
                    query_timeout_seconds: self.services.kademlia.query_timeout_seconds,
                    bootstrap_nodes: copy_addrs(&self.services.kademlia.bootstrap_nodes),
                },
                dispatcher: DispatcherConfig {
                    enabled: self.services.dispatcher.enabled,
                    query_timeout_secs: self.services.dispatcher.query_timeout_secs,
                    record_ttl_secs: self.services.dispatcher.record_ttl_secs,
                    local_services: copy_services(&self.services.dispatcher.local_services),
                },
                relay: self.services.relay,
            },
            crypto: self.crypto,
            auth: AuthConfig {
                network: self.auth.network.clone(),
                cache_ttl_secs: self.auth.cache_ttl_secs,
                refresh_interval_secs: self.auth.refresh_interval_secs,
                networks: copy_networks(&self.auth.networks),
            },
        }
    }
}

/// What became of reading the configuration file.
pub enum FileRead {
    /// There is no such file.
    NotFound,
    /// It could not be read.
    Failed,
    /// It was read, but is no configuration.
    Unparsable,
    Parsed(NodeConfig),
}

/// What to do to have a configuration.
pub enum LoadPlan {
    /// Use this one.
    Use(NodeConfig),
    /// Use the defaults, and leave the file alone.
    UseDefault,
    /// Write a file with the defaults, and use them.
    WriteDefault,
    /// Put the bad file aside, then write one with the defaults, and use them.
    SetAsideAndWriteDefault,
    /// Give up.
    Exit,
}

/// Decides where the configuration comes from. A file that is missing and not to be created is not
/// read.
pub fn load_plan(create_if_missing: bool, exists: bool, file: FileRead) -> (r: LoadPlan)
    ensures
        !create_if_missing && !exists ==> r is UseDefault,
        create_if_missing || exists ==> match file {
            FileRead::Parsed(c) => r == LoadPlan::Use(c),
            FileRead::Unparsable => r is SetAsideAndWriteDefault,
            FileRead::NotFound => r is WriteDefault,
            FileRead::Failed => r is Exit,
        },
{
    if !create_if_missing && !exists {
        return LoadPlan::UseDefault;
    }
    match file {
        FileRead::Parsed(c) => LoadPlan::Use(c),
        FileRead::Unparsable => LoadPlan::SetAsideAndWriteDefault,
        FileRead::NotFound => LoadPlan::WriteDefault,
        FileRead::Failed => LoadPlan::Exit,
    }
}

/// The extension under which a bad file is put aside at a try: `bak`, then `bak.1`, `bak.2`, ...
pub open spec fn backup_extension_text(attempt: nat) -> Seq<char> {
    if attempt == 0 {
        "bak"@
    } else {
        "bak."@ + decimal(attempt)
    }
}

/// The extension under which a bad file is put aside at a try.
pub fn backup_extension(attempt: u32) -> (r: String)
    ensures
        r@ == backup_extension_text(attempt as nat),
{
    if attempt == 0 {
        "bak".to_owned()
    } else {
        join2("bak.", decimal_text(attempt as u64).as_str())
    }
}

/// The configuration in use.
#[derive(Debug)]
pub struct ConfigHandle {
    pub inner: NodeConfig,
}

/// Whether some entry of that name requires authorization.
pub open spec fn requires_auth(services: Seq<LocalServiceEntry>, name: Seq<char>) -> bool {
    exists|i: int| 0 <= i < services.len() && (#[trigger] services[i]).name@ == name && services[i].require_auth
}

/// The names of the entries that require authorization, in order.
pub open spec fn required_names(services: Seq<LocalServiceEntry>) -> Seq<Seq<char>>
    decreases services.len(),
{
    if services.len() == 0 {
        Seq::empty()
    } else if services.last().require_auth {
        required_names(services.drop_last()).push(services.last().name@)
    } else {
        required_names(services.drop_last())
    }
}

/// Whether entry `i` is the first of that name.
pub open spec fn first_named(services: Seq<LocalServiceEntry>, name: Seq<char>, i: int) -> bool {
    &&& 0 <= i < services.len()
    &&& services[i].name@ == name
    &&& forall|j: int| 0 <= j < i ==> (#[trigger] services[j]).name@ != name
}

impl ConfigHandle {
    /// A handle on a configuration.
    pub fn new(config: NodeConfig) -> (r: Self)
        ensures
            r.inner == config,
    {
        ConfigHandle { inner: config }
    }

    /// The configuration.
    pub fn read(&self) -> (r: &NodeConfig)
        ensures
            *r == self.inner,
    {
        &self.inner
    }

    /// The configuration, to be changed.
    pub fn write(&mut self) -> (r: &mut NodeConfig)
        ensures
            *r == old(self).inner,
            final(self).inner == *final(r),
    {
        &mut self.inner
    }

    /// Whether the node may serve as a bootstrap node.
    pub fn allow_bootstrap(&self) -> (r: bool)
        ensures
            r == self.inner.node.allow_bootstrap,
    {
        self.inner.node.allow_bootstrap
    }

    /// Whether ping is on.
    pub fn ping_enabled(&self) -> (r: bool)
        ensures
            r == self.inner.services.ping.enabled,
    {
        self.inner.services.ping.enabled
    }

    /// The seconds between two pings.
    pub fn ping_interval(&self) -> (r: u32)
        ensures
            r == self.inner.services.ping.interval_secs,
    {
        self.inner.services.ping.interval_secs
    }

    /// After how many seconds a ping has failed.
    pub fn ping_timeout(&self) -> (r: u32)
        ensures
            r == self.inner.services.ping.with_timeout,
    {
        self.inner.services.ping.with_timeout
    }

    /// How many failed pings in a row cut a connection.
    pub fn ping_max_failures(&self) -> (r: u32)
        ensures
            r == self.inner.services.ping.max_failures,
    {
        self.inner.services.ping.max_failures
    }

    /// Whether the dispatcher is on.
    pub fn dispatcher_enabled(&self) -> (r: bool)
        ensures
            r == self.inner.services.dispatcher.enabled,
    {
        self.inner.services.dispatcher.enabled
    }

    /// For how many seconds the dispatcher waits.
    pub fn dispatcher_query_timeout(&self) -> (r: u32)
        ensures
            r == self.inner.services.dispatcher.query_timeout_secs,
    {
        self.inner.services.dispatcher.query_timeout_secs
    }

    /// The seconds between two relay checks.
    pub fn relay_retry_interval(&self) -> (r: u32)
        ensures
            r == self.inner.services.relay.retry_interval_secs,
    {
        self.inner.services.relay.retry_interval_secs
    }

    /// How many failed reservations in a row take a node out.
    pub fn relay_max_failures(&self) -> (r: u32)
        ensures
            r == self.inner.services.relay.max_failures,
    {
        self.inner.services.relay.max_failures
    }

    /// Whether requests are encrypted.
    pub fn pq_transport_enabled(&self) -> (r: bool)
        ensures
            r == self.inner.crypto.pq_transport_enabled,
    {
        self.inner.crypto.pq_transport_enabled
    }

    /// Whether requests are signed.
    pub fn pq_identity_enabled(&self) -> (r: bool)
        ensures
            r == self.inner.crypto.pq_identity_enabled,
    {
        self.inner.crypto.pq_identity_enabled
    }

    /// Whether unencrypted requests are refused.
    pub fn pq_required(&self) -> (r: bool)
        ensures
            r == self.inner.crypto.pq_required,
    {
        self.inner.crypto.pq_required
    }

    /// For how many seconds a kept record counts.
    pub fn auth_cache_ttl(&self) -> (r: u32)
        ensures
            r == self.inner.auth.cache_ttl_secs,
    {
        self.inner.auth.cache_ttl_secs
    }

    /// The seconds between two refreshes of records.
    pub fn auth_refresh_interval(&self) -> (r: u32)
        ensures
            r == self.inner.auth.refresh_interval_secs,
    {
        self.inner.auth.refresh_interval_secs
    }

    /// Whether the distributed table is on.
    pub fn kademlia_enabled(&self) -> (r: bool)
        ensures
            r == self.inner.services.kademlia.enabled,
    {
        self.inner.services.kademlia.enabled
    }

    /// For how many seconds a record lives.
    pub fn kademlia_record_ttl(&self) -> (r: u32)
        ensures
            r == self.inner.services.kademlia.record_ttl_seconds,
    {
        self.inner.services.kademlia.record_ttl_seconds
    }

    /// How many peers keep a record.
    pub fn kademlia_replication_factor(&self) -> (r: u32)
        ensures
            r == self.inner.services.kademlia.replication_factor,
    {
        self.inner.services.kademlia.replication_factor
    }

    /// For how many seconds a query may run.
    pub fn kademlia_query_timeout(&self) -> (r: u32)
        ensures
            r == self.inner.services.kademlia.query_timeout_seconds,
    {
        self.inner.services.kademlia.query_timeout_seconds
    }

    /// The port that the node listens on.
    pub fn listen_port(&self) -> (r: u32)
        ensures
            r == self.inner.network.port,
    {
        self.inner.network.port
    }

    /// Whether the node listens on IPv4.
    pub fn ipv4_enabled(&self) -> (r: bool)
        ensures
            r == self.inner.network.ipv4_enabled,
    {
        self.inner.network.ipv4_enabled
    }

    /// Whether the post-quantum layer is on, for encryption or for signatures.
    pub fn pq_enabled(&self) -> (r: bool)
        ensures
            r == (self.inner.crypto.pq_transport_enabled || self.inner.crypto.pq_identity_enabled),
    {
        self.inner.crypto.pq_transport_enabled || self.inner.crypto.pq_identity_enabled
    }

    /// The network whose authorization counts.
    pub fn auth_network(&self) -> (r: String)
        ensures
            r@ == self.inner.auth.network@,
    {
        self.inner.auth.network.clone()
    }

    /// The base64 text of a network's authority.
    pub fn auth_authority(&self, network: &str) -> (r: Option<String>)
        ensures
            r == (if self.inner.auth.networks@.dom().contains(network@) {
                Some(self.inner.auth.networks@[network@].authority)
            } else {
                None
            }),
    {
        match self.inner.auth.networks.get(network) {
            Some(n) => Some(n.authority.clone()),
            None => None,
        }
    }

    /// The names of the local services that require authorization.
    pub fn auth_required_services(&self) -> (r: Vec<String>)
        ensures
            text_views(r@) == required_names(self.inner.services.dispatcher.local_services@),
    {
        let services = &self.inner.services.dispatcher.local_services;
        let mut out: Vec<String> = Vec::new();
        let mut i: usize = 0;
        assert(services@.subrange(0, 0) =~= Seq::<LocalServiceEntry>::empty());
        assert(text_views(out@) =~= required_names(services@.subrange(0, 0)));
        while i < services.len()
            invariant
                i <= services@.len(),
                text_views(out@) == required_names(services@.subrange(0, i as int)),
            decreases services@.len() - i,
        {
            proof {
                let upto = services@.subrange(0, i + 1);
                assert(upto.drop_last() =~= services@.subrange(0, i as int));
                assert(upto.last() == services@[i as int]);
            }
            if services[i].require_auth {
                let ghost before = out@;
                out.push(services[i].name.clone());
                assert(text_views(out@) =~= text_views(before).push(services@[i as int].name@));
            }
            i += 1;
        }
        assert(services@.subrange(0, services@.len() as int) =~= services@);
        out
    }

    /// Whether some local service of that name requires authorization.
    pub fn service_requires_auth(&self, name: &str) -> (r: bool)
        ensures
            r == requires_auth(self.inner.services.dispatcher.local_services@, name@),
    {
        let services = &self.inner.services.dispatcher.local_services;
        let mut i: usize = 0;
        while i < services.len()
            invariant
                i <= services@.len(),
                services@ == self.inner.services.dispatcher.local_services@,
                forall|j: int| 0 <= j < i ==> !((#[trigger] services@[j]).name@ == name@ && services@[j].require_auth),
            decreases services@.len() - i,
        {
            if same_text(services[i].name.as_str(), name) && services[i].require_auth {
                assert(services@[i as int].name@ == name@);
                return true;
            }
            i += 1;
        }
        false
    }

    /// The bootstrap nodes.
    pub fn bootstrap_nodes(&self) -> (r: Vec<Multiaddr>)
        ensures
            addr_views(r@) == addr_views(self.inner.services.kademlia.bootstrap_nodes@),
    {
        copy_addrs(&self.inner.services.kademlia.bootstrap_nodes)
    }

    /// Turns ping on or off.
    pub fn set_ping_enabled(&mut self, enabled: bool)
        ensures
            final(self).inner == (NodeConfig {
                services: ServicesConfig {
                    ping: PingService { enabled, ..old(self).inner.services.ping },
                    ..old(self).inner.services
                },
                ..old(self).inner
            }),
    {
        self.inner.services.ping.enabled = enabled;
    }

    /// Sets the seconds between two pings.
    pub fn set_ping_interval(&mut self, secs: u32)
        ensures
            final(self).inner == (NodeConfig {
                services: ServicesConfig {
                    ping: PingService { interval_secs: secs, ..old(self).inner.services.ping },
                    ..old(self).inner.services
                },
                ..old(self).inner
            }),
    {
        self.inner.services.ping.interval_secs = secs;
    }

    /// Turns the distributed table on or off.
    pub fn set_kademlia_enabled(&mut self, enabled: bool)
        ensures
            final(self).inner == (NodeConfig {
                services: ServicesConfig {
                    kademlia: KademliaService { enabled, ..old(self).inner.services.kademlia },
                    ..old(self).inner.services
                },
                ..old(self).inner
            }),
    {
        self.inner.services.kademlia.enabled = enabled;
    }

    /// Sets for how many seconds a record lives.
    pub fn set_kademlia_record_ttl(&mut self, ttl_secs: u32)
        ensures
            final(self).inner == (NodeConfig {
                services: ServicesConfig {
                    kademlia: KademliaService { record_ttl_seconds: ttl_secs, ..old(self).inner.services.kademlia },
                    ..old(self).inner.services
                },
                ..old(self).inner
            }),
    {
        self.inner.services.kademlia.record_ttl_seconds = ttl_secs;
    }

    /// Sets how many peers keep a record.
    pub fn set_kademlia_replication_factor(&mut self, factor: u32)
        ensures
            final(self).inner == (NodeConfig {
                services: ServicesConfig {
                    kademlia: KademliaService { replication_factor: factor, ..old(self).inner.services.kademlia },
                    ..old(self).inner.services
                },
                ..old(self).inner
            }),
    {
        self.inner.services.kademlia.replication_factor = factor;
    }

    /// Sets for how many seconds a query may run.
    pub fn set_kademlia_query_timeout(&mut self, timeout_secs: u32)
        ensures
            final(self).inner == (NodeConfig {
                services: ServicesConfig {
                    kademlia: KademliaService { query_timeout_seconds: timeout_secs, ..old(self).inner.services.kademlia },
                    ..old(self).inner.services
                },
                ..old(self).inner
            }),
    {
        self.inner.services.kademlia.query_timeout_seconds = timeout_secs;
    }

    /// Sets the bootstrap nodes.
    pub fn set_bootstrap_nodes(&mut self, nodes: Vec<Multiaddr>)
        ensures
            final(self).inner == (NodeConfig {
                services: ServicesConfig {
                    kademlia: KademliaService { bootstrap_nodes: nodes, ..old(self).inner.services.kademlia },
                    ..old(self).inner.services
                },
                ..old(self).inner
            }),
    {
        self.inner.services.kademlia.bootstrap_nodes = nodes;
    }

    /// Sets the port that the node listens on.
    pub fn set_listen_port(&mut self, port: u32)
        ensures
            final(self).inner == (NodeConfig { network: NetworkConfig { port: port, ..old(self).inner.network }, ..old(self).inner }),
    {
        self.inner.network.port = port;
    }

    /// Turns listening on IPv4 on or off, and sets the address.
    pub fn set_ipv4(&mut self, enabled: bool, address: Option<IpAddr>)
        ensures
            final(self).inner == (NodeConfig {
                network: NetworkConfig { ipv4_enabled: enabled, ipv4_address: address, ..old(self).inner.network },
                ..old(self).inner
            }),
    {
        self.inner.network.ipv4_enabled = enabled;
        self.inner.network.ipv4_address = address;
    }

    /// Sets whether the first local service of that name requires authorization; says whether that
    /// changed anything.
    pub fn set_service_require_auth(&mut self, name: &str, require_auth: bool) -> (r: bool)
        ensures
            ({
                let before = old(self).inner.services.dispatcher.local_services@;
                let after = final(self).inner.services.dispatcher.local_services@;
                &&& after.len() == before.len()
                &&& r <==> exists|i: int| #[trigger] first_named(before, name@, i) && before[i].require_auth != require_auth
                &&& forall|i: int| 0 <= i < before.len() ==> #[trigger] after[i] == (if first_named(before, name@, i) {
                    LocalServiceEntry { require_auth, ..before[i] }
                } else {
                    before[i]
                })
            }),
            final(self).inner == (NodeConfig {
                services: ServicesConfig {
                    dispatcher: DispatcherConfig {
                        local_services: final(self).inner.services.dispatcher.local_services,
                        ..old(self).inner.services.dispatcher
                    },
                    ..old(self).inner.services
                },
                ..old(self).inner
            }),
    {
        let ghost before = self.inner.services.dispatcher.local_services@;
        let mut i: usize = 0;
        while i < self.inner.services.dispatcher.local_services.len()
            invariant
                *self == *old(self),
                before == self.inner.services.dispatcher.local_services@,
                i <= before.len(),
                forall|j: int| 0 <= j < i ==> (#[trigger] before[j]).name@ != name@,
            decreases before.len() - i,
        {
            if same_text(self.inner.services.dispatcher.local_services[i].name.as_str(), name) {
                let changed = self.inner.services.dispatcher.local_services[i].require_auth != require_auth;
                self.inner.services.dispatcher.local_services[i].require_auth = require_auth;
                proof {
                    assert(first_named(before, name@, i as int));
                    let after = self.inner.services.dispatcher.local_services@;
                    assert(after =~= before.update(i as int, LocalServiceEntry { require_auth, ..before[i as int] }));
                }
                return changed;
            }
            i += 1;
        }
        false
    }

    /// Takes another configuration into use.
    pub fn replace_config(&mut self, new_config: NodeConfig)
        ensures
            final(self).inner == new_config,
    {
        self.inner = new_config;
    }

    /// A copy of the configuration.
    pub fn snapshot(&self) -> (r: NodeConfig)
        ensures
            same_config(r, self.inner),
    {
        self.inner.copy()
    }
}

/// A service requires authorization exactly when some local service of that name does.
pub proof fn required_services_are_configured(services: Seq<LocalServiceEntry>, name: Seq<char>)
    ensures
        requires_auth(services, name) <==> exists|i: int|
            0 <= i < services.len() && (#[trigger] services[i]).name@ == name && services[i].require_auth,
        requires_auth(services, name) <==> required_names(services).contains(name),
{
    required_names_are_exact(services);
}

/// The names that require authorization are exactly those of the entries that do, in order.
pub proof fn required_names_are_exact(services: Seq<LocalServiceEntry>)
    ensures
        required_names(services) == services.filter(|e: LocalServiceEntry| e.require_auth).map_values(
            |e: LocalServiceEntry| e.name@,
        ),
        forall|n: Seq<char>| #[trigger] required_names(services).contains(n) <==> exists|i: int|
            0 <= i < services.len() && (#[trigger] services[i]).name@ == n && services[i].require_auth,
    decreases services.len(),
{
    reveal(Seq::filter);
    let keep = |e: LocalServiceEntry| e.require_auth;
    let name = |e: LocalServiceEntry| e.name@;
    if services.len() == 0 {
        assert(required_names(services) =~= services.filter(keep).map_values(name));
    } else {
        let rest = services.drop_last();
        required_names_are_exact(rest);
        assert(required_names(services) =~= services.filter(keep).map_values(name));
        let a = required_names(rest);
        let b = required_names(services);
        assert forall|n: Seq<char>| #[trigger] b.contains(n) <==> exists|i: int|
            0 <= i < services.len() && (#[trigger] services[i]).name@ == n && services[i].require_auth by {
            if a.contains(n) {
                let k = choose|k: int| 0 <= k < a.len() && a[k] == n;
                assert(b[k] == n);
                let i = choose|i: int| 0 <= i < rest.len() && (#[trigger] rest[i]).name@ == n && rest[i].require_auth;
                assert(services[i].name@ == n);
            }
            if b.contains(n) && !a.contains(n) {
                let k = choose|k: int| 0 <= k < b.len() && b[k] == n;
                if k < a.len() {
                    assert(a[k] == n);
                }
                assert(services[services.len() - 1].name@ == n);
            }
            if exists|i: int| 0 <= i < services.len() && (#[trigger] services[i]).name@ == n && services[i].require_auth {
                let i = choose|i: int| 0 <= i < services.len() && (#[trigger] services[i]).name@ == n && services[i].require_auth;
                if i < rest.len() {
                    assert(rest[i].name@ == n);
                } else {
                    assert(b[b.len() - 1] == n);
                }
            }
        }
    }
}

/// The defaults of a configuration.
pub proof fn defaults_are_these(c: NodeConfig)
    requires
        default_config(c),
    ensures
        c.node.name@ == "未设置的p2p节点"@ && c.node.description@ == "无详细描述"@ && c.node.allow_bootstrap,
        !c.network.ipv4_enabled && !c.network.ipv6_enabled && c.network.ipv4_address is None && c.network.ipv6_address is None,
        c.network.port == 5000 && c.network.announce_addresses@.len() == 0,
        c.services.ping.enabled && c.services.ping.interval_secs == 15 && c.services.ping.with_timeout == 10
            && c.services.ping.max_failures == 2,
        c.services.kademlia.enabled && c.services.kademlia.record_ttl_seconds == 3600 && c.services.kademlia.replication_factor
            == 20 && c.services.kademlia.query_timeout_seconds == 60 && c.services.kademlia.bootstrap_nodes@.len() == 0,
        c.services.dispatcher.enabled && c.services.dispatcher.query_timeout_secs == 60 && c.services.dispatcher.record_ttl_secs
            == 3600 && c.services.dispatcher.local_services@.len() == 0,
        c.services.relay.retry_interval_secs == 60 && c.services.relay.max_failures == 3,
        !c.crypto.pq_transport_enabled && !c.crypto.pq_identity_enabled && !c.crypto.pq_required,
        c.auth.network@ == "none"@ && c.auth.cache_ttl_secs == 300 && c.auth.refresh_interval_secs == 60,
        c.auth.networks@ == Map::<Seq<char>, AuthNetworkConfig>::empty(),
{
}

/// A bad file is put aside as `bak`, then `bak.1`, and so on; and two configurations that are the same
/// agree in what is said of services and authorities.
pub proof fn configurations_agree(attempt: nat, a: NodeConfig, b: NodeConfig, k: Seq<char>, i: int)
    ensures
        backup_extension_text(0) == "bak"@,
        attempt > 0 ==> backup_extension_text(attempt) == "bak."@ + decimal(attempt),
        authorities(a.auth.networks@).dom() == a.auth.networks@.dom(),
        a.auth.networks@.dom().contains(k) ==> authorities(a.auth.networks@)[k] == a.auth.networks@[k].authority@,
        service_views(a.services.dispatcher.local_services@).len() == a.services.dispatcher.local_services@.len(),
        0 <= i < a.services.dispatcher.local_services@.len() ==> service_views(a.services.dispatcher.local_services@)[i]
            == a.services.dispatcher.local_services@[i]@,
        same_config(a, b) ==> a.node.name@ == b.node.name@ && a.network.port == b.network.port && addr_views(
            a.services.kademlia.bootstrap_nodes@,
        ) == addr_views(b.services.kademlia.bootstrap_nodes@) && a.services.ping == b.services.ping && a.services.relay
            == b.services.relay && a.crypto == b.crypto && a.auth.network@ == b.auth.network@ && service_views(
            a.services.dispatcher.local_services@,
        ) == service_views(b.services.dispatcher.local_services@) && authorities(a.auth.networks@) == authorities(
            b.auth.networks@,
        ),
{
    assert(authorities(a.auth.networks@).dom() =~= a.auth.networks@.dom());
}

/// A service requires authorization exactly when an entry of its name does; and the first entry of a
/// name is the one with no other of that name before it.
pub proof fn entries_are_found_by_name(services: Seq<LocalServiceEntry>, name: Seq<char>, i: int)
    ensures
        requires_auth(services, name) <==> exists|j: int|
            0 <= j < services.len() && (#[trigger] services[j]).name@ == name && services[j].require_auth,
        first_named(services, name, i) <==> 0 <= i < services.len() && services[i].name@ == name && !exists|j: int|
            0 <= j < i && (#[trigger] services[j]).name@ == name,
{
}

/// What a local service says is what its fields hold.
pub proof fn local_services_say_their_fields(e: LocalServiceEntry)
    ensures
        e@.name == e.name@ && e@.host == e.host@ && e@.port == e.port && e@.require_auth == e.require_auth,
{
}

} // verus!
