//! The configuration as a TOML file: what is missing in it has its default.
//!
//! A section is a table with its fields by name, or a list with its fields by place.

use crate::config::{
    authorities, service_views, same_config, AuthConfig, AuthNetworkConfig, CryptoConfig,
    DispatcherConfig, KademliaService, LocalServiceEntry, LocalServiceView, NetworkConfig,
    NodeConfig, NodeInfo, PingService, RelayService, ServicesConfig,
};
use crate::members::{last_place, last_place_is_last};
use crate::multiaddr::{
    addr_of_text, addr_text, addr_views, ip_display, ip_of_text, reads_back, IpAddr, Multiaddr, Part,
};
use crate::name_map::NameMap;
use crate::toml_tree::{
    array_view, bool_or, fields_of, flat, list_or_empty, list_texts, name_views, parse_toml,
    plain_toml, read_bool_or, read_fields, read_section, read_text_or, read_uint_or, section,
    table_or_empty, table_view, text_or, texts_in_list, toml_get, toml_reading, toml_views, uint_or,
    write_toml, TableBuilder, Toml, TomlView,
};
use crate::text::text_views;
use vstd::prelude::*;
use vstd::string::*;

verus! {

/// The fields of the `node` section, in order.
pub open spec fn node_fields() -> Seq<Seq<char>> {
    seq!["name"@, "description"@, "allow_bootstrap"@]
}

/// The fields of the `network` section, in order.
pub open spec fn network_fields() -> Seq<Seq<char>> {
    seq!["ipv4_enabled"@, "ipv4_address"@, "ipv6_enabled"@, "ipv6_address"@, "port"@, "announce_addresses"@]
}

/// The fields of the `services` section, in order.
pub open spec fn services_fields() -> Seq<Seq<char>> {
    seq!["ping"@, "kademlia"@, "dispatcher"@, "relay"@]
}

/// The fields of the `services.ping` section, in order.
pub open spec fn ping_fields() -> Seq<Seq<char>> {
    seq!["enabled"@, "interval_secs"@, "with_timeout"@, "max_failures"@]
}

/// The fields of the `services.kademlia` section, in order.
pub open spec fn kademlia_fields() -> Seq<Seq<char>> {
    seq!["enabled"@, "record_ttl_seconds"@, "replication_factor"@, "query_timeout_seconds"@, "bootstrap_nodes"@]
}

/// The fields of the `services.dispatcher` section, in order.
pub open spec fn dispatcher_fields() -> Seq<Seq<char>> {
    seq!["enabled"@, "query_timeout_secs"@, "record_ttl_secs"@, "local_services"@]
}

/// The fields of the `services.relay` section, in order.
pub open spec fn relay_fields() -> Seq<Seq<char>> {
    seq!["retry_interval_secs"@, "max_failures"@]
}

/// The fields of the `crypto` section, in order.
pub open spec fn crypto_fields() -> Seq<Seq<char>> {
    seq!["pq_transport_enabled"@, "pq_identity_enabled"@, "pq_required"@]
}

/// The fields of the `auth` section, in order.
pub open spec fn auth_fields() -> Seq<Seq<char>> {
    seq!["network"@, "cache_ttl_secs"@, "refresh_interval_secs"@, "networks"@]
}

/// The fields of a local service, in order.
pub open spec fn local_service_fields() -> Seq<Seq<char>> {
    seq!["name"@, "host"@, "port"@, "require_auth"@]
}

/// The fields of a network with an authority, in order.
pub open spec fn authority_fields() -> Seq<Seq<char>> {
    seq!["authority"@]
}

/// The IP address of a member, if there is one; nothing where it is none.
pub open spec fn ip_or_none(m: Map<Seq<char>, TomlView>, name: Seq<char>) -> Option<Option<IpAddr>> {
    if !m.dom().contains(name) {
        Some(None)
    } else {
        match m[name] {
            TomlView::Text(t) => match ip_of_text(t) {
                Some(ip) => Some(Some(ip)),
                None => None,
            },
            _ => None,
        }
    }
}

/// The addresses that texts are, if each is one.
pub open spec fn addrs_of(texts: Seq<Seq<char>>) -> Option<Seq<Seq<Part>>> {
    if forall|i: int| 0 <= i < texts.len() ==> addr_of_text(#[trigger] texts[i]) is Ok {
        Some(texts.map_values(|t: Seq<char>| addr_of_text(t)->Ok_0))
    } else {
        None
    }
}

/// The addresses of a list; nothing where an element is none.
pub open spec fn addrs_or_empty(m: Map<Seq<char>, TomlView>, name: Seq<char>) -> Option<Seq<Seq<Part>>> {
    match list_or_empty(m, name) {
        Some(s) => match list_texts(s) {
            Some(texts) => addrs_of(texts),
            None => None,
        },
        None => None,
    }
}

/// The local service that a value says: name, host and port must be there.
pub open spec fn local_service_of(t: TomlView) -> Option<LocalServiceView> {
    match fields_of(t, local_service_fields()) {
        Some(m) => {
            let have = m.dom().contains("name"@) && m.dom().contains("host"@) && m.dom().contains("port"@);
            match (
                text_or(m, "name"@, Seq::empty()),
                text_or(m, "host"@, Seq::empty()),
                uint_or(m, "port"@, 0),
                bool_or(m, "require_auth"@, false),
            ) {
                (Some(name), Some(host), Some(port), Some(require_auth)) => if have && port <= u16::MAX {
                    Some(LocalServiceView { name, host, port: port as u16, require_auth })
                } else {
                    None
                },
                _ => None,
            }
        },
        None => None,
    }
}

/// The local services of a list; nothing where an element is none.
pub open spec fn local_services_of(s: Seq<TomlView>) -> Option<Seq<LocalServiceView>> {
    if forall|i: int| 0 <= i < s.len() ==> local_service_of(#[trigger] s[i]) is Some {
        Some(s.map_values(|t: TomlView| local_service_of(t)->0))
    } else {
        None
    }
}

/// The text of the authority that a value says.
pub open spec fn authority_in(t: TomlView) -> Option<Seq<char>> {
    match fields_of(t, authority_fields()) {
        Some(m) => text_or(m, "authority"@, Seq::empty()),
        None => None,
    }
}

/// The texts of the authorities that values say, by network; nothing where one says none.
pub open spec fn authorities_of(m: Map<Seq<char>, TomlView>) -> Option<Map<Seq<char>, Seq<char>>> {
    if forall|k: Seq<char>| #[trigger] m.dom().contains(k) ==> authority_in(m[k]) is Some {
        Some(Map::new(|k: Seq<char>| m.dom().contains(k), |k: Seq<char>| authority_in(m[k])->0))
    } else {
        None
    }
}

/// Whether the `node` section says who the node is.
pub open spec fn node_said(m: Map<Seq<char>, TomlView>, c: NodeInfo) -> bool {
    &&& text_or(m, "name"@, "未设置的p2p节点"@) == Some(c.name@)
    &&& text_or(m, "description"@, "无详细描述"@) == Some(c.description@)
    &&& bool_or(m, "allow_bootstrap"@, true) == Some(c.allow_bootstrap)
}

/// Whether every field of the `node` section has its kind.
pub open spec fn node_valid(m: Map<Seq<char>, TomlView>) -> bool {
    &&& text_or(m, "name"@, "未设置的p2p节点"@) is Some
    &&& text_or(m, "description"@, "无详细描述"@) is Some
    &&& bool_or(m, "allow_bootstrap"@, true) is Some
}

/// Whether the `network` section says where the node listens.
pub open spec fn network_said(m: Map<Seq<char>, TomlView>, c: NetworkConfig) -> bool {
    &&& bool_or(m, "ipv4_enabled"@, false) == Some(c.ipv4_enabled)
    &&& ip_or_none(m, "ipv4_address"@) == Some(c.ipv4_address)
    &&& bool_or(m, "ipv6_enabled"@, false) == Some(c.ipv6_enabled)
    &&& ip_or_none(m, "ipv6_address"@) == Some(c.ipv6_address)
    &&& uint_or(m, "port"@, 5000) == Some(c.port)
    &&& addrs_or_empty(m, "announce_addresses"@) == Some(addr_views(c.announce_addresses@))
}

/// Whether every field of the `network` section has its kind.
pub open spec fn network_valid(m: Map<Seq<char>, TomlView>) -> bool {
    &&& bool_or(m, "ipv4_enabled"@, false) is Some
    &&& ip_or_none(m, "ipv4_address"@) is Some
    &&& bool_or(m, "ipv6_enabled"@, false) is Some
    &&& ip_or_none(m, "ipv6_address"@) is Some
    &&& uint_or(m, "port"@, 5000) is Some
    &&& addrs_or_empty(m, "announce_addresses"@) is Some
}

/// Whether the `services.ping` section says the settings of ping.
pub open spec fn ping_said(m: Map<Seq<char>, TomlView>, c: PingService) -> bool {
    &&& bool_or(m, "enabled"@, true) == Some(c.enabled)
    &&& uint_or(m, "interval_secs"@, 15) == Some(c.interval_secs)
    &&& uint_or(m, "with_timeout"@, 10) == Some(c.with_timeout)
    &&& uint_or(m, "max_failures"@, 2) == Some(c.max_failures)
}

/// Whether every field of the `services.ping` section has its kind.
pub open spec fn ping_valid(m: Map<Seq<char>, TomlView>) -> bool {
    &&& bool_or(m, "enabled"@, true) is Some
    &&& uint_or(m, "interval_secs"@, 15) is Some
    &&& uint_or(m, "with_timeout"@, 10) is Some
    &&& uint_or(m, "max_failures"@, 2) is Some
}

/// Whether the `services.kademlia` section says the settings of the distributed table.
pub open spec fn kademlia_said(m: Map<Seq<char>, TomlView>, c: KademliaService) -> bool {
    &&& bool_or(m, "enabled"@, true) == Some(c.enabled)
    &&& uint_or(m, "record_ttl_seconds"@, 3600) == Some(c.record_ttl_seconds)
    &&& uint_or(m, "replication_factor"@, 20) == Some(c.replication_factor)
    &&& uint_or(m, "query_timeout_seconds"@, 60) == Some(c.query_timeout_seconds)
    &&& addrs_or_empty(m, "bootstrap_nodes"@) == Some(addr_views(c.bootstrap_nodes@))
}

/// Whether every field of the `services.kademlia` section has its kind.
pub open spec fn kademlia_valid(m: Map<Seq<char>, TomlView>) -> bool {
    &&& bool_or(m, "enabled"@, true) is Some
    &&& uint_or(m, "record_ttl_seconds"@, 3600) is Some
    &&& uint_or(m, "replication_factor"@, 20) is Some
    &&& uint_or(m, "query_timeout_seconds"@, 60) is Some
    &&& addrs_or_empty(m, "bootstrap_nodes"@) is Some
}

/// The local services of the `services.dispatcher` section.
pub open spec fn dispatched(m: Map<Seq<char>, TomlView>) -> Option<Seq<LocalServiceView>> {
    match list_or_empty(m, "local_services"@) {
        Some(s) => local_services_of(s),
        None => None,
    }
}

/// Whether the `services.dispatcher` section says the settings of the dispatcher.
pub open spec fn dispatcher_said(m: Map<Seq<char>, TomlView>, c: DispatcherConfig) -> bool {
    &&& bool_or(m, "enabled"@, true) == Some(c.enabled)
    &&& uint_or(m, "query_timeout_secs"@, 60) == Some(c.query_timeout_secs)
    &&& uint_or(m, "record_ttl_secs"@, 3600) == Some(c.record_ttl_secs)
    &&& dispatched(m) == Some(service_views(c.local_services@))
}

/// Whether every field of the `services.dispatcher` section has its kind.
pub open spec fn dispatcher_valid(m: Map<Seq<char>, TomlView>) -> bool {
    &&& bool_or(m, "enabled"@, true) is Some
    &&& uint_or(m, "query_timeout_secs"@, 60) is Some
    &&& uint_or(m, "record_ttl_secs"@, 3600) is Some
    &&& dispatched(m) is Some
}

/// Whether the `services.relay` section says the settings of relay reservations.
pub open spec fn relay_said(m: Map<Seq<char>, TomlView>, c: RelayService) -> bool {
    &&& uint_or(m, "retry_interval_secs"@, 60) == Some(c.retry_interval_secs)
    &&& uint_or(m, "max_failures"@, 3) == Some(c.max_failures)
}

/// Whether every field of the `services.relay` section has its kind.
pub open spec fn relay_valid(m: Map<Seq<char>, TomlView>) -> bool {
    &&& uint_or(m, "retry_interval_secs"@, 60) is Some
    &&& uint_or(m, "max_failures"@, 3) is Some
}

/// Whether the `crypto` section says the settings of the post-quantum layer.
pub open spec fn crypto_said(m: Map<Seq<char>, TomlView>, c: CryptoConfig) -> bool {
    &&& bool_or(m, "pq_transport_enabled"@, false) == Some(c.pq_transport_enabled)
    &&& bool_or(m, "pq_identity_enabled"@, false) == Some(c.pq_identity_enabled)
    &&& bool_or(m, "pq_required"@, false) == Some(c.pq_required)
}

/// Whether every field of the `crypto` section has its kind.
pub open spec fn crypto_valid(m: Map<Seq<char>, TomlView>) -> bool {
    &&& bool_or(m, "pq_transport_enabled"@, false) is Some
    &&& bool_or(m, "pq_identity_enabled"@, false) is Some
    &&& bool_or(m, "pq_required"@, false) is Some
}

/// The authorities of the `auth` section.
pub open spec fn anchors(m: Map<Seq<char>, TomlView>) -> Option<Map<Seq<char>, Seq<char>>> {
    match table_or_empty(m, "networks"@) {
        Some(n) => authorities_of(n),
        None => None,
    }
}

/// Whether the `auth` section says the settings of authorization.
pub open spec fn auth_said(m: Map<Seq<char>, TomlView>, c: AuthConfig) -> bool {
    &&& text_or(m, "network"@, "none"@) == Some(c.network@)
    &&& uint_or(m, "cache_ttl_secs"@, 300) == Some(c.cache_ttl_secs)
    &&& uint_or(m, "refresh_interval_secs"@, 60) == Some(c.refresh_interval_secs)
    &&& anchors(m) == Some(authorities(c.networks@))
}

/// Whether every field of the `auth` section has its kind.
pub open spec fn auth_valid(m: Map<Seq<char>, TomlView>) -> bool {
    &&& text_or(m, "network"@, "none"@) is Some
    &&& uint_or(m, "cache_ttl_secs"@, 300) is Some
    &&& uint_or(m, "refresh_interval_secs"@, 60) is Some
    &&& anchors(m) is Some
}

/// Whether a table says a configuration: each field that is there, and the default of each that is
/// missing. Fields that are not known are passed over.
pub open spec fn config_said(m: Map<Seq<char>, TomlView>, c: NodeConfig) -> bool {
    match (
        section(m, "node"@, node_fields()),
        section(m, "network"@, network_fields()),
        section(m, "services"@, services_fields()),
        section(m, "crypto"@, crypto_fields()),
        section(m, "auth"@, auth_fields()),
    ) {
        (Some(node), Some(network), Some(services), Some(crypto), Some(auth)) => {
            &&& node_said(node, c.node)
            &&& network_said(network, c.network)
            &&& services_said(services, c.services)
            &&& crypto_said(crypto, c.crypto)
            &&& auth_said(auth, c.auth)
        },
        _ => false,
    }
}

/// Whether the `services` section says the settings of the services.
pub open spec fn services_said(m: Map<Seq<char>, TomlView>, c: ServicesConfig) -> bool {
    match (section(m, "ping"@, ping_fields()), section(m, "kademlia"@, kademlia_fields()), section(m, "dispatcher"@, dispatcher_fields()), section(m, "relay"@, relay_fields())) {
        (Some(ping), Some(kademlia), Some(dispatcher), Some(relay)) => {
            &&& ping_said(ping, c.ping)
            &&& kademlia_said(kademlia, c.kademlia)
            &&& dispatcher_said(dispatcher, c.dispatcher)
            &&& relay_said(relay, c.relay)
        },
        _ => false,
    }
}

/// Whether every field of the `services` section has its kind.
pub open spec fn services_valid(m: Map<Seq<char>, TomlView>) -> bool {
    match (section(m, "ping"@, ping_fields()), section(m, "kademlia"@, kademlia_fields()), section(m, "dispatcher"@, dispatcher_fields()), section(m, "relay"@, relay_fields())) {
        (Some(ping), Some(kademlia), Some(dispatcher), Some(relay)) => {
            &&& ping_valid(ping)
            &&& kademlia_valid(kademlia)
            &&& dispatcher_valid(dispatcher)
            &&& relay_valid(relay)
        },
        _ => false,
    }
}

/// Whether every field of a table has its kind.
pub open spec fn config_valid(m: Map<Seq<char>, TomlView>) -> bool {
    match (
        section(m, "node"@, node_fields()),
        section(m, "network"@, network_fields()),
        section(m, "services"@, services_fields()),
        section(m, "crypto"@, crypto_fields()),
        section(m, "auth"@, auth_fields()),
    ) {
        (Some(node), Some(network), Some(services), Some(crypto), Some(auth)) => {
            &&& node_valid(node)
            &&& network_valid(network)
            &&& services_valid(services)
            &&& crypto_valid(crypto)
            &&& auth_valid(auth)
        },
        _ => false,
    }
}

/// Whether the text of each address reads back as that address.
pub open spec fn storable_addrs(s: Seq<Multiaddr>) -> bool {
    forall|i: int| 0 <= i < s.len() ==> reads_back((#[trigger] s[i])@)
}

/// Whether a configuration can be stored: its addresses read back. Those that were read from texts
/// do.
pub open spec fn storable(c: NodeConfig) -> bool {
    storable_addrs(c.network.announce_addresses@) && storable_addrs(c.services.kademlia.bootstrap_nodes@)
}

fn read_ip(m: &Vec<(String, Toml)>, name: &str) -> (r: Option<Option<IpAddr>>)
    ensures
        r == ip_or_none(table_view(*m), name@),
{
    match toml_get(m, name) {
        None => Some(None),
        Some(Toml::Text(t)) => match IpAddr::from_text(t.as_str()) {
            Some(ip) => Some(Some(ip)),
            None => None,
        },
        Some(_) => None,
    }
}

fn read_list<'a>(m: &'a Vec<(String, Toml)>, name: &str) -> (r: Option<Option<&'a Vec<Toml>>>)
    ensures
        match r {
            Some(Some(v)) => list_or_empty(table_view(*m), name@) == Some(toml_views(v@)),
            Some(None) => list_or_empty(table_view(*m), name@) == Some(Seq::<TomlView>::empty()),
            None => list_or_empty(table_view(*m), name@) is None,
        },
{
    match toml_get(m, name) {
        None => Some(None),
        Some(t) => {
            proof {
                array_view(*t);
            }
            match t {
                Toml::Array(v) => Some(Some(v)),
                _ => None,
            }
        },
    }
}

fn addrs_from(texts: &Vec<String>) -> (r: Option<Vec<Multiaddr>>)
    ensures
        match r {
            Some(v) => addrs_of(text_views(texts@)) == Some(addr_views(v@)) && storable_addrs(v@),
            None => addrs_of(text_views(texts@)) is None,
        },
{
    let ghost all = text_views(texts@);
    let mut out: Vec<Multiaddr> = Vec::new();
    let mut i: usize = 0;
    while i < texts.len()
        invariant
            i <= texts@.len(),
            all == text_views(texts@),
            out@.len() == i,
            forall|j: int| 0 <= j < i ==> addr_of_text(#[trigger] all[j]) == Ok::<Seq<Part>, Seq<char>>(out@[j]@),
            storable_addrs(out@),
        decreases texts@.len() - i,
    {
        assert(all[i as int] == texts@[i as int]@);
        match Multiaddr::from_text(texts[i].as_str()) {
            Ok(a) => out.push(a),
            Err(_) => {
                assert(!(addr_of_text(all[i as int]) is Ok));
                return None;
            },
        }
        i += 1;
    }
    assert(addr_views(out@) =~= all.map_values(|t: Seq<char>| addr_of_text(t)->Ok_0));
    Some(out)
}

fn read_addrs(m: &Vec<(String, Toml)>, name: &str) -> (r: Option<Vec<Multiaddr>>)
    ensures
        match r {
            Some(v) => addrs_or_empty(table_view(*m), name@) == Some(addr_views(v@)) && storable_addrs(v@),
            None => addrs_or_empty(table_view(*m), name@) is None,
        },
{
    match read_list(m, name) {
        None => None,
        Some(None) => {
            let none: Vec<Multiaddr> = Vec::new();
            proof {
                let e = Seq::<TomlView>::empty();
                assert(e.map_values(|t: TomlView| t->Text_0) =~= Seq::<Seq<char>>::empty());
                let t = Seq::<Seq<char>>::empty();
                assert(t.map_values(|t: Seq<char>| addr_of_text(t)->Ok_0) =~= Seq::<Seq<Part>>::empty());
                assert(addr_views(none@) =~= Seq::<Seq<Part>>::empty());
            }
            Some(none)
        },
        Some(Some(v)) => match texts_in_list(v) {
            Some(texts) => addrs_from(&texts),
            None => None,
        },
    }
}

fn local_service_from(t: &Toml) -> (r: Option<LocalServiceEntry>)
    ensures
        match r {
            Some(e) => local_service_of(t@) == Some(e@),
            None => local_service_of(t@) is None,
        },
{
    match read_fields(t, &list_local_service_fields()) {
        Some(m) => {
            let have = toml_get(&m, "name").is_some() && toml_get(&m, "host").is_some() && toml_get(&m, "port").is_some();
            match (
                read_text_or(&m, "name", ""),
                read_text_or(&m, "host", ""),
                read_uint_or(&m, "port", 0),
                read_bool_or(&m, "require_auth", false),
            ) {
                (Some(name), Some(host), Some(port), Some(require_auth)) => if have && port <= u16::MAX as u32 {
                    Some(LocalServiceEntry { name, host, port: port as u16, require_auth })
                } else {
                    None
                },
                _ => None,
            }
        },
        _ => None,
    }
}

fn read_local_services(m: &Vec<(String, Toml)>) -> (r: Option<Vec<LocalServiceEntry>>)
    ensures
        match r {
            Some(v) => dispatched(table_view(*m)) == Some(service_views(v@)),
            None => dispatched(table_view(*m)) is None,
        },
{
    let list = match read_list(m, "local_services") {
        None => {
            return None;
        },
        Some(None) => {
            let none: Vec<LocalServiceEntry> = Vec::new();
            proof {
                let e = Seq::<TomlView>::empty();
                assert(e.map_values(|t: TomlView| local_service_of(t)->0) =~= Seq::<LocalServiceView>::empty());
                assert(service_views(none@) =~= Seq::<LocalServiceView>::empty());
            }
            return Some(none);
        },
        Some(Some(v)) => v,
    };
    let ghost s = toml_views(list@);
    let mut out: Vec<LocalServiceEntry> = Vec::new();
    let mut i: usize = 0;
    while i < list.len()
        invariant
            i <= list@.len(),
            s == toml_views(list@),
            dispatched(table_view(*m)) == local_services_of(s),
            out@.len() == i,
            forall|j: int| 0 <= j < i ==> local_service_of(#[trigger] s[j]) == Some(out@[j]@),
        decreases list@.len() - i,
    {
        match local_service_from(&list[i]) {
            Some(e) => out.push(e),
            None => {
                assert(local_service_of(s[i as int]) is None);
                return None;
            },
        }
        i += 1;
    }
    assert(service_views(out@) =~= s.map_values(|t: TomlView| local_service_of(t)->0));
    Some(out)
}

fn read_networks(m: &Vec<(String, Toml)>) -> (r: Option<NameMap<AuthNetworkConfig>>)
    ensures
        match r {
            Some(v) => anchors(table_view(*m)) == Some(authorities(v@)),
            None => anchors(table_view(*m)) is None,
        },
{
    let networks = match toml_get(m, "networks") {
        None => {
            let none: NameMap<AuthNetworkConfig> = NameMap::new();
            proof {
                let e = Map::<Seq<char>, TomlView>::empty();
                assert(Map::new(|k: Seq<char>| e.dom().contains(k), |k: Seq<char>| authority_in(e[k])->0) =~= authorities(none@));
            }
            return Some(none);
        },
        Some(Toml::Table(v)) => v,
        Some(_) => {
            return None;
        },
    };
    let ghost t = table_view(*networks);
    let mut out: NameMap<AuthNetworkConfig> = NameMap::new();
    let mut i: usize = 0;
    while i < networks.len()
        invariant
            i <= networks@.len(),
            t == table_view(*networks),
            anchors(table_view(*m)) == authorities_of(t),
            forall|k: Seq<char>| #[trigger]
                out@.dom().contains(k) <==> exists|j: int| 0 <= j < i && (#[trigger] networks@[j]).0@ == k,
            forall|k: Seq<char>| #[trigger]
                out@.dom().contains(k) ==> t.dom().contains(k) && authority_in(t[k]) == Some(out@[k].authority@),
        decreases networks@.len() - i,
    {
        let ghost name = networks@[i as int].0@;
        proof {
            last_place_is_last(networks@, name);
            reveal_strlit("");
            assert(""@ =~= Seq::<char>::empty());
        }
        let found = match toml_get(networks, networks[i].0.as_str()) {
            Some(f) => f,
            None => {
                assert(false);
                return None;
            },
        };
        let authority = match read_fields(found, &list_authority_fields()) {
            Some(v) => read_text_or(&v, "authority", ""),
            None => None,
        };
        match authority {
            Some(authority) => {
                let ghost before = out@;
                out.insert(networks[i].0.clone(), AuthNetworkConfig { authority });
                proof {
                    assert forall|k: Seq<char>| #[trigger] out@.dom().contains(k) <==> exists|j: int|
                        0 <= j < i + 1 && (#[trigger] networks@[j]).0@ == k by {
                        if before.dom().contains(k) {
                            let j = choose|j: int| 0 <= j < i && (#[trigger] networks@[j]).0@ == k;
                            assert(networks@[j].0@ == k);
                        }
                        if k == name {
                            assert(networks@[i as int].0@ == k);
                        }
                    }
                }
            },
            None => {
                assert(t.dom().contains(name) && authority_in(t[name]) is None);
                return None;
            },
        }
        i += 1;
    }
    proof {
        assert forall|k: Seq<char>| t.dom().contains(k) == out@.dom().contains(k) by {
            last_place_is_last(networks@, k);
            if t.dom().contains(k) {
                let j = last_place(networks@, k);
                assert(networks@[j].0@ == k);
            }
        }
        assert(Map::new(|k: Seq<char>| t.dom().contains(k), |k: Seq<char>| authority_in(t[k])->0) =~= authorities(out@));
    }
    Some(out)
}

fn list_node_fields() -> (r: Vec<&'static str>)
    ensures
        name_views(r@) == node_fields(),
{
    let r: Vec<&'static str> = vec!["name", "description", "allow_bootstrap"];
    assert(name_views(r@) =~= node_fields());
    r
}

fn list_network_fields() -> (r: Vec<&'static str>)
    ensures
        name_views(r@) == network_fields(),
{
    let r: Vec<&'static str> = vec!["ipv4_enabled", "ipv4_address", "ipv6_enabled", "ipv6_address", "port", "announce_addresses"];
    assert(name_views(r@) =~= network_fields());
    r
}

fn list_services_fields() -> (r: Vec<&'static str>)
    ensures
        name_views(r@) == services_fields(),
{
    let r: Vec<&'static str> = vec!["ping", "kademlia", "dispatcher", "relay"];
    assert(name_views(r@) =~= services_fields());
    r
}

fn list_ping_fields() -> (r: Vec<&'static str>)
    ensures
        name_views(r@) == ping_fields(),
{
    let r: Vec<&'static str> = vec!["enabled", "interval_secs", "with_timeout", "max_failures"];
    assert(name_views(r@) =~= ping_fields());
    r
}

fn list_kademlia_fields() -> (r: Vec<&'static str>)
    ensures
        name_views(r@) == kademlia_fields(),
{
    let r: Vec<&'static str> = vec!["enabled", "record_ttl_seconds", "replication_factor", "query_timeout_seconds", "bootstrap_nodes"];
    assert(name_views(r@) =~= kademlia_fields());
    r
}

fn list_dispatcher_fields() -> (r: Vec<&'static str>)
    ensures
        name_views(r@) == dispatcher_fields(),
{
    let r: Vec<&'static str> = vec!["enabled", "query_timeout_secs", "record_ttl_secs", "local_services"];
    assert(name_views(r@) =~= dispatcher_fields());
    r
}

fn list_relay_fields() -> (r: Vec<&'static str>)
    ensures
        name_views(r@) == relay_fields(),
{
    let r: Vec<&'static str> = vec!["retry_interval_secs", "max_failures"];
    assert(name_views(r@) =~= relay_fields());
    r
}

fn list_crypto_fields() -> (r: Vec<&'static str>)
    ensures
        name_views(r@) == crypto_fields(),
{
    let r: Vec<&'static str> = vec!["pq_transport_enabled", "pq_identity_enabled", "pq_required"];
    assert(name_views(r@) =~= crypto_fields());
    r
}

fn list_auth_fields() -> (r: Vec<&'static str>)
    ensures
        name_views(r@) == auth_fields(),
{
    let r: Vec<&'static str> = vec!["network", "cache_ttl_secs", "refresh_interval_secs", "networks"];
    assert(name_views(r@) =~= auth_fields());
    r
}

fn list_local_service_fields() -> (r: Vec<&'static str>)
    ensures
        name_views(r@) == local_service_fields(),
{
    let r: Vec<&'static str> = vec!["name", "host", "port", "require_auth"];
    assert(name_views(r@) =~= local_service_fields());
    r
}

fn list_authority_fields() -> (r: Vec<&'static str>)
    ensures
        name_views(r@) == authority_fields(),
{
    let r: Vec<&'static str> = vec!["authority"];
    assert(name_views(r@) =~= authority_fields());
    r
}

fn read_node(m: &Vec<(String, Toml)>) -> (r: Option<NodeInfo>)
    ensures
        match r {
            Some(c) => node_said(table_view(*m), c),
            None => !node_valid(table_view(*m)),
        },
{
    match (
        read_text_or(m, "name", "未设置的p2p节点"),
        read_text_or(m, "description", "无详细描述"),
        read_bool_or(m, "allow_bootstrap", true),
    ) {
        (Some(name), Some(description), Some(allow_bootstrap)) => Some(NodeInfo { name, description, allow_bootstrap }),
        _ => None,
    }
}

fn read_network(m: &Vec<(String, Toml)>) -> (r: Option<NetworkConfig>)
    ensures
        match r {
            Some(c) => network_said(table_view(*m), c) && storable_addrs(c.announce_addresses@),
            None => !network_valid(table_view(*m)),
        },
{
    match (
        read_bool_or(m, "ipv4_enabled", false),
        read_ip(m, "ipv4_address"),
        read_bool_or(m, "ipv6_enabled", false),
        read_ip(m, "ipv6_address"),
        read_uint_or(m, "port", 5000),
        read_addrs(m, "announce_addresses"),
    ) {
        (
            Some(ipv4_enabled),
            Some(ipv4_address),
            Some(ipv6_enabled),
            Some(ipv6_address),
            Some(port),
            Some(announce_addresses),
        ) => Some(
            NetworkConfig { ipv4_enabled, ipv4_address, ipv6_enabled, ipv6_address, port, announce_addresses },
        ),
        _ => None,
    }
}

fn read_ping(m: &Vec<(String, Toml)>) -> (r: Option<PingService>)
    ensures
        match r {
            Some(c) => ping_said(table_view(*m), c),
            None => !ping_valid(table_view(*m)),
        },
{
    match (
        read_bool_or(m, "enabled", true),
        read_uint_or(m, "interval_secs", 15),
        read_uint_or(m, "with_timeout", 10),
        read_uint_or(m, "max_failures", 2),
    ) {
        (Some(enabled), Some(interval_secs), Some(with_timeout), Some(max_failures)) => Some(
            PingService { enabled, interval_secs, with_timeout, max_failures },
        ),
        _ => None,
    }
}

fn read_kademlia(m: &Vec<(String, Toml)>) -> (r: Option<KademliaService>)
    ensures
        match r {
            Some(c) => kademlia_said(table_view(*m), c) && storable_addrs(c.bootstrap_nodes@),
            None => !kademlia_valid(table_view(*m)),
        },
{
    match (
        read_bool_or(m, "enabled", true),
        read_uint_or(m, "record_ttl_seconds", 3600),
        read_uint_or(m, "replication_factor", 20),
        read_uint_or(m, "query_timeout_seconds", 60),
        read_addrs(m, "bootstrap_nodes"),
    ) {
        (
            Some(enabled),
            Some(record_ttl_seconds),
            Some(replication_factor),
            Some(query_timeout_seconds),
            Some(bootstrap_nodes),
        ) => Some(
            KademliaService {
                enabled,
                record_ttl_seconds,
                replication_factor,
                query_timeout_seconds,
                bootstrap_nodes,
            },
        ),
        _ => None,
    }
}

fn read_dispatcher(m: &Vec<(String, Toml)>) -> (r: Option<DispatcherConfig>)
    ensures
        match r {
            Some(c) => dispatcher_said(table_view(*m), c),
            None => !dispatcher_valid(table_view(*m)),
        },
{
    match (
        read_bool_or(m, "enabled", true),
        read_uint_or(m, "query_timeout_secs", 60),
        read_uint_or(m, "record_ttl_secs", 3600),
        read_local_services(m),
    ) {
        (Some(enabled), Some(query_timeout_secs), Some(record_ttl_secs), Some(local_services)) => Some(
            DispatcherConfig { enabled, query_timeout_secs, record_ttl_secs, local_services },
        ),
        _ => None,
    }
}

fn read_relay(m: &Vec<(String, Toml)>) -> (r: Option<RelayService>)
    ensures
        match r {
            Some(c) => relay_said(table_view(*m), c),
            None => !relay_valid(table_view(*m)),
        },
{
    match (read_uint_or(m, "retry_interval_secs", 60), read_uint_or(m, "max_failures", 3)) {
        (Some(retry_interval_secs), Some(max_failures)) => Some(RelayService { retry_interval_secs, max_failures }),
        _ => None,
    }
}

fn read_crypto(m: &Vec<(String, Toml)>) -> (r: Option<CryptoConfig>)
    ensures
        match r {
            Some(c) => crypto_said(table_view(*m), c),
            None => !crypto_valid(table_view(*m)),
        },
{
    match (
        read_bool_or(m, "pq_transport_enabled", false),
        read_bool_or(m, "pq_identity_enabled", false),
        read_bool_or(m, "pq_required", false),
    ) {
        (Some(pq_transport_enabled), Some(pq_identity_enabled), Some(pq_required)) => Some(
            CryptoConfig { pq_transport_enabled, pq_identity_enabled, pq_required },
        ),
        _ => None,
    }
}

fn read_auth(m: &Vec<(String, Toml)>) -> (r: Option<AuthConfig>)
    ensures
        match r {
            Some(c) => auth_said(table_view(*m), c),
            None => !auth_valid(table_view(*m)),
        },
{
    match (
        read_text_or(m, "network", "none"),
        read_uint_or(m, "cache_ttl_secs", 300),
        read_uint_or(m, "refresh_interval_secs", 60),
        read_networks(m),
    ) {
        (Some(network), Some(cache_ttl_secs), Some(refresh_interval_secs), Some(networks)) => Some(
            AuthConfig { network, cache_ttl_secs, refresh_interval_secs, networks },
        ),
        _ => None,
    }
}

fn read_services(m: &Vec<(String, Toml)>) -> (r: Option<ServicesConfig>)
    ensures
        match r {
            Some(c) => services_said(table_view(*m), c) && storable_addrs(c.kademlia.bootstrap_nodes@),
            None => !services_valid(table_view(*m)),
        },
{
    let ping = match read_section(m, "ping", &list_ping_fields()) {
        Some(v) => read_ping(&v),
        None => None,
    };
    let kademlia = match read_section(m, "kademlia", &list_kademlia_fields()) {
        Some(v) => read_kademlia(&v),
        None => None,
    };
    let dispatcher = match read_section(m, "dispatcher", &list_dispatcher_fields()) {
        Some(v) => read_dispatcher(&v),
        None => None,
    };
    let relay = match read_section(m, "relay", &list_relay_fields()) {
        Some(v) => read_relay(&v),
        None => None,
    };
    match (ping, kademlia, dispatcher, relay) {
        (Some(ping), Some(kademlia), Some(dispatcher), Some(relay)) => Some(
            ServicesConfig { ping, kademlia, dispatcher, relay },
        ),
        _ => None,
    }
}

fn read_config(m: &Vec<(String, Toml)>) -> (r: Option<NodeConfig>)
    ensures
        match r {
            Some(c) => config_said(table_view(*m), c) && storable(c),
            None => !config_valid(table_view(*m)),
        },
{
    let node = match read_section(m, "node", &list_node_fields()) {
        Some(v) => read_node(&v),
        None => None,
    };
    let network = match read_section(m, "network", &list_network_fields()) {
        Some(v) => read_network(&v),
        None => None,
    };
    let services = match read_section(m, "services", &list_services_fields()) {
        Some(v) => read_services(&v),
        None => None,
    };
    let crypto = match read_section(m, "crypto", &list_crypto_fields()) {
        Some(v) => read_crypto(&v),
        None => None,
    };
    let auth = match read_section(m, "auth", &list_auth_fields()) {
        Some(v) => read_auth(&v),
        None => None,
    };
    match (node, network, services, crypto, auth) {
        (Some(node), Some(network), Some(services), Some(crypto), Some(auth)) => Some(
            NodeConfig { node, network, services, crypto, auth },
        ),
        _ => None,
    }
}

/// The text with which a table that is no configuration is refused.
pub const NOT_A_CONFIGURATION: &'static str = "a field has the wrong type or range, or is missing";

/// Reads a configuration from the text of its file. The error is why the text is none. What was read
/// can be stored.
pub fn config_from_toml(text: &str) -> (r: Result<NodeConfig, String>)
    ensures
        match toml_reading(text@) {
            Ok(t) => match t {
                TomlView::Table(m) => match r {
                    Ok(c) => config_said(m, c) && config_valid(m) && storable(c),
                    Err(e) => !config_valid(m) && e@ == NOT_A_CONFIGURATION@,
                },
                _ => r matches Err(e) && e@ == NOT_A_CONFIGURATION@,
            },
            Err(e) => r matches Err(x) && x@ == e,
        },
{
    let tree = match parse_toml(text) {
        Ok(t) => t,
        Err(e) => {
            return Err(e);
        },
    };
    match &tree {
        Toml::Table(m) => {
            assert(tree@ == TomlView::Table(table_view(*m)));
            match read_config(m) {
                Some(c) => {
                    proof {
                        said_is_valid(table_view(*m), c);
                    }
                    Ok(c)
                },
                None => Err(NOT_A_CONFIGURATION.to_owned()),
            }
        },
        _ => Err(NOT_A_CONFIGURATION.to_owned()),
    }
}

proof fn said_is_valid(m: Map<Seq<char>, TomlView>, c: NodeConfig)
    requires
        config_said(m, c),
    ensures
        config_valid(m),
{
}

/// A table says one configuration only.
pub proof fn said_is_one(m: Map<Seq<char>, TomlView>, a: NodeConfig, b: NodeConfig)
    requires
        config_said(m, a),
        config_said(m, b),
    ensures
        same_config(a, b),
{
}

/// An empty file says the defaults.
pub proof fn empty_file_says_defaults(c: NodeConfig)
    requires
        config_said(Map::<Seq<char>, TomlView>::empty(), c),
    ensures
        crate::config::default_config(c),
{
    let e = Seq::<TomlView>::empty();
    assert(e.map_values(|t: TomlView| t->Text_0) =~= Seq::<Seq<char>>::empty());
    let t = Seq::<Seq<char>>::empty();
    assert(t.map_values(|t: Seq<char>| addr_of_text(t)->Ok_0) =~= Seq::<Seq<Part>>::empty());
    assert(e.map_values(|t: TomlView| local_service_of(t)->0) =~= Seq::<LocalServiceView>::empty());
    assert(addr_views(c.network.announce_addresses@).len() == 0);
    assert(addr_views(c.services.kademlia.bootstrap_nodes@).len() == 0);
    assert(service_views(c.services.dispatcher.local_services@).len() == 0);
    let n = Map::<Seq<char>, TomlView>::empty();
    assert(authorities(c.auth.networks@) == Map::new(|k: Seq<char>| n.dom().contains(k), |k: Seq<char>| authority_in(n[k])->0));
    assert forall|k: Seq<char>| !c.auth.networks@.dom().contains(k) by {
        assert(authorities(c.auth.networks@).dom().contains(k) == n.dom().contains(k));
    }
    assert(c.auth.networks@ =~= Map::<Seq<char>, AuthNetworkConfig>::empty());
}

/// The list of some addresses, as texts.
pub open spec fn addrs_list(addrs: Seq<Seq<Part>>) -> TomlView {
    TomlView::Array(addrs.map_values(|a: Seq<Part>| TomlView::Text(addr_text(a))))
}

/// A table with the text of an IP address, if there is one.
pub open spec fn with_ip(m: Map<Seq<char>, TomlView>, name: Seq<char>, ip: Option<IpAddr>) -> Map<Seq<char>, TomlView> {
    match ip {
        Some(ip) => m.insert(name, TomlView::Text(ip_display(ip))),
        None => m,
    }
}

/// The `node` section of a configuration.
pub open spec fn node_table(c: NodeInfo) -> Map<Seq<char>, TomlView> {
    map![
        "name"@ => TomlView::Text(c.name@),
        "description"@ => TomlView::Text(c.description@),
        "allow_bootstrap"@ => TomlView::Bool(c.allow_bootstrap)
    ]
}

/// The `network` section of a configuration.
pub open spec fn network_table(c: NetworkConfig) -> Map<Seq<char>, TomlView> {
    let v4 = with_ip(map!["ipv4_enabled"@ => TomlView::Bool(c.ipv4_enabled)], "ipv4_address"@, c.ipv4_address);
    let v6 = with_ip(v4.insert("ipv6_enabled"@, TomlView::Bool(c.ipv6_enabled)), "ipv6_address"@, c.ipv6_address);
    v6.insert("port"@, TomlView::Int(c.port as i64)).insert(
        "announce_addresses"@,
        addrs_list(addr_views(c.announce_addresses@)),
    )
}

/// The `services.ping` section of a configuration.
pub open spec fn ping_table(c: PingService) -> Map<Seq<char>, TomlView> {
    map![
        "enabled"@ => TomlView::Bool(c.enabled),
        "interval_secs"@ => TomlView::Int(c.interval_secs as i64),
        "with_timeout"@ => TomlView::Int(c.with_timeout as i64),
        "max_failures"@ => TomlView::Int(c.max_failures as i64)
    ]
}

/// The `services.kademlia` section of a configuration.
pub open spec fn kademlia_table(c: KademliaService) -> Map<Seq<char>, TomlView> {
    map![
        "enabled"@ => TomlView::Bool(c.enabled),
        "record_ttl_seconds"@ => TomlView::Int(c.record_ttl_seconds as i64),
        "replication_factor"@ => TomlView::Int(c.replication_factor as i64),
        "query_timeout_seconds"@ => TomlView::Int(c.query_timeout_seconds as i64),
        "bootstrap_nodes"@ => addrs_list(addr_views(c.bootstrap_nodes@))
    ]
}

/// The table of a local service.
pub open spec fn local_service_table(e: LocalServiceView) -> TomlView {
    TomlView::Table(
        map![
            "name"@ => TomlView::Text(e.name),
            "host"@ => TomlView::Text(e.host),
            "port"@ => TomlView::Int(e.port as i64),
            "require_auth"@ => TomlView::Bool(e.require_auth)
        ],
    )
}

/// The `services.dispatcher` section of a configuration.
pub open spec fn dispatcher_table(c: DispatcherConfig) -> Map<Seq<char>, TomlView> {
    map![
        "enabled"@ => TomlView::Bool(c.enabled),
        "query_timeout_secs"@ => TomlView::Int(c.query_timeout_secs as i64),
        "record_ttl_secs"@ => TomlView::Int(c.record_ttl_secs as i64),
        "local_services"@ => TomlView::Array(
            service_views(c.local_services@).map_values(|e: LocalServiceView| local_service_table(e)),
        )
    ]
}

/// The `services.relay` section of a configuration.
pub open spec fn relay_table(c: RelayService) -> Map<Seq<char>, TomlView> {
    map![
        "retry_interval_secs"@ => TomlView::Int(c.retry_interval_secs as i64),
        "max_failures"@ => TomlView::Int(c.max_failures as i64)
    ]
}

/// The `services` section of a configuration.
pub open spec fn services_table(c: ServicesConfig) -> Map<Seq<char>, TomlView> {
    map![
        "ping"@ => TomlView::Table(ping_table(c.ping)),
        "kademlia"@ => TomlView::Table(kademlia_table(c.kademlia)),
        "dispatcher"@ => TomlView::Table(dispatcher_table(c.dispatcher)),
        "relay"@ => TomlView::Table(relay_table(c.relay))
    ]
}

/// The `crypto` section of a configuration.
pub open spec fn crypto_table(c: CryptoConfig) -> Map<Seq<char>, TomlView> {
    map![
        "pq_transport_enabled"@ => TomlView::Bool(c.pq_transport_enabled),
        "pq_identity_enabled"@ => TomlView::Bool(c.pq_identity_enabled),
        "pq_required"@ => TomlView::Bool(c.pq_required)
    ]
}

/// The tables of the authorities, by network.
pub open spec fn networks_table(a: Map<Seq<char>, Seq<char>>) -> Map<Seq<char>, TomlView> {
    a.map_values(|t: Seq<char>| TomlView::Table(map!["authority"@ => TomlView::Text(t)]))
}

/// The `auth` section of a configuration.
pub open spec fn auth_table(c: AuthConfig) -> Map<Seq<char>, TomlView> {
    map![
        "network"@ => TomlView::Text(c.network@),
        "cache_ttl_secs"@ => TomlView::Int(c.cache_ttl_secs as i64),
        "refresh_interval_secs"@ => TomlView::Int(c.refresh_interval_secs as i64),
        "networks"@ => TomlView::Table(networks_table(authorities(c.networks@)))
    ]
}

/// The table of a configuration: every field of it.
pub open spec fn config_table(c: NodeConfig) -> Map<Seq<char>, TomlView> {
    map![
        "node"@ => TomlView::Table(node_table(c.node)),
        "network"@ => TomlView::Table(network_table(c.network)),
        "services"@ => TomlView::Table(services_table(c.services)),
        "crypto"@ => TomlView::Table(crypto_table(c.crypto)),
        "auth"@ => TomlView::Table(auth_table(c.auth))
    ]
}

fn addrs_toml(addrs: &Vec<Multiaddr>) -> (r: Toml)
    ensures
        r@ == addrs_list(addr_views(addrs@)),
{
    let mut v: Vec<Toml> = Vec::new();
    let mut i: usize = 0;
    while i < addrs.len()
        invariant
            i <= addrs@.len(),
            v@.len() == i,
            forall|j: int| 0 <= j < i ==> (#[trigger] v@[j])@ == TomlView::Text(addr_text(addrs@[j]@)),
        decreases addrs@.len() - i,
    {
        v.push(Toml::Text(addrs[i].to_text()));
        i += 1;
    }
    let r = Toml::Array(v);
    proof {
        array_view(r);
        assert(toml_views(v@) =~= addrs_list(addr_views(addrs@))->Array_0);
    }
    r
}

/// The list of addresses whose texts read back says those addresses.
proof fn addrs_read_back(addrs: Seq<Multiaddr>)
    requires
        storable_addrs(addrs),
    ensures
        ({
            let s = addrs_list(addr_views(addrs))->Array_0;
            list_texts(s) is Some && addrs_of(list_texts(s)->0) == Some(addr_views(addrs))
        }),
{
    let a = addr_views(addrs);
    let s = addrs_list(a)->Array_0;
    let texts = s.map_values(|t: TomlView| t->Text_0);
    assert forall|i: int| 0 <= i < texts.len() implies addr_of_text(#[trigger] texts[i]) == Ok::<Seq<Part>, Seq<char>>(a[i]) by {
        assert(reads_back(addrs[i]@));
    }
    assert(texts.map_values(|t: Seq<char>| addr_of_text(t)->Ok_0) =~= a);
}

proof fn node_names()
    ensures
        "name"@.len() == 4,
        "description"@.len() == 11,
        "allow_bootstrap"@.len() == 15,
{
    reveal_strlit("name");
    reveal_strlit("description");
    reveal_strlit("allow_bootstrap");
}

fn node_toml(c: &NodeInfo) -> (r: Toml)
    ensures
        r@ == TomlView::Table(node_table(*c)),
        node_said(node_table(*c), *c),
        plain_toml(r@, 1),
{
    proof {
        reveal_with_fuel(plain_toml, 2);
        node_names();
    }
    let mut t = TableBuilder::new();
    t.put("name", Toml::Text(c.name.clone()));
    t.put("description", Toml::Text(c.description.clone()));
    t.put("allow_bootstrap", Toml::Bool(c.allow_bootstrap));
    t.table()
}

proof fn network_names()
    ensures
        "ipv4_enabled"@.len() == 12,
        "ipv4_address"@.len() == 12,
        "ipv6_enabled"@.len() == 12,
        "ipv6_address"@.len() == 12,
        "port"@.len() == 4,
        "announce_addresses"@.len() == 18,
        "ipv4_enabled"@ != "ipv4_address"@,
        "ipv4_enabled"@ != "ipv6_enabled"@,
        "ipv4_enabled"@ != "ipv6_address"@,
        "ipv4_address"@ != "ipv6_enabled"@,
        "ipv4_address"@ != "ipv6_address"@,
        "ipv6_enabled"@ != "ipv6_address"@,
{
    reveal_strlit("ipv4_enabled");
    reveal_strlit("ipv4_address");
    reveal_strlit("ipv6_enabled");
    reveal_strlit("ipv6_address");
    reveal_strlit("port");
    reveal_strlit("announce_addresses");
    assert("ipv4_enabled"@[5] != "ipv4_address"@[5]);
    assert("ipv6_enabled"@[5] != "ipv6_address"@[5]);
    assert("ipv4_enabled"@[3] != "ipv6_enabled"@[3]);
    assert("ipv4_enabled"@[3] != "ipv6_address"@[3]);
    assert("ipv4_address"@[3] != "ipv6_enabled"@[3]);
    assert("ipv4_address"@[3] != "ipv6_address"@[3]);
}

fn put_ip(t: &mut TableBuilder, name: &str, ip: Option<IpAddr>)
    ensures
        final(t)@ == with_ip(old(t)@, name@, ip),
        ip matches Some(a) ==> ip_of_text(ip_display(a)) == Some(a),
{
    match ip {
        Some(ip) => t.put(name, Toml::Text(ip.to_text())),
        None => {},
    }
}

fn network_toml(c: &NetworkConfig) -> (r: Toml)
    ensures
        r@ == TomlView::Table(network_table(*c)),
        storable_addrs(c.announce_addresses@) ==> network_said(network_table(*c), *c),
        plain_toml(r@, 1),
{
    proof {
        reveal_with_fuel(plain_toml, 2);
        network_names();
        if storable_addrs(c.announce_addresses@) {
            addrs_read_back(c.announce_addresses@);
        }
    }
    let mut t = TableBuilder::new();
    t.put("ipv4_enabled", Toml::Bool(c.ipv4_enabled));
    put_ip(&mut t, "ipv4_address", c.ipv4_address);
    t.put("ipv6_enabled", Toml::Bool(c.ipv6_enabled));
    put_ip(&mut t, "ipv6_address", c.ipv6_address);
    t.put("port", Toml::Int(c.port as i64));
    t.put("announce_addresses", addrs_toml(&c.announce_addresses));
    t.table()
}

proof fn ping_names()
    ensures
        "enabled"@.len() == 7,
        "interval_secs"@.len() == 13,
        "with_timeout"@.len() == 12,
        "max_failures"@.len() == 12,
        "with_timeout"@ != "max_failures"@,
{
    reveal_strlit("enabled");
    reveal_strlit("interval_secs");
    reveal_strlit("with_timeout");
    reveal_strlit("max_failures");
    assert("with_timeout"@[0] != "max_failures"@[0]);
}

fn ping_toml(c: &PingService) -> (r: Toml)
    ensures
        r@ == TomlView::Table(ping_table(*c)),
        ping_said(ping_table(*c), *c),
        plain_toml(r@, 1),
{
    proof {
        reveal_with_fuel(plain_toml, 2);
        ping_names();
    }
    let mut t = TableBuilder::new();
    t.put("enabled", Toml::Bool(c.enabled));
    t.put("interval_secs", Toml::Int(c.interval_secs as i64));
    t.put("with_timeout", Toml::Int(c.with_timeout as i64));
    t.put("max_failures", Toml::Int(c.max_failures as i64));
    t.table()
}

proof fn kademlia_names()
    ensures
        "enabled"@.len() == 7,
        "record_ttl_seconds"@.len() == 18,
        "replication_factor"@.len() == 18,
        "query_timeout_seconds"@.len() == 21,
        "bootstrap_nodes"@.len() == 15,
        "record_ttl_seconds"@ != "replication_factor"@,
{
    reveal_strlit("enabled");
    reveal_strlit("record_ttl_seconds");
    reveal_strlit("replication_factor");
    reveal_strlit("query_timeout_seconds");
    reveal_strlit("bootstrap_nodes");
    assert("record_ttl_seconds"@[2] != "replication_factor"@[2]);
}

fn kademlia_toml(c: &KademliaService) -> (r: Toml)
    ensures
        r@ == TomlView::Table(kademlia_table(*c)),
        storable_addrs(c.bootstrap_nodes@) ==> kademlia_said(kademlia_table(*c), *c),
        plain_toml(r@, 1),
{
    proof {
        reveal_with_fuel(plain_toml, 2);
        kademlia_names();
        if storable_addrs(c.bootstrap_nodes@) {
            addrs_read_back(c.bootstrap_nodes@);
        }
    }
    let mut t = TableBuilder::new();
    t.put("enabled", Toml::Bool(c.enabled));
    t.put("record_ttl_seconds", Toml::Int(c.record_ttl_seconds as i64));
    t.put("replication_factor", Toml::Int(c.replication_factor as i64));
    t.put("query_timeout_seconds", Toml::Int(c.query_timeout_seconds as i64));
    t.put("bootstrap_nodes", addrs_toml(&c.bootstrap_nodes));
    t.table()
}

proof fn local_service_names()
    ensures
        "name"@.len() == 4,
        "host"@.len() == 4,
        "port"@.len() == 4,
        "require_auth"@.len() == 12,
        "name"@ != "host"@,
        "name"@ != "port"@,
        "host"@ != "port"@,
{
    reveal_strlit("name");
    reveal_strlit("host");
    reveal_strlit("port");
    reveal_strlit("require_auth");
    assert("name"@[0] != "host"@[0]);
    assert("name"@[0] != "port"@[0]);
    assert("host"@[0] != "port"@[0]);
}

fn local_service_toml(e: &LocalServiceEntry) -> (r: Toml)
    ensures
        r@ == local_service_table(e@),
        local_service_of(r@) == Some(e@),
        flat(r@),
{
    proof {
        local_service_names();
    }
    let mut t = TableBuilder::new();
    t.put("name", Toml::Text(e.name.clone()));
    t.put("host", Toml::Text(e.host.clone()));
    t.put("port", Toml::Int(e.port as i64));
    t.put("require_auth", Toml::Bool(e.require_auth));
    t.table()
}

proof fn dispatcher_names()
    ensures
        "enabled"@.len() == 7,
        "query_timeout_secs"@.len() == 18,
        "record_ttl_secs"@.len() == 15,
        "local_services"@.len() == 14,
{
    reveal_strlit("enabled");
    reveal_strlit("query_timeout_secs");
    reveal_strlit("record_ttl_secs");
    reveal_strlit("local_services");
}

fn dispatcher_toml(c: &DispatcherConfig) -> (r: Toml)
    ensures
        r@ == TomlView::Table(dispatcher_table(*c)),
        dispatcher_said(dispatcher_table(*c), *c),
        plain_toml(r@, 1),
{
    proof {
        reveal_with_fuel(plain_toml, 2);
        dispatcher_names();
    }
    let mut v: Vec<Toml> = Vec::new();
    let mut i: usize = 0;
    while i < c.local_services.len()
        invariant
            i <= c.local_services@.len(),
            v@.len() == i,
            forall|j: int| 0 <= j < i ==> (#[trigger] v@[j])@ == local_service_table(c.local_services@[j]@),
            forall|j: int| 0 <= j < i ==> local_service_of((#[trigger] v@[j])@) == Some(c.local_services@[j]@),
            forall|j: int| 0 <= j < i ==> flat((#[trigger] v@[j])@),
        decreases c.local_services@.len() - i,
    {
        v.push(local_service_toml(&c.local_services[i]));
        i += 1;
    }
    let list = Toml::Array(v);
    proof {
        array_view(list);
        let s = toml_views(v@);
        assert forall|j: int| 0 <= j < s.len() implies local_service_of(#[trigger] s[j]) == Some(c.local_services@[j]@)
            && flat(s[j]) by {
            assert(s[j] == v@[j]@);
        }
        assert(s.map_values(|t: TomlView| local_service_of(t)->0) =~= service_views(c.local_services@));
        assert(s =~= service_views(c.local_services@).map_values(|e: LocalServiceView| local_service_table(e)));
    }
    let mut t = TableBuilder::new();
    t.put("enabled", Toml::Bool(c.enabled));
    t.put("query_timeout_secs", Toml::Int(c.query_timeout_secs as i64));
    t.put("record_ttl_secs", Toml::Int(c.record_ttl_secs as i64));
    t.put("local_services", list);
    t.table()
}

proof fn relay_names()
    ensures
        "retry_interval_secs"@.len() == 19,
        "max_failures"@.len() == 12,
{
    reveal_strlit("retry_interval_secs");
    reveal_strlit("max_failures");
}

fn relay_toml(c: &RelayService) -> (r: Toml)
    ensures
        r@ == TomlView::Table(relay_table(*c)),
        relay_said(relay_table(*c), *c),
        plain_toml(r@, 1),
{
    proof {
        reveal_with_fuel(plain_toml, 2);
        relay_names();
    }
    let mut t = TableBuilder::new();
    t.put("retry_interval_secs", Toml::Int(c.retry_interval_secs as i64));
    t.put("max_failures", Toml::Int(c.max_failures as i64));
    t.table()
}

proof fn crypto_names()
    ensures
        "pq_transport_enabled"@.len() == 20,
        "pq_identity_enabled"@.len() == 19,
        "pq_required"@.len() == 11,
{
    reveal_strlit("pq_transport_enabled");
    reveal_strlit("pq_identity_enabled");
    reveal_strlit("pq_required");
}

fn crypto_toml(c: &CryptoConfig) -> (r: Toml)
    ensures
        r@ == TomlView::Table(crypto_table(*c)),
        crypto_said(crypto_table(*c), *c),
        plain_toml(r@, 1),
{
    proof {
        reveal_with_fuel(plain_toml, 2);
        crypto_names();
    }
    let mut t = TableBuilder::new();
    t.put("pq_transport_enabled", Toml::Bool(c.pq_transport_enabled));
    t.put("pq_identity_enabled", Toml::Bool(c.pq_identity_enabled));
    t.put("pq_required", Toml::Bool(c.pq_required));
    t.table()
}

fn authority_toml(a: &str) -> (r: Toml)
    ensures
        r@ == TomlView::Table(map!["authority"@ => TomlView::Text(a@)]),
        authority_in(r@) == Some(a@),
        plain_toml(r@, 1),
{
    proof {
        reveal_with_fuel(plain_toml, 2);
    }
    let mut t = TableBuilder::new();
    t.put("authority", Toml::Text(a.to_owned()));
    t.table()
}

fn networks_toml(networks: &NameMap<AuthNetworkConfig>) -> (r: Toml)
    ensures
        r@ == TomlView::Table(networks_table(authorities(networks@))),
        authorities_of(networks_table(authorities(networks@))) == Some(authorities(networks@)),
        plain_toml(r@, 2),
{
    let n: usize = networks.len();
    let ghost o = networks.order();
    let mut t = TableBuilder::new();
    let mut i: usize = 0;
    while i < n
        invariant
            i <= n,
            n == o.len(),
            o == networks.order(),
            o.no_duplicates(),
            forall|k: Seq<char>| o.contains(k) <==> networks@.dom().contains(k),
            forall|k: Seq<char>| #[trigger] t@.dom().contains(k) <==> o.subrange(0, i as int).contains(k),
            forall|k: Seq<char>| #[trigger]
                t@.dom().contains(k) ==> t@[k] == TomlView::Table(
                    map!["authority"@ => TomlView::Text(networks@[k].authority@)],
                ) && authority_in(t@[k]) == Some(networks@[k].authority@) && plain_toml(t@[k], 1),
        decreases n - i,
    {
        let ghost before = o.subrange(0, i as int);
        let ghost after = o.subrange(0, i + 1);
        proof {
            assert(after =~= before.push(o[i as int]));
            assert forall|k: Seq<char>| after.contains(k) <==> before.contains(k) || k == o[i as int] by {
                if before.contains(k) {
                    let j = choose|j: int| 0 <= j < before.len() && before[j] == k;
                    assert(after[j] == k);
                }
                if after.contains(k) && k != o[i as int] {
                    let j = choose|j: int| 0 <= j < after.len() && after[j] == k;
                    assert(before[j] == k);
                }
                assert(after[i as int] == o[i as int]);
            }
        }
        let key = networks.key_at(i);
        let value = networks.value_at(i);
        t.put(key.as_str(), authority_toml(value.authority.as_str()));
        i += 1;
    }
    proof {
        reveal_with_fuel(plain_toml, 2);
        assert(o.subrange(0, n as int) =~= o);
        let m = t@;
        assert(m =~= networks_table(authorities(networks@)));
        assert(Map::new(|k: Seq<char>| m.dom().contains(k), |k: Seq<char>| authority_in(m[k])->0) =~= authorities(networks@));
    }
    t.table()
}

proof fn auth_names()
    ensures
        "network"@.len() == 7,
        "cache_ttl_secs"@.len() == 14,
        "refresh_interval_secs"@.len() == 21,
        "networks"@.len() == 8,
{
    reveal_strlit("network");
    reveal_strlit("cache_ttl_secs");
    reveal_strlit("refresh_interval_secs");
    reveal_strlit("networks");
}

fn auth_toml(c: &AuthConfig) -> (r: Toml)
    ensures
        r@ == TomlView::Table(auth_table(*c)),
        auth_said(auth_table(*c), *c),
        plain_toml(r@, 3),
{
    proof {
        reveal_with_fuel(plain_toml, 2);
        auth_names();
    }
    let mut t = TableBuilder::new();
    t.put("network", Toml::Text(c.network.clone()));
    t.put("cache_ttl_secs", Toml::Int(c.cache_ttl_secs as i64));
    t.put("refresh_interval_secs", Toml::Int(c.refresh_interval_secs as i64));
    t.put("networks", networks_toml(&c.networks));
    t.table()
}

proof fn services_names()
    ensures
        "ping"@.len() == 4,
        "kademlia"@.len() == 8,
        "dispatcher"@.len() == 10,
        "relay"@.len() == 5,
{
    reveal_strlit("ping");
    reveal_strlit("kademlia");
    reveal_strlit("dispatcher");
    reveal_strlit("relay");
}

fn services_toml(c: &ServicesConfig) -> (r: Toml)
    ensures
        r@ == TomlView::Table(services_table(*c)),
        storable_addrs(c.kademlia.bootstrap_nodes@) ==> services_said(services_table(*c), *c),
        plain_toml(r@, 2),
{
    proof {
        reveal_with_fuel(plain_toml, 2);
        services_names();
    }
    let mut t = TableBuilder::new();
    t.put("ping", ping_toml(&c.ping));
    t.put("kademlia", kademlia_toml(&c.kademlia));
    t.put("dispatcher", dispatcher_toml(&c.dispatcher));
    t.put("relay", relay_toml(&c.relay));
    t.table()
}

proof fn plain_deeper(t: TomlView, a: nat, b: nat)
    requires
        plain_toml(t, a),
        a <= b,
    ensures
        plain_toml(t, b),
    decreases a,
{
    if let TomlView::Table(m) = t {
        assert forall|k: Seq<char>| #[trigger] m.dom().contains(k) implies plain_toml(m[k], (b - 1) as nat) by {
            plain_deeper(m[k], (a - 1) as nat, (b - 1) as nat);
        }
    }
}

proof fn config_names()
    ensures
        "node"@.len() == 4,
        "network"@.len() == 7,
        "services"@.len() == 8,
        "crypto"@.len() == 6,
        "auth"@.len() == 4,
        "node"@ != "auth"@,
{
    reveal_strlit("node");
    reveal_strlit("network");
    reveal_strlit("services");
    reveal_strlit("crypto");
    reveal_strlit("auth");
    assert("node"@[0] != "auth"@[0]);
}

/// Writes a configuration as the text of its file, without fail. Reading the text gives the table of
/// the configuration, which says the configuration, if it can be stored.
pub fn config_to_toml(c: &NodeConfig) -> (r: Result<String, String>)
    ensures
        r is Ok,
        toml_reading(r->Ok_0@) == Ok::<TomlView, Seq<char>>(TomlView::Table(config_table(*c))),
        storable(*c) ==> config_said(config_table(*c), *c),
{
    let node = node_toml(&c.node);
    let network = network_toml(&c.network);
    let services = services_toml(&c.services);
    let crypto = crypto_toml(&c.crypto);
    let auth = auth_toml(&c.auth);
    proof {
        reveal_with_fuel(plain_toml, 2);
        config_names();
        plain_deeper(node@, 1, 7);
        plain_deeper(network@, 1, 7);
        plain_deeper(services@, 2, 7);
        plain_deeper(crypto@, 1, 7);
        plain_deeper(auth@, 3, 7);
    }
    let mut t = TableBuilder::new();
    t.put("node", node);
    t.put("network", network);
    t.put("services", services);
    t.put("crypto", crypto);
    t.put("auth", auth);
    let tree = t.table();
    write_toml(&tree)
}

/// The `node` section says who the node is: each field that is there as it is there, and for each that is
/// missing this default. It is sound exactly when each field that is there has its kind.
pub proof fn node_section_counts(m: Map<Seq<char>, TomlView>, c: NodeInfo)
    ensures
        node_said(m, c) <==> {
            &&& (if m.dom().contains("name"@) {
                m["name"@] == TomlView::Text(c.name@)
            } else {
                c.name@ == "未设置的p2p节点"@
            })
            &&& (if m.dom().contains("description"@) {
                m["description"@] == TomlView::Text(c.description@)
            } else {
                c.description@ == "无详细描述"@
            })
            &&& (if m.dom().contains("allow_bootstrap"@) {
                m["allow_bootstrap"@] == TomlView::Bool(c.allow_bootstrap)
            } else {
                c.allow_bootstrap == true
            })
        },
        node_valid(m) <==> {
            &&& (m.dom().contains("name"@) ==> m["name"@] is Text)
            &&& (m.dom().contains("description"@) ==> m["description"@] is Text)
            &&& (m.dom().contains("allow_bootstrap"@) ==> m["allow_bootstrap"@] is Bool)
        },
{
}

/// The `network` section says where the node listens: each field that is there as it is there, and for each that is
/// missing this default. It is sound exactly when each field that is there has its kind.
pub proof fn network_section_counts(m: Map<Seq<char>, TomlView>, c: NetworkConfig)
    ensures
        network_said(m, c) <==> {
            &&& (if m.dom().contains("ipv4_enabled"@) {
                m["ipv4_enabled"@] == TomlView::Bool(c.ipv4_enabled)
            } else {
                c.ipv4_enabled == false
            })
            &&& (if m.dom().contains("ipv4_address"@) {
                m["ipv4_address"@] is Text && c.ipv4_address is Some && ip_of_text(m["ipv4_address"@]->Text_0) == c.ipv4_address
            } else {
                c.ipv4_address is None
            })
            &&& (if m.dom().contains("ipv6_enabled"@) {
                m["ipv6_enabled"@] == TomlView::Bool(c.ipv6_enabled)
            } else {
                c.ipv6_enabled == false
            })
            &&& (if m.dom().contains("ipv6_address"@) {
                m["ipv6_address"@] is Text && c.ipv6_address is Some && ip_of_text(m["ipv6_address"@]->Text_0) == c.ipv6_address
            } else {
                c.ipv6_address is None
            })
            &&& (if m.dom().contains("port"@) {
                m["port"@] == TomlView::Int(c.port as i64)
            } else {
                c.port == 5000
            })
            &&& addrs_or_empty(m, "announce_addresses"@) == Some(addr_views(c.announce_addresses@))
        },
        network_valid(m) <==> {
            &&& (m.dom().contains("ipv4_enabled"@) ==> m["ipv4_enabled"@] is Bool)
            &&& (m.dom().contains("ipv4_address"@) ==> (m["ipv4_address"@] matches TomlView::Text(t) && ip_of_text(t) is Some))
            &&& (m.dom().contains("ipv6_enabled"@) ==> m["ipv6_enabled"@] is Bool)
            &&& (m.dom().contains("ipv6_address"@) ==> (m["ipv6_address"@] matches TomlView::Text(t) && ip_of_text(t) is Some))
            &&& (m.dom().contains("port"@) ==> (m["port"@] matches TomlView::Int(n) && 0 <= n <= 4_294_967_295))
            &&& addrs_or_empty(m, "announce_addresses"@) is Some
        },
{
}

/// The `services.ping` section says the settings of ping: each field that is there as it is there, and for each that is
/// missing this default. It is sound exactly when each field that is there has its kind.
pub proof fn ping_section_counts(m: Map<Seq<char>, TomlView>, c: PingService)
    ensures
        ping_said(m, c) <==> {
            &&& (if m.dom().contains("enabled"@) {
                m["enabled"@] == TomlView::Bool(c.enabled)
            } else {
                c.enabled == true
            })
            &&& (if m.dom().contains("interval_secs"@) {
                m["interval_secs"@] == TomlView::Int(c.interval_secs as i64)
            } else {
                c.interval_secs == 15
            })
            &&& (if m.dom().contains("with_timeout"@) {
                m["with_timeout"@] == TomlView::Int(c.with_timeout as i64)
            } else {
                c.with_timeout == 10
            })
            &&& (if m.dom().contains("max_failures"@) {
                m["max_failures"@] == TomlView::Int(c.max_failures as i64)
            } else {
                c.max_failures == 2
            })
        },
        ping_valid(m) <==> {
            &&& (m.dom().contains("enabled"@) ==> m["enabled"@] is Bool)
            &&& (m.dom().contains("interval_secs"@) ==> (m["interval_secs"@] matches TomlView::Int(n) && 0 <= n <= 4_294_967_295))
            &&& (m.dom().contains("with_timeout"@) ==> (m["with_timeout"@] matches TomlView::Int(n) && 0 <= n <= 4_294_967_295))
            &&& (m.dom().contains("max_failures"@) ==> (m["max_failures"@] matches TomlView::Int(n) && 0 <= n <= 4_294_967_295))
        },
{
}

/// The `services.kademlia` section says the settings of the distributed table: each field that is there as it is there, and for each that is
/// missing this default. It is sound exactly when each field that is there has its kind.
pub proof fn kademlia_section_counts(m: Map<Seq<char>, TomlView>, c: KademliaService)
    ensures
        kademlia_said(m, c) <==> {
            &&& (if m.dom().contains("enabled"@) {
                m["enabled"@] == TomlView::Bool(c.enabled)
            } else {
                c.enabled == true
            })
            &&& (if m.dom().contains("record_ttl_seconds"@) {
                m["record_ttl_seconds"@] == TomlView::Int(c.record_ttl_seconds as i64)
            } else {
                c.record_ttl_seconds == 3600
            })
            &&& (if m.dom().contains("replication_factor"@) {
                m["replication_factor"@] == TomlView::Int(c.replication_factor as i64)
            } else {
                c.replication_factor == 20
            })
            &&& (if m.dom().contains("query_timeout_seconds"@) {
                m["query_timeout_seconds"@] == TomlView::Int(c.query_timeout_seconds as i64)
            } else {
                c.query_timeout_seconds == 60
            })
            &&& addrs_or_empty(m, "bootstrap_nodes"@) == Some(addr_views(c.bootstrap_nodes@))
        },
        kademlia_valid(m) <==> {
            &&& (m.dom().contains("enabled"@) ==> m["enabled"@] is Bool)
            &&& (m.dom().contains("record_ttl_seconds"@) ==> (m["record_ttl_seconds"@] matches TomlView::Int(n) && 0 <= n <= 4_294_967_295))
            &&& (m.dom().contains("replication_factor"@) ==> (m["replication_factor"@] matches TomlView::Int(n) && 0 <= n <= 4_294_967_295))
            &&& (m.dom().contains("query_timeout_seconds"@) ==> (m["query_timeout_seconds"@] matches TomlView::Int(n) && 0 <= n <= 4_294_967_295))
            &&& addrs_or_empty(m, "bootstrap_nodes"@) is Some
        },
{
}

/// The `services.dispatcher` section says the settings of the dispatcher: each field that is there as it is there, and for each that is
/// missing this default. It is sound exactly when each field that is there has its kind.
pub proof fn dispatcher_section_counts(m: Map<Seq<char>, TomlView>, c: DispatcherConfig)
    ensures
        dispatcher_said(m, c) <==> {
            &&& (if m.dom().contains("enabled"@) {
                m["enabled"@] == TomlView::Bool(c.enabled)
            } else {
                c.enabled == true
            })
            &&& (if m.dom().contains("query_timeout_secs"@) {
                m["query_timeout_secs"@] == TomlView::Int(c.query_timeout_secs as i64)
            } else {
                c.query_timeout_secs == 60
            })
            &&& (if m.dom().contains("record_ttl_secs"@) {
                m["record_ttl_secs"@] == TomlView::Int(c.record_ttl_secs as i64)
            } else {
                c.record_ttl_secs == 3600
            })
            &&& dispatched(m) == Some(service_views(c.local_services@))
        },
        dispatcher_valid(m) <==> {
            &&& (m.dom().contains("enabled"@) ==> m["enabled"@] is Bool)
            &&& (m.dom().contains("query_timeout_secs"@) ==> (m["query_timeout_secs"@] matches TomlView::Int(n) && 0 <= n <= 4_294_967_295))
            &&& (m.dom().contains("record_ttl_secs"@) ==> (m["record_ttl_secs"@] matches TomlView::Int(n) && 0 <= n <= 4_294_967_295))
            &&& dispatched(m) is Some
        },
{
}

/// The `services.relay` section says the settings of relay reservations: each field that is there as it is there, and for each that is
/// missing this default. It is sound exactly when each field that is there has its kind.
pub proof fn relay_section_counts(m: Map<Seq<char>, TomlView>, c: RelayService)
    ensures
        relay_said(m, c) <==> {
            &&& (if m.dom().contains("retry_interval_secs"@) {
                m["retry_interval_secs"@] == TomlView::Int(c.retry_interval_secs as i64)
            } else {
                c.retry_interval_secs == 60
            })
            &&& (if m.dom().contains("max_failures"@) {
                m["max_failures"@] == TomlView::Int(c.max_failures as i64)
            } else {
                c.max_failures == 3
            })
        },
        relay_valid(m) <==> {
            &&& (m.dom().contains("retry_interval_secs"@) ==> (m["retry_interval_secs"@] matches TomlView::Int(n) && 0 <= n <= 4_294_967_295))
            &&& (m.dom().contains("max_failures"@) ==> (m["max_failures"@] matches TomlView::Int(n) && 0 <= n <= 4_294_967_295))
        },
{
}

/// The `crypto` section says the settings of the post-quantum layer: each field that is there as it is there, and for each that is
/// missing this default. It is sound exactly when each field that is there has its kind.
pub proof fn crypto_section_counts(m: Map<Seq<char>, TomlView>, c: CryptoConfig)
    ensures
        crypto_said(m, c) <==> {
            &&& (if m.dom().contains("pq_transport_enabled"@) {
                m["pq_transport_enabled"@] == TomlView::Bool(c.pq_transport_enabled)
            } else {
                c.pq_transport_enabled == false
            })
            &&& (if m.dom().contains("pq_identity_enabled"@) {
                m["pq_identity_enabled"@] == TomlView::Bool(c.pq_identity_enabled)
            } else {
                c.pq_identity_enabled == false
            })
            &&& (if m.dom().contains("pq_required"@) {
                m["pq_required"@] == TomlView::Bool(c.pq_required)
            } else {
                c.pq_required == false
            })
        },
        crypto_valid(m) <==> {
            &&& (m.dom().contains("pq_transport_enabled"@) ==> m["pq_transport_enabled"@] is Bool)
            &&& (m.dom().contains("pq_identity_enabled"@) ==> m["pq_identity_enabled"@] is Bool)
            &&& (m.dom().contains("pq_required"@) ==> m["pq_required"@] is Bool)
        },
{
}

/// The `auth` section says the settings of authorization: each field that is there as it is there, and for each that is
/// missing this default. It is sound exactly when each field that is there has its kind.
pub proof fn auth_section_counts(m: Map<Seq<char>, TomlView>, c: AuthConfig)
    ensures
        auth_said(m, c) <==> {
            &&& (if m.dom().contains("network"@) {
                m["network"@] == TomlView::Text(c.network@)
            } else {
                c.network@ == "none"@
            })
            &&& (if m.dom().contains("cache_ttl_secs"@) {
                m["cache_ttl_secs"@] == TomlView::Int(c.cache_ttl_secs as i64)
            } else {
                c.cache_ttl_secs == 300
            })
            &&& (if m.dom().contains("refresh_interval_secs"@) {
                m["refresh_interval_secs"@] == TomlView::Int(c.refresh_interval_secs as i64)
            } else {
                c.refresh_interval_secs == 60
            })
            &&& anchors(m) == Some(authorities(c.networks@))
        },
        auth_valid(m) <==> {
            &&& (m.dom().contains("network"@) ==> m["network"@] is Text)
            &&& (m.dom().contains("cache_ttl_secs"@) ==> (m["cache_ttl_secs"@] matches TomlView::Int(n) && 0 <= n <= 4_294_967_295))
            &&& (m.dom().contains("refresh_interval_secs"@) ==> (m["refresh_interval_secs"@] matches TomlView::Int(n) && 0 <= n <= 4_294_967_295))
            &&& anchors(m) is Some
        },
{
}

/// A configuration is said section by section; a section may be a table, or a list that gives the
/// fields in this order.
pub proof fn sections_count(m: Map<Seq<char>, TomlView>, s: Map<Seq<char>, TomlView>, c: NodeConfig)
    ensures
        config_said(m, c) <==> {
            let node = section(m, "node"@, seq!["name"@, "description"@, "allow_bootstrap"@]);
            let network = section(
                m,
                "network"@,
                seq!["ipv4_enabled"@, "ipv4_address"@, "ipv6_enabled"@, "ipv6_address"@, "port"@, "announce_addresses"@],
            );
            let services = section(m, "services"@, seq!["ping"@, "kademlia"@, "dispatcher"@, "relay"@]);
            let crypto = section(m, "crypto"@, seq!["pq_transport_enabled"@, "pq_identity_enabled"@, "pq_required"@]);
            let auth = section(m, "auth"@, seq!["network"@, "cache_ttl_secs"@, "refresh_interval_secs"@, "networks"@]);
            &&& node is Some && node_said(node->0, c.node)
            &&& network is Some && network_said(network->0, c.network)
            &&& services is Some && services_said(services->0, c.services)
            &&& crypto is Some && crypto_said(crypto->0, c.crypto)
            &&& auth is Some && auth_said(auth->0, c.auth)
        },
        config_valid(m) <==> {
            let node = section(m, "node"@, seq!["name"@, "description"@, "allow_bootstrap"@]);
            let network = section(
                m,
                "network"@,
                seq!["ipv4_enabled"@, "ipv4_address"@, "ipv6_enabled"@, "ipv6_address"@, "port"@, "announce_addresses"@],
            );
            let services = section(m, "services"@, seq!["ping"@, "kademlia"@, "dispatcher"@, "relay"@]);
            let crypto = section(m, "crypto"@, seq!["pq_transport_enabled"@, "pq_identity_enabled"@, "pq_required"@]);
            let auth = section(m, "auth"@, seq!["network"@, "cache_ttl_secs"@, "refresh_interval_secs"@, "networks"@]);
            &&& node is Some && node_valid(node->0)
            &&& network is Some && network_valid(network->0)
            &&& services is Some && services_valid(services->0)
            &&& crypto is Some && crypto_valid(crypto->0)
            &&& auth is Some && auth_valid(auth->0)
        },
        services_said(s, c.services) <==> {
            let ping = section(s, "ping"@, seq!["enabled"@, "interval_secs"@, "with_timeout"@, "max_failures"@]);
            let kademlia = section(
                s,
                "kademlia"@,
                seq!["enabled"@, "record_ttl_seconds"@, "replication_factor"@, "query_timeout_seconds"@, "bootstrap_nodes"@],
            );
            let dispatcher = section(
                s,
                "dispatcher"@,
                seq!["enabled"@, "query_timeout_secs"@, "record_ttl_secs"@, "local_services"@],
            );
            let relay = section(s, "relay"@, seq!["retry_interval_secs"@, "max_failures"@]);
            &&& ping is Some && ping_said(ping->0, c.services.ping)
            &&& kademlia is Some && kademlia_said(kademlia->0, c.services.kademlia)
            &&& dispatcher is Some && dispatcher_said(dispatcher->0, c.services.dispatcher)
            &&& relay is Some && relay_said(relay->0, c.services.relay)
        },
        NOT_A_CONFIGURATION@ == "a field has the wrong type or range, or is missing"@,
        services_valid(s) <==> {
            let ping = section(s, "ping"@, seq!["enabled"@, "interval_secs"@, "with_timeout"@, "max_failures"@]);
            let kademlia = section(
                s,
                "kademlia"@,
                seq!["enabled"@, "record_ttl_seconds"@, "replication_factor"@, "query_timeout_seconds"@, "bootstrap_nodes"@],
            );
            let dispatcher = section(
                s,
                "dispatcher"@,
                seq!["enabled"@, "query_timeout_secs"@, "record_ttl_secs"@, "local_services"@],
            );
            let relay = section(s, "relay"@, seq!["retry_interval_secs"@, "max_failures"@]);
            &&& ping is Some && ping_valid(ping->0)
            &&& kademlia is Some && kademlia_valid(kademlia->0)
            &&& dispatcher is Some && dispatcher_valid(dispatcher->0)
            &&& relay is Some && relay_valid(relay->0)
        },
{
}

/// The addresses of a list are those of its texts, in order; a list with anything else in it, or with a
/// text that is no address, is refused, and a list that is missing is empty.
pub proof fn addresses_of_a_list(m: Map<Seq<char>, TomlView>, name: Seq<char>, addrs: Seq<Seq<Part>>)
    ensures
        !m.dom().contains(name) ==> addrs_or_empty(m, name) == Some(Seq::<Seq<Part>>::empty()),
        m.dom().contains(name) && !(m[name] is Array) ==> addrs_or_empty(m, name) is None,
        m.dom().contains(name) && m[name] is Array ==> (addrs_or_empty(m, name) == Some(addrs) <==> m[name]->Array_0.len()
            == addrs.len() && forall|i: int|
            0 <= i < addrs.len() ==> (#[trigger] m[name]->Array_0[i]) is Text && addr_of_text(m[name]->Array_0[i]->Text_0)
                == Ok::<Seq<Part>, Seq<char>>(addrs[i])),
{
    let none = Seq::<TomlView>::empty().map_values(|t: TomlView| t->Text_0);
    assert(none =~= Seq::<Seq<char>>::empty());
    assert(none.map_values(|t: Seq<char>| addr_of_text(t)->Ok_0) =~= Seq::<Seq<Part>>::empty());
    if m.dom().contains(name) && m[name] is Array {
        let s = m[name]->Array_0;
        let texts = s.map_values(|t: TomlView| t->Text_0);
        let all = texts.map_values(|t: Seq<char>| addr_of_text(t)->Ok_0);
        if addrs_or_empty(m, name) == Some(addrs) {
            assert(addrs == all);
            assert forall|i: int| 0 <= i < addrs.len() implies (#[trigger] s[i]) is Text && addr_of_text(s[i]->Text_0) == Ok::<
                Seq<Part>,
                Seq<char>,
            >(addrs[i]) by {
                assert(addr_of_text(texts[i]) is Ok);
                assert(all[i] == addr_of_text(texts[i])->Ok_0);
            }
        }
        if s.len() == addrs.len() && forall|i: int|
            0 <= i < addrs.len() ==> (#[trigger] s[i]) is Text && addr_of_text(s[i]->Text_0) == Ok::<Seq<Part>, Seq<char>>(
                addrs[i],
            ) {
            assert forall|i: int| 0 <= i < texts.len() implies addr_of_text(#[trigger] texts[i]) is Ok by {
                assert(s[i] is Text);
            }
            assert(all =~= addrs) by {
                assert forall|i: int| 0 <= i < addrs.len() implies all[i] == addrs[i] by {
                    assert(addr_of_text(s[i]->Text_0) == Ok::<Seq<Part>, Seq<char>>(addrs[i]));
                }
            }
        }
    }
}

/// A local service has a name, a host and a port up to 65535, all of which must be there; it needs
/// authorization only where that is said.
pub proof fn local_services_are_complete(m: Map<Seq<char>, TomlView>, e: LocalServiceView)
    ensures
        local_service_of(TomlView::Table(m)) == Some(e) <==> {
            &&& m.dom().contains("name"@) && m["name"@] == TomlView::Text(e.name)
            &&& m.dom().contains("host"@) && m["host"@] == TomlView::Text(e.host)
            &&& m.dom().contains("port"@) && m["port"@] == TomlView::Int(e.port as i64)
            &&& (if m.dom().contains("require_auth"@) {
                m["require_auth"@] == TomlView::Bool(e.require_auth)
            } else {
                !e.require_auth
            })
        },
{
}

/// The local services are those of the list, in order, each of which must be one; the authorities are
/// those of the table of networks, each under its network, an empty text where it says none.
pub proof fn lists_count_as_a_whole(m: Map<Seq<char>, TomlView>, n: Map<Seq<char>, TomlView>, k: Seq<char>)
    ensures
        !m.dom().contains("local_services"@) ==> dispatched(m) == Some(Seq::<LocalServiceView>::empty()),
        m.dom().contains("local_services"@) ==> (m["local_services"@] matches TomlView::Array(s) ==> {
            &&& dispatched(m) is Some <==> forall|i: int| 0 <= i < s.len() ==> local_service_of(#[trigger] s[i]) is Some
            &&& dispatched(m) matches Some(v) ==> v.len() == s.len() && forall|i: int|
                0 <= i < s.len() ==> Some(#[trigger] v[i]) == local_service_of(s[i])
        }),
        !m.dom().contains("networks"@) ==> anchors(m) == Some(Map::<Seq<char>, Seq<char>>::empty()),
        m.dom().contains("networks"@) ==> (m["networks"@] matches TomlView::Table(t) ==> (anchors(m) matches Some(a) ==> a.dom()
            == t.dom() && (t.dom().contains(k) ==> Some(a[k]) == authority_in(t[k])))),
        m.dom().contains("networks"@) ==> (m["networks"@] matches TomlView::Table(t) ==> (anchors(m) is Some <==> forall|q: Seq<
            char,
        >| #[trigger] t.dom().contains(q) ==> authority_in(t[q]) is Some)),
        n.dom().contains("authority"@) && n["authority"@] is Text ==> authority_in(TomlView::Table(n)) == Some(
            n["authority"@]->Text_0,
        ),
        n.dom().contains("authority"@) && !(n["authority"@] is Text) ==> authority_in(TomlView::Table(n)) is None,
        !n.dom().contains("authority"@) ==> authority_in(TomlView::Table(n)) == Some(Seq::<char>::empty()),
{
    let none = Seq::<TomlView>::empty();
    assert(none.map_values(|t: TomlView| local_service_of(t)->0) =~= Seq::<LocalServiceView>::empty());
    if !m.dom().contains("networks"@) {
        assert(anchors(m)->0 =~= Map::<Seq<char>, Seq<char>>::empty());
    } else if let TomlView::Table(t) = m["networks"@] {
        if anchors(m) is Some {
            assert(anchors(m)->0.dom() =~= t.dom());
            assert(t.dom().contains(k) ==> authority_in(t[k]) is Some);
        }
    }
    if m.dom().contains("local_services"@) {
        if let TomlView::Array(s) = m["local_services"@] {
            if let Some(v) = dispatched(m) {
                assert forall|i: int| 0 <= i < s.len() implies Some(#[trigger] v[i]) == local_service_of(s[i]) by {
                    assert(local_service_of(s[i]) is Some);
                }
            }
        }
    }
}

/// A configuration is written with every field of it under its name.
pub proof fn every_field_is_written(c: NodeConfig)
    ensures
        config_table(c) == map![
            "node"@ => TomlView::Table(
                map![
                    "name"@ => TomlView::Text(c.node.name@),
                    "description"@ => TomlView::Text(c.node.description@),
                    "allow_bootstrap"@ => TomlView::Bool(c.node.allow_bootstrap)
                ],
            ),
            "network"@ => TomlView::Table(network_table(c.network)),
            "services"@ => TomlView::Table(
                map![
                    "ping"@ => TomlView::Table(
                        map![
                            "enabled"@ => TomlView::Bool(c.services.ping.enabled),
                            "interval_secs"@ => TomlView::Int(c.services.ping.interval_secs as i64),
                            "with_timeout"@ => TomlView::Int(c.services.ping.with_timeout as i64),
                            "max_failures"@ => TomlView::Int(c.services.ping.max_failures as i64)
                        ],
                    ),
                    "kademlia"@ => TomlView::Table(
                        map![
                            "enabled"@ => TomlView::Bool(c.services.kademlia.enabled),
                            "record_ttl_seconds"@ => TomlView::Int(c.services.kademlia.record_ttl_seconds as i64),
                            "replication_factor"@ => TomlView::Int(c.services.kademlia.replication_factor as i64),
                            "query_timeout_seconds"@ => TomlView::Int(c.services.kademlia.query_timeout_seconds as i64),
                            "bootstrap_nodes"@ => addrs_list(addr_views(c.services.kademlia.bootstrap_nodes@))
                        ],
                    ),
                    "dispatcher"@ => TomlView::Table(dispatcher_table(c.services.dispatcher)),
                    "relay"@ => TomlView::Table(
                        map![
                            "retry_interval_secs"@ => TomlView::Int(c.services.relay.retry_interval_secs as i64),
                            "max_failures"@ => TomlView::Int(c.services.relay.max_failures as i64)
                        ],
                    )
                ],
            ),
            "crypto"@ => TomlView::Table(
                map![
                    "pq_transport_enabled"@ => TomlView::Bool(c.crypto.pq_transport_enabled),
                    "pq_identity_enabled"@ => TomlView::Bool(c.crypto.pq_identity_enabled),
                    "pq_required"@ => TomlView::Bool(c.crypto.pq_required)
                ],
            ),
            "auth"@ => TomlView::Table(
                map![
                    "network"@ => TomlView::Text(c.auth.network@),
                    "cache_ttl_secs"@ => TomlView::Int(c.auth.cache_ttl_secs as i64),
                    "refresh_interval_secs"@ => TomlView::Int(c.auth.refresh_interval_secs as i64),
                    "networks"@ => TomlView::Table(networks_table(authorities(c.auth.networks@)))
                ],
            )
        ],
        dispatcher_table(c.services.dispatcher) == map![
            "enabled"@ => TomlView::Bool(c.services.dispatcher.enabled),
            "query_timeout_secs"@ => TomlView::Int(c.services.dispatcher.query_timeout_secs as i64),
            "record_ttl_secs"@ => TomlView::Int(c.services.dispatcher.record_ttl_secs as i64),
            "local_services"@ => TomlView::Array(
                service_views(c.services.dispatcher.local_services@).map_values(|e: LocalServiceView| local_service_table(e)),
            )
        ],
{
}

/// How the network section, a local service, an authority and a list of addresses are written; and which
/// configurations can be stored: those whose addresses read back.
pub proof fn parts_are_written(c: NodeConfig, e: LocalServiceView, a: Map<Seq<char>, Seq<char>>, k: Seq<char>, s: Seq<Seq<Part>>, i: int)
    ensures
        ({
            let m = network_table(c.network);
            &&& m.dom().contains("ipv4_enabled"@) && m["ipv4_enabled"@] == TomlView::Bool(c.network.ipv4_enabled)
            &&& m.dom().contains("ipv6_enabled"@) && m["ipv6_enabled"@] == TomlView::Bool(c.network.ipv6_enabled)
            &&& m.dom().contains("port"@) && m["port"@] == TomlView::Int(c.network.port as i64)
            &&& m.dom().contains("announce_addresses"@) && m["announce_addresses"@] == addrs_list(
                addr_views(c.network.announce_addresses@),
            )
            &&& m.dom().contains("ipv4_address"@) <==> c.network.ipv4_address is Some
            &&& m.dom().contains("ipv6_address"@) <==> c.network.ipv6_address is Some
            &&& (c.network.ipv4_address matches Some(ip) ==> m["ipv4_address"@] == TomlView::Text(ip_display(ip)))
            &&& (c.network.ipv6_address matches Some(ip) ==> m["ipv6_address"@] == TomlView::Text(ip_display(ip)))
        }),
        local_service_table(e) == TomlView::Table(
            map![
                "name"@ => TomlView::Text(e.name),
                "host"@ => TomlView::Text(e.host),
                "port"@ => TomlView::Int(e.port as i64),
                "require_auth"@ => TomlView::Bool(e.require_auth)
            ],
        ),
        networks_table(a).dom() == a.dom(),
        a.dom().contains(k) ==> networks_table(a)[k] == TomlView::Table(map!["authority"@ => TomlView::Text(a[k])]),
        addrs_list(s) is Array && addrs_list(s)->Array_0.len() == s.len(),
        0 <= i < s.len() ==> addrs_list(s)->Array_0[i] == TomlView::Text(addr_text(s[i])),
        storable(c) <==> (forall|j: int|
            0 <= j < c.network.announce_addresses@.len() ==> addr_of_text(
                addr_text((#[trigger] c.network.announce_addresses@[j])@),
            ) == Ok::<Seq<Part>, Seq<char>>(c.network.announce_addresses@[j]@)) && (forall|j: int|
            0 <= j < c.services.kademlia.bootstrap_nodes@.len() ==> addr_of_text(
                addr_text((#[trigger] c.services.kademlia.bootstrap_nodes@[j])@),
            ) == Ok::<Seq<Part>, Seq<char>>(c.services.kademlia.bootstrap_nodes@[j]@)),
{
    network_names();
    assert(networks_table(a).dom() =~= a.dom());
    if storable(c) {
        assert forall|j: int| 0 <= j < c.network.announce_addresses@.len() implies addr_of_text(
            addr_text((#[trigger] c.network.announce_addresses@[j])@),
        ) == Ok::<Seq<Part>, Seq<char>>(c.network.announce_addresses@[j]@) by {
            assert(reads_back(c.network.announce_addresses@[j]@));
        }
        assert forall|j: int| 0 <= j < c.services.kademlia.bootstrap_nodes@.len() implies addr_of_text(
            addr_text((#[trigger] c.services.kademlia.bootstrap_nodes@[j])@),
        ) == Ok::<Seq<Part>, Seq<char>>(c.services.kademlia.bootstrap_nodes@[j]@) by {
            assert(reads_back(c.services.kademlia.bootstrap_nodes@[j]@));
        }
    }
}

} // verus!
