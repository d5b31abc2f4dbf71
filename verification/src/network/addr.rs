//! The node's own addresses: which are public, what is announced, and what others can dial.

use crate::config::{ConfigHandle, NetworkConfig, NodeConfig};
use crate::lists::kept_exactly;
use crate::multiaddr::{
    addr_views, has_peer, peer_is_added_once, with_peer, with_peer_names_one, IpAddr, Multiaddr, Part, Protocol,
};
use vstd::prelude::*;

verus! {

/// Whether an IPv4 address is in 127.0.0.0/8.
pub open spec fn v4_loopback(n: u32) -> bool {
    n / 0x1000000 == 127
}

/// Whether an IPv4 address is in 10.0.0.0/8, 172.16.0.0/12 or 192.168.0.0/16.
pub open spec fn v4_private(n: u32) -> bool {
    n / 0x1000000 == 10 || n / 0x100000 == 0xac1 || n / 0x10000 == 0xc0a8
}

/// Whether an IPv4 address is in 169.254.0.0/16.
pub open spec fn v4_link_local(n: u32) -> bool {
    n / 0x10000 == 0xa9fe
}

/// Whether an IPv6 address is ::1 or ::, in ff00::/8, in fe80::/10, or in fc00::/7.
pub open spec fn v6_not_public(n: u128) -> bool {
    ||| n == 1
    ||| n == 0
    ||| n / 0x1000000000000000000000000000000 == 0xff
    ||| n / 0x400000000000000000000000000000 == 0x3fa
    ||| n / 0x2000000000000000000000000000000 == 0x7e
}

/// Whether an address can be reached from the internet.
pub open spec fn public_ip(ip: IpAddr) -> bool {
    match ip {
        IpAddr::V4(n) => !v4_loopback(n) && !v4_private(n) && !v4_link_local(n),
        IpAddr::V6(n) => !v6_not_public(n),
    }
}

/// The public addresses among some, in order.
pub open spec fn public_only(s: Seq<IpAddr>) -> Seq<IpAddr>
    decreases s.len(),
{
    if s.len() == 0 {
        Seq::empty()
    } else if public_ip(s.last()) {
        public_only(s.drop_last()).push(s.last())
    } else {
        public_only(s.drop_last())
    }
}

fn is_public(ip: IpAddr) -> (r: bool)
    ensures
        r == public_ip(ip),
{
    match ip {
        IpAddr::V4(n) => !(n / 0x1000000 == 127) && !(n / 0x1000000 == 10 || n / 0x100000 == 0xac1 || n
            / 0x10000 == 0xc0a8) && !(n / 0x10000 == 0xa9fe),
        IpAddr::V6(n) => !(n == 1 || n == 0 || n / 0x1000000000000000000000000000000 == 0xff || n
            / 0x400000000000000000000000000000 == 0x3fa || n / 0x2000000000000000000000000000000 == 0x7e),
    }
}

/// The public ones among the addresses of the node's interfaces.
pub fn get_public_ips(interfaces: &Vec<IpAddr>) -> (r: Vec<IpAddr>)
    ensures
        r@ == public_only(interfaces@),
{
    let mut ips: Vec<IpAddr> = Vec::new();
    let mut i: usize = 0;
    assert(interfaces@.subrange(0, 0) =~= Seq::<IpAddr>::empty());
    while i < interfaces.len()
        invariant
            i <= interfaces@.len(),
            ips@ == public_only(interfaces@.subrange(0, i as int)),
        decreases interfaces@.len() - i,
    {
        proof {
            let upto = interfaces@.subrange(0, i + 1);
            assert(upto.drop_last() =~= interfaces@.subrange(0, i as int));
            assert(upto.last() == interfaces@[i as int]);
        }
        if is_public(interfaces[i]) {
            ips.push(interfaces[i]);
        }
        i += 1;
    }
    assert(interfaces@.subrange(0, interfaces@.len() as int) =~= interfaces@);
    ips
}

/// The parts of the address of a port at an IP address.
pub open spec fn ip_port(ip: IpAddr, port: u16) -> Seq<Part> {
    match ip {
        IpAddr::V4(n) => seq![Part::Ip4(n), Part::Tcp(port)],
        IpAddr::V6(n) => seq![Part::Ip6(n), Part::Tcp(port)],
    }
}

/// The address of a port at an IP address.
pub fn to_multiaddr(ip: IpAddr, port: u16) -> (r: Multiaddr)
    ensures
        r@ == ip_port(ip, port),
{
    let mut addr = Multiaddr { parts: Vec::new() };
    assert(addr@ =~= Seq::<Part>::empty());
    match ip {
        IpAddr::V4(n) => addr.push(Protocol::Ip4(n)),
        IpAddr::V6(n) => addr.push(Protocol::Ip6(n)),
    }
    addr.push(Protocol::Tcp(port));
    assert(addr@ =~= ip_port(ip, port));
    addr
}

/// The low sixteen bits of a configured port.
pub open spec fn port16(port: u32) -> u16 {
    (port % 65536) as u16
}

/// What others can dial: each announced address with this node's peer id at its end, unless it
/// names a peer already.
pub open spec fn dialable(announced: Seq<Seq<Part>>, peer: Seq<char>) -> Seq<Seq<Part>> {
    announced.map_values(|a: Seq<Part>| with_peer(a, peer))
}

/// The addresses at which others can dial this node.
pub fn dialable_addrs(config: &ConfigHandle, peer_id: &str) -> (r: Vec<Multiaddr>)
    ensures
        addr_views(r@) == dialable(addr_views(config.inner.network.announce_addresses@), peer_id@),
        forall|i: int| 0 <= i < r@.len() ==> has_peer((#[trigger] r@[i])@),
{
    let announced = &config.inner.network.announce_addresses;
    let mut out: Vec<Multiaddr> = Vec::new();
    let mut i: usize = 0;
    while i < announced.len()
        invariant
            i <= announced@.len(),
            out@.len() == i,
            forall|j: int| 0 <= j < i ==> (#[trigger] out@[j])@ == with_peer(announced@[j]@, peer_id@),
            forall|j: int| 0 <= j < i ==> has_peer((#[trigger] out@[j])@),
        decreases announced@.len() - i,
    {
        out.push(announced[i].with_peer(peer_id));
        proof {
            with_peer_names_one(announced@[i as int]@, peer_id@);
        }
        i += 1;
    }
    assert(addr_views(out@) =~= dialable(addr_views(announced@), peer_id@));
    out
}

/// The addresses of one family among some, in order.
pub open spec fn family(s: Seq<IpAddr>, v4: bool) -> Seq<IpAddr>
    decreases s.len(),
{
    if s.len() == 0 {
        Seq::empty()
    } else if (s.last() is V4) == v4 {
        family(s.drop_last(), v4).push(s.last())
    } else {
        family(s.drop_last(), v4)
    }
}

/// The first address, if there is one.
pub open spec fn first_of(s: Seq<IpAddr>) -> Option<IpAddr> {
    if s.len() == 0 {
        None
    } else {
        Some(s[0])
    }
}

/// What is announced for some addresses: those of IPv4, then those of IPv6, each at the port.
pub open spec fn announced_for(ips: Seq<IpAddr>, port: u16) -> Seq<Seq<Part>> {
    (family(ips, true) + family(ips, false)).map_values(|ip: IpAddr| ip_port(ip, port))
}

fn split_family(ips: &Vec<IpAddr>, v4: bool) -> (r: Vec<IpAddr>)
    ensures
        r@ == family(ips@, v4),
{
    let mut out: Vec<IpAddr> = Vec::new();
    let mut i: usize = 0;
    assert(ips@.subrange(0, 0) =~= Seq::<IpAddr>::empty());
    while i < ips.len()
        invariant
            i <= ips@.len(),
            out@ == family(ips@.subrange(0, i as int), v4),
        decreases ips@.len() - i,
    {
        proof {
            let upto = ips@.subrange(0, i + 1);
            assert(upto.drop_last() =~= ips@.subrange(0, i as int));
            assert(upto.last() == ips@[i as int]);
        }
        if ips[i].is_ipv4() == v4 {
            out.push(ips[i]);
        }
        i += 1;
    }
    assert(ips@.subrange(0, ips@.len() as int) =~= ips@);
    out
}

fn first_ip(ips: &Vec<IpAddr>) -> (r: Option<IpAddr>)
    ensures
        r == first_of(ips@),
{
    if ips.len() == 0 {
        None
    } else {
        Some(ips[0])
    }
}

/// Whether two lists of addresses say the same.
pub fn same_addrs(a: &Vec<Multiaddr>, b: &Vec<Multiaddr>) -> (r: bool)
    ensures
        r == (addr_views(a@) == addr_views(b@)),
{
    if a.len() != b.len() {
        assert(addr_views(a@).len() != addr_views(b@).len());
        return false;
    }
    let mut i: usize = 0;
    while i < a.len()
        invariant
            a@.len() == b@.len(),
            i <= a@.len(),
            forall|j: int| 0 <= j < i ==> (#[trigger] a@[j])@ == b@[j]@,
        decreases a@.len() - i,
    {
        if !a[i].same(&b[i]) {
            assert(addr_views(a@)[i as int] != addr_views(b@)[i as int]);
            return false;
        }
        i += 1;
    }
    assert(addr_views(a@) =~= addr_views(b@));
    true
}

fn same_ip(a: Option<IpAddr>, b: Option<IpAddr>) -> (r: bool)
    ensures
        r == (a == b),
{
    match (a, b) {
        (Some(x), Some(y)) => x == y,
        (None, None) => true,
        _ => false,
    }
}

/// What became of the configuration.
#[derive(Debug, Clone, Copy, PartialEq, Eq, Structural)]
pub enum AddressUpdate {
    /// The node has no public address.
    NoPublicIp,
    /// The configuration already says so.
    Unchanged,
    /// The configuration was changed and is to be saved.
    Updated,
}

/// Whether the network part of a configuration already fits the node's public addresses.
pub open spec fn fits(n: NetworkConfig, ips: Seq<IpAddr>) -> bool {
    &&& n.ipv4_address == first_of(family(ips, true))
    &&& n.ipv6_address == first_of(family(ips, false))
    &&& addr_views(n.announce_addresses@) == announced_for(ips, port16(n.port))
}

/// Puts the node's public addresses into the configuration: for each family whether it is there
/// and its first address, and all of them as announced addresses.
pub fn update_config_with_public_ip(config: &mut ConfigHandle, public_ips: &Vec<IpAddr>) -> (r: AddressUpdate)
    ensures
        r == (if public_ips@.len() == 0 {
            AddressUpdate::NoPublicIp
        } else if fits(old(config).inner.network, public_ips@) {
            AddressUpdate::Unchanged
        } else {
            AddressUpdate::Updated
        }),
        r != AddressUpdate::Updated ==> *final(config) == *old(config),
        r == AddressUpdate::Updated ==> ({
            let n = final(config).inner.network;
            &&& fits(n, public_ips@)
            &&& n.ipv4_enabled == (family(public_ips@, true).len() > 0)
            &&& n.ipv6_enabled == (family(public_ips@, false).len() > 0)
            &&& n.port == old(config).inner.network.port
            &&& final(config).inner == (NodeConfig { network: n, ..old(config).inner })
        }),
{
    let ipv4_addrs = split_family(public_ips, true);
    let ipv6_addrs = split_family(public_ips, false);
    proof {
        families_cover(public_ips@);
    }
    if ipv4_addrs.len() == 0 && ipv6_addrs.len() == 0 {
        return AddressUpdate::NoPublicIp;
    }
    let port: u16 = (config.inner.network.port % 65536) as u16;
    let mut announce: Vec<Multiaddr> = Vec::new();
    let ghost both = ipv4_addrs@ + ipv6_addrs@;
    let mut i: usize = 0;
    while i < ipv4_addrs.len()
        invariant
            i <= ipv4_addrs@.len(),
            both == ipv4_addrs@ + ipv6_addrs@,
            announce@.len() == i,
            forall|j: int| 0 <= j < i ==> (#[trigger] announce@[j])@ == ip_port(both[j], port),
        decreases ipv4_addrs@.len() - i,
    {
        announce.push(to_multiaddr(ipv4_addrs[i], port));
        i += 1;
    }
    let n4: usize = ipv4_addrs.len();
    let mut k: usize = 0;
    while k < ipv6_addrs.len()
        invariant
            k <= ipv6_addrs@.len(),
            n4 == ipv4_addrs@.len(),
            both == ipv4_addrs@ + ipv6_addrs@,
            announce@.len() == n4 + k,
            forall|j: int| 0 <= j < n4 + k ==> (#[trigger] announce@[j])@ == ip_port(both[j], port),
        decreases ipv6_addrs@.len() - k,
    {
        announce.push(to_multiaddr(ipv6_addrs[k], port));
        k += 1;
    }
    assert(addr_views(announce@) =~= announced_for(public_ips@, port));
    let first4 = first_ip(&ipv4_addrs);
    let first6 = first_ip(&ipv6_addrs);
    if same_ip(config.inner.network.ipv4_address, first4) && same_ip(
        config.inner.network.ipv6_address,
        first6,
    ) && same_addrs(&config.inner.network.announce_addresses, &announce) {
        return AddressUpdate::Unchanged;
    }
    config.inner.network.ipv4_enabled = ipv4_addrs.len() > 0;
    config.inner.network.ipv4_address = first4;
    config.inner.network.ipv6_enabled = ipv6_addrs.len() > 0;
    config.inner.network.ipv6_address = first6;
    config.inner.network.announce_addresses = announce;
    AddressUpdate::Updated
}

/// Every address is of one family or the other.
proof fn families_cover(s: Seq<IpAddr>)
    ensures
        family(s, true).len() + family(s, false).len() == s.len(),
    decreases s.len(),
{
    if s.len() > 0 {
        families_cover(s.drop_last());
    }
}

/// Only public addresses are kept, and every public one is.
pub proof fn public_only_is_exact(s: Seq<IpAddr>)
    ensures
        forall|ip: IpAddr| #[trigger] public_only(s).contains(ip) <==> s.contains(ip) && public_ip(ip),
    decreases s.len(),
{
    if s.len() > 0 {
        let before = s.drop_last();
        public_only_is_exact(before);
        assert forall|ip: IpAddr| #[trigger] public_only(s).contains(ip) <==> s.contains(ip) && public_ip(ip) by {
            assert(s =~= before.push(s.last()));
            if public_only(s).contains(ip) {
                let i = choose|i: int| 0 <= i < public_only(s).len() && public_only(s)[i] == ip;
                if i < public_only(before).len() {
                    assert(public_only(before)[i] == ip);
                    assert(public_only(before).contains(ip));
                    let j = choose|j: int| 0 <= j < before.len() && before[j] == ip;
                    assert(s[j] == ip);
                } else {
                    assert(s[s.len() - 1] == ip);
                }
            }
            if s.contains(ip) && public_ip(ip) {
                let j = choose|j: int| 0 <= j < s.len() && s[j] == ip;
                if j < before.len() {
                    assert(before[j] == ip);
                    assert(public_only(before).contains(ip));
                    let i = choose|i: int| 0 <= i < public_only(before).len() && public_only(before)[i] == ip;
                    assert(public_only(s)[i] == ip);
                } else {
                    assert(public_only(s)[public_only(before).len() as int] == ip);
                }
            }
        }
    }
}

/// Where the node listens: on each family that is turned on, at the configured address or at any.
pub open spec fn listening(n: NetworkConfig) -> Seq<Seq<Part>> {
    let v4 = if n.ipv4_enabled {
        seq![ip_port(match n.ipv4_address { Some(ip) => ip, None => IpAddr::V4(0) }, port16(n.port))]
    } else {
        Seq::empty()
    };
    let v6 = if n.ipv6_enabled {
        seq![ip_port(match n.ipv6_address { Some(ip) => ip, None => IpAddr::V6(0) }, port16(n.port))]
    } else {
        Seq::empty()
    };
    v4 + v6
}

/// The addresses on which the node listens.
pub fn listen_addrs(config: &ConfigHandle) -> (r: Vec<Multiaddr>)
    ensures
        addr_views(r@) == listening(config.inner.network),
{
    let n = &config.inner.network;
    let port: u16 = (n.port % 65536) as u16;
    let mut addrs: Vec<Multiaddr> = Vec::new();
    if n.ipv4_enabled {
        let ip = match n.ipv4_address {
            Some(ip) => ip,
            None => IpAddr::V4(0),
        };
        addrs.push(to_multiaddr(ip, port));
    }
    if n.ipv6_enabled {
        let ip = match n.ipv6_address {
            Some(ip) => ip,
            None => IpAddr::V6(0),
        };
        addrs.push(to_multiaddr(ip, port));
    }
    assert(addr_views(addrs@) =~= listening(*n));
    addrs
}

/// The addresses that cannot be reached from the internet, as ranges of numbers; all others can.
pub proof fn public_addresses_by_range(n: u32, m: u128)
    ensures
        public_ip(IpAddr::V4(n)) <==> !(0x7f00_0000 <= n <= 0x7fff_ffff || 0x0a00_0000 <= n <= 0x0aff_ffff || 0xac10_0000 <= n
            <= 0xac1f_ffff || 0xc0a8_0000 <= n <= 0xc0a8_ffff || 0xa9fe_0000 <= n <= 0xa9fe_ffff),
        public_ip(IpAddr::V6(m)) <==> !(m <= 1 || 0xff00_0000_0000_0000_0000_0000_0000_0000 <= m
            || 0xfe80_0000_0000_0000_0000_0000_0000_0000 <= m <= 0xfebf_ffff_ffff_ffff_ffff_ffff_ffff_ffff
            || 0xfc00_0000_0000_0000_0000_0000_0000_0000 <= m <= 0xfdff_ffff_ffff_ffff_ffff_ffff_ffff_ffff),
{
}

/// The public addresses among some are kept in their order, and so are those of a family.
pub proof fn addresses_keep_their_order(s: Seq<IpAddr>)
    ensures
        public_only(s) == s.filter(|ip: IpAddr| public_ip(ip)),
        family(s, true) == s.filter(|ip: IpAddr| ip is V4),
        family(s, false) == s.filter(|ip: IpAddr| ip is V6),
    decreases s.len(),
{
    reveal(Seq::filter);
    if s.len() > 0 {
        addresses_keep_their_order(s.drop_last());
    }
}

/// Every one of some addresses is announced, at the port, and nothing else is; those of IPv4 come
/// first, and within a family the order stays.
pub proof fn every_address_is_announced(ips: Seq<IpAddr>, port: u16)
    ensures
        announced_for(ips, port).len() == ips.len(),
        forall|k: int|
            0 <= k < ips.len() ==> announced_for(ips, port).contains(
                match #[trigger] ips[k] {
                    IpAddr::V4(n) => seq![Part::Ip4(n), Part::Tcp(port)],
                    IpAddr::V6(n) => seq![Part::Ip6(n), Part::Tcp(port)],
                },
            ),
        ({
            let v4 = ips.filter(|ip: IpAddr| ip is V4);
            let v6 = ips.filter(|ip: IpAddr| ip is V6);
            &&& v4.len() + v6.len() == ips.len()
            &&& forall|k: int|
                0 <= k < v4.len() ==> #[trigger] announced_for(ips, port)[k] == seq![Part::Ip4(v4[k]->V4_0), Part::Tcp(port)]
            &&& forall|k: int|
                v4.len() <= k < ips.len() ==> #[trigger] announced_for(ips, port)[k] == seq![
                    Part::Ip6(v6[k - v4.len()]->V6_0),
                    Part::Tcp(port),
                ]
        }),
{
    families_cover(ips);
    addresses_keep_their_order(ips);
    let is4 = |ip: IpAddr| ip is V4;
    let is6 = |ip: IpAddr| ip is V6;
    kept_exactly(ips, is4);
    kept_exactly(ips, is6);
    let v4 = ips.filter(is4);
    let v6 = ips.filter(is6);
    let all = announced_for(ips, port);
    assert forall|k: int| 0 <= k < v4.len() implies #[trigger] all[k] == seq![Part::Ip4(v4[k]->V4_0), Part::Tcp(port)] by {
        assert(is4(v4[k]));
    }
    assert forall|k: int| v4.len() <= k < ips.len() implies #[trigger] all[k] == seq![
        Part::Ip6(v6[k - v4.len()]->V6_0),
        Part::Tcp(port),
    ] by {
        assert(is6(v6[k - v4.len()]));
    }
    assert forall|k: int| 0 <= k < ips.len() implies all.contains(
        match #[trigger] ips[k] {
            IpAddr::V4(n) => seq![Part::Ip4(n), Part::Tcp(port)],
            IpAddr::V6(n) => seq![Part::Ip6(n), Part::Tcp(port)],
        },
    ) by {
        if ips[k] is V4 {
            assert(v4.contains(ips[k]));
            let i = choose|i: int| 0 <= i < v4.len() && v4[i] == ips[k];
            assert(all[i] == seq![Part::Ip4(v4[i]->V4_0), Part::Tcp(port)]);
        } else {
            assert(v6.contains(ips[k]));
            let i = choose|i: int| 0 <= i < v6.len() && v6[i] == ips[k];
            assert(all[v4.len() + i] == seq![Part::Ip6(v6[i]->V6_0), Part::Tcp(port)]);
        }
    }
}

/// A configuration fits public addresses when it has the first of each family, or none where there is
/// none, and announces them all at its port.
pub proof fn fitting_names_the_first_of_each_family(n: NetworkConfig, ips: Seq<IpAddr>)
    requires
        n.port < 65536,
    ensures
        fits(n, ips) <==> {
            let v4 = ips.filter(|ip: IpAddr| ip is V4);
            let v6 = ips.filter(|ip: IpAddr| ip is V6);
            &&& n.ipv4_address == (if v4.len() > 0 {
                Some(v4[0])
            } else {
                None
            })
            &&& n.ipv6_address == (if v6.len() > 0 {
                Some(v6[0])
            } else {
                None
            })
            &&& addr_views(n.announce_addresses@) == announced_for(ips, n.port as u16)
        },
{
    addresses_keep_their_order(ips);
}

/// The node listens once for each family that is turned on, IPv4 first, at the configured address or at
/// any, and at the configured port; where no family is turned on, nowhere.
pub proof fn node_listens_where_configured(n: NetworkConfig)
    requires
        n.port < 65536,
        n.ipv4_address matches Some(ip) ==> ip is V4,
        n.ipv6_address matches Some(ip) ==> ip is V6,
    ensures
        ({
            let v4 = seq![
                Part::Ip4(
                    if n.ipv4_address is Some {
                        n.ipv4_address->0->V4_0
                    } else {
                        0
                    },
                ),
                Part::Tcp(n.port as u16),
            ];
            let v6 = seq![
                Part::Ip6(
                    if n.ipv6_address is Some {
                        n.ipv6_address->0->V6_0
                    } else {
                        0
                    },
                ),
                Part::Tcp(n.port as u16),
            ];
            &&& n.ipv4_enabled && n.ipv6_enabled ==> listening(n) == seq![v4, v6]
            &&& n.ipv4_enabled && !n.ipv6_enabled ==> listening(n) == seq![v4]
            &&& !n.ipv4_enabled && n.ipv6_enabled ==> listening(n) == seq![v6]
            &&& !n.ipv4_enabled && !n.ipv6_enabled ==> listening(n) == Seq::<Seq<Part>>::empty()
        }),
        port16(n.port) == n.port,
{
}

/// Others can dial every announced address, in order: with this node at its end, unless it names a peer.
pub proof fn announced_can_be_dialled(announced: Seq<Seq<Part>>, peer: Seq<char>)
    ensures
        dialable(announced, peer).len() == announced.len(),
        forall|i: int|
            0 <= i < announced.len() ==> #[trigger] dialable(announced, peer)[i] == (if exists|j: int|
                0 <= j < announced[i].len() && #[trigger] announced[i][j] is P2p {
                announced[i]
            } else {
                announced[i].push(Part::P2p(peer))
            }),
{
    assert forall|i: int| 0 <= i < announced.len() implies #[trigger] dialable(announced, peer)[i] == (if exists|j: int|
        0 <= j < announced[i].len() && #[trigger] announced[i][j] is P2p {
        announced[i]
    } else {
        announced[i].push(Part::P2p(peer))
    }) by {
        peer_is_added_once(announced[i], peer, announced);
    }
}

/// Of a configured port that is too large, the low sixteen bits count.
pub proof fn port_is_cut_to_sixteen_bits(port: u32)
    ensures
        port16(port) == port % 65536,
        port == 65536 * (port as int / 65536) + port16(port),
{
}

} // verus!
