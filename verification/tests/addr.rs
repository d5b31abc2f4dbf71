use nexusnet::config::{ConfigHandle, NodeConfig};
use nexusnet::multiaddr::{
    bootstrap_addrs_from, extract_peer_id_from_multiaddr, is_dual_stack_addrs, IpAddr, Multiaddr, Protocol,
};
use nexusnet::network::addr::{
    dialable_addrs, get_public_ips, listen_addrs, to_multiaddr, update_config_with_public_ip, AddressUpdate,
};
use nexusnet::network::behaviour::{behaviour_settings, KadSettings, PingSettings, RelaySettings};
use nexusnet::node_controller::peers::is_network_agent;

fn peer() -> String {
    libp2p::identity::Keypair::generate_ed25519()
        .public()
        .to_peer_id()
        .to_string()
}

fn addr(t: &str) -> Multiaddr {
    Multiaddr::from_text(t).unwrap()
}

fn v4(t: &str) -> IpAddr {
    match libp2p::multiaddr::Protocol::Ip4(t.parse().unwrap()) {
        libp2p::multiaddr::Protocol::Ip4(ip) => IpAddr::V4(ip.into()),
        _ => unreachable!(),
    }
}

fn v6(t: &str) -> IpAddr {
    match libp2p::multiaddr::Protocol::Ip6(t.parse().unwrap()) {
        libp2p::multiaddr::Protocol::Ip6(ip) => IpAddr::V6(ip.into()),
        _ => unreachable!(),
    }
}

#[test]
fn appends_peer_id_to_announce_addresses() {
    let mut cfg = NodeConfig::default();
    cfg.network.announce_addresses = vec![
        addr("/ip6/2001:db8::1/tcp/5000"),
        addr("/ip4/1.2.3.4/tcp/5000"),
    ];
    let handle = ConfigHandle::new(cfg);
    let pid = peer();

    let addrs = dialable_addrs(&handle, &pid);
    assert_eq!(addrs.len(), 2);
    for addr in &addrs {
        assert!(
            addr.to_text().ends_with(&format!("/p2p/{pid}")),
            "missing peer id suffix: {}", addr.to_text()
        );
    }
}

#[test]
fn does_not_duplicate_existing_peer_id() {
    let pid = peer();
    let mut cfg = NodeConfig::default();
    cfg.network.announce_addresses =
        vec![addr(&format!("/ip6/2001:db8::1/tcp/5000/p2p/{pid}"))];
    let handle = ConfigHandle::new(cfg);

    let addrs = dialable_addrs(&handle, &pid);
    assert_eq!(addrs.len(), 1);
    assert_eq!(
        addrs[0].to_text(),
        format!("/ip6/2001:db8::1/tcp/5000/p2p/{pid}")
    );
}

#[test]
fn dual_stack_detection() {
    let v4 = || addr("/ip4/1.2.3.4/tcp/5000");
    let v6 = || addr("/ip6/2001:db8::1/tcp/5000");
    assert!(!is_dual_stack_addrs(&vec![v4()]));
    assert!(!is_dual_stack_addrs(&vec![v6()]));
    assert!(is_dual_stack_addrs(&vec![v4(), v6()]));
}

#[test]
fn bootstrap_addrs_picks_one_per_family_with_peer_id() {
    let pid = peer();
    let v4 = addr("/ip4/1.2.3.4/tcp/5000");
    let v6a = addr("/ip6/2001:db8::1/tcp/5000");
    let v6b = addr("/ip6/2001:db8::2/tcp/5000");

    let addrs = bootstrap_addrs_from(&vec![v4, v6a, v6b], &pid);
    assert_eq!(addrs.len(), 2);
    assert!(addrs.iter().all(|a| {
        a.parts
            .iter()
            .any(|p| matches!(p, Protocol::P2p(id) if *id == pid))
    }));
    assert_eq!(
        addrs
            .iter()
            .filter(|a| a.parts.iter().any(|p| matches!(p, Protocol::Ip4(_))))
            .count(),
        1
    );
    assert_eq!(
        addrs
            .iter()
            .filter(|a| a.parts.iter().any(|p| matches!(p, Protocol::Ip6(_))))
            .count(),
        1
    );
}

#[test]
fn addresses_read_and_print_as_libp2p_does() {
    let pid = peer();
    for t in [
        "/ip4/127.0.0.1/tcp/0".to_string(),
        "/ip4/255.255.255.255/udp/1/quic-v1".to_string(),
        "/ip6/::/tcp/65535".to_string(),
        "/ip6/::ffff:1.2.3.4/tcp/1".to_string(),
        format!("/dns4/example.org/tcp/1/p2p/{pid}/p2p-circuit"),
    ] {
        let a = addr(&t);
        assert_eq!(a.to_text(), t.parse::<libp2p::Multiaddr>().unwrap().to_string());
        assert!(Multiaddr::from_text(&a.to_text()).unwrap().same(&a));
    }
    assert!(Multiaddr::from_text("nonsense").is_err());
    assert_eq!(addr("/ip4/1.2.3.4/tcp/5").parts, vec![Protocol::Ip4(0x01020304), Protocol::Tcp(5)]);
}

#[test]
fn first_peer_of_an_address() {
    let (a, b) = (peer(), peer());
    assert_eq!(extract_peer_id_from_multiaddr(&addr(&format!("/p2p/{a}/p2p-circuit/p2p/{b}"))), Some(a));
    assert_eq!(extract_peer_id_from_multiaddr(&addr("/ip4/1.2.3.4/tcp/1")), None);
}

#[test]
fn ip_texts_read_back() {
    for ip in [v4("0.0.0.0"), v4("192.168.0.255"), v6("::1"), v6("2001:db8::ff00:42:8329")] {
        assert_eq!(IpAddr::from_text(&ip.to_text()), Some(ip));
    }
    assert_eq!(v6("2001:0db8::0001").to_text(), "2001:db8::1");
    for t in ["", "1.2.3", "1.2.3.4.5", "256.1.1.1", "01.2.3.4", "1.2.3.4 ", ":::", "g::"] {
        assert_eq!(IpAddr::from_text(t), None, "{t}");
    }
}

#[test]
fn only_public_addresses_are_kept() {
    let hidden = [
        v4("127.0.0.1"), v4("127.255.255.255"), v4("10.1.2.3"), v4("172.16.0.1"), v4("172.31.255.255"),
        v4("192.168.1.1"), v4("169.254.0.1"), v6("::1"), v6("::"), v6("ff02::1"), v6("fe80::1"),
        v6("febf::1"), v6("fc00::1"), v6("fdff::1"),
    ];
    let public = [
        v4("8.8.8.8"), v4("172.32.0.1"), v4("172.15.0.1"), v4("192.169.0.1"), v6("2001:db8::1"), v6("fec0::1"),
        v6("fe00::1"),
    ];
    let all: Vec<IpAddr> = hidden.iter().chain(public.iter()).copied().collect();
    assert_eq!(get_public_ips(&all), public.to_vec());
}

#[test]
fn public_addresses_go_into_the_configuration() {
    let mut config = ConfigHandle::new(NodeConfig::default());
    assert_eq!(update_config_with_public_ip(&mut config, &vec![]), AddressUpdate::NoPublicIp);
    let ips = vec![v6("2001:db8::1"), v4("8.8.8.8"), v4("9.9.9.9")];
    assert_eq!(update_config_with_public_ip(&mut config, &ips), AddressUpdate::Updated);
    assert!(config.read().network.ipv4_enabled && config.read().network.ipv6_enabled);
    assert_eq!(config.read().network.ipv4_address, Some(v4("8.8.8.8")));
    assert_eq!(config.read().network.ipv6_address, Some(v6("2001:db8::1")));
    let announced: Vec<String> = config.read().network.announce_addresses.iter().map(|a| a.to_text()).collect();
    assert_eq!(announced, ["/ip4/8.8.8.8/tcp/5000", "/ip4/9.9.9.9/tcp/5000", "/ip6/2001:db8::1/tcp/5000"]);
    assert_eq!(update_config_with_public_ip(&mut config, &ips), AddressUpdate::Unchanged);
    assert_eq!(update_config_with_public_ip(&mut config, &vec![v4("8.8.8.8")]), AddressUpdate::Updated);
    assert!(!config.read().network.ipv6_enabled);
    assert_eq!(config.read().network.ipv6_address, None);
}

#[test]
fn node_listens_on_enabled_families() {
    let mut cfg = NodeConfig::default();
    assert!(listen_addrs(&ConfigHandle::new(cfg.copy())).is_empty());
    cfg.network.ipv4_enabled = true;
    cfg.network.ipv6_enabled = true;
    cfg.network.ipv6_address = Some(v6("2001:db8::1"));
    cfg.network.port = 65536 + 7;
    let texts: Vec<String> = listen_addrs(&ConfigHandle::new(cfg)).iter().map(|a| a.to_text()).collect();
    assert_eq!(texts, ["/ip4/0.0.0.0/tcp/7", "/ip6/2001:db8::1/tcp/7"]);
    assert_eq!(to_multiaddr(v4("1.2.3.4"), 9).to_text(), "/ip4/1.2.3.4/tcp/9");
}

#[test]
fn protocols_are_set_from_the_configuration() {
    let mut cfg = NodeConfig::default();
    let s = behaviour_settings(&ConfigHandle::new(cfg.copy()), "1.2.3");
    assert_eq!(s.ping, Some(PingSettings { interval_secs: 15, timeout_secs: 10 }));
    assert_eq!(s.agent_version, "/oahd/1.2.3");
    assert!(is_network_agent(&s.agent_version));
    assert_eq!(
        s.kademlia,
        Some(KadSettings { record_ttl_secs: 3600, query_timeout_secs: 60, replication_factor: Some(20) })
    );
    assert_eq!(s.relay, RelaySettings::RefuseAll);
    cfg.services.ping.enabled = false;
    cfg.services.kademlia.replication_factor = 0;
    cfg.network.ipv4_enabled = true;
    cfg.network.ipv6_enabled = true;
    let s = behaviour_settings(&ConfigHandle::new(cfg.copy()), "1");
    assert_eq!(s.ping, None);
    assert_eq!(s.kademlia.unwrap().replication_factor, None);
    assert_eq!(s.relay, RelaySettings::Grant(16));
    cfg.services.kademlia.enabled = false;
    assert_eq!(behaviour_settings(&ConfigHandle::new(cfg), "1").kademlia, None);
    assert!(!is_network_agent("/ipfs/1"));
    assert!(!is_network_agent("/oahd"));
}

#[test]
fn addresses_of_every_kind_read_back() {
    let texts = [
        "",
        "/ip4/127.0.0.1/tcp/1234",
        "/ip6/::ffff:1.2.3.4/tcp/+80",
        "/ip6/fe80::9700:803e:ca65:66e8:c21/ip6zone/wlan0",
        "/ipcidr/24",
        "/dns/",
        "/dns4//tcp/1",
        "/dns6/a b%2f",
        "/dnsaddr/example.org",
        "/unix/tmp",
        "/sctp/1/dccp/2/udp/3/udt/utp",
        "/memory/18446744073709551615",
        "/tcp/1/tls/noise/ws",
        "/tcp/1/wss",
        "/x-parity-ws/%2f",
        "/x-parity-ws/%2fa%25%c3%a9 ?",
        "/x-parity-wss/",
        "/http/https/quic/quic-v1/webtransport/webrtc/webrtc-direct/p2p-stardust",
        "/p2p-webrtc-star/p2p-webrtc-direct/p2p-websocket-star/p2p-circuit",
        "/certhash/uEiDDq4_xNyDorZBH3TlGazyJdOWSwvo4PUo5YHFMrvDE8g",
        "/onion/AAIMAQ4YGG2IEGCI:80",
        "/onion3/vww6ybal4bd7szmgncyruucpgfkqahzddi37ktceo3ah7ngmcopnpyyd:1234",
        "/garlic32/566niximlxdzpanmn4qouucvua3k7neniwss47li5r6ugoertzuq",
        "/sni/example.org",
        "/ipfs/QmcgpsyWgH8Y8ajJz1Cu72KnS5uo2Aa2LpzU7kinSupNKC",
    ];
    for t in texts {
        let a = addr(t);
        assert!(addr(&a.to_text()).same(&a), "{t}");
        assert_eq!(a.to_text(), t.parse::<libp2p::Multiaddr>().unwrap().to_string());
    }
    let garlic = format!("/garlic64/{}", "jT~-".repeat(129));
    assert!(addr(&addr(&garlic).to_text()).same(&addr(&garlic)));
}
