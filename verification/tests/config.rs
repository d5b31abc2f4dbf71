use nexusnet::config::{
    backup_extension, load_plan, AuthNetworkConfig, ConfigHandle, FileRead, LoadPlan, LocalServiceEntry, NodeConfig,
};
use nexusnet::config_file::{config_from_toml, config_to_toml, NOT_A_CONFIGURATION};
use nexusnet::multiaddr::{IpAddr, Multiaddr};

#[test]
fn parse_auth_section() {
    let toml = r#"
        [auth]
        network = "myorg"
        [auth.networks.myorg]
        authority = "AAAA"
    "#;
    let node: NodeConfig = config_from_toml(toml).unwrap();
    let handle = ConfigHandle::new(node);
    assert_eq!(handle.auth_network(), "myorg");
    assert_eq!(handle.auth_authority("myorg"), Some("AAAA".to_string()));
    assert_eq!(handle.auth_authority("other"), None);
    assert_eq!(handle.auth_cache_ttl(), 300);
    assert_eq!(handle.auth_refresh_interval(), 60);
}

#[test]
fn auth_config_round_trip() {
    let toml = r#"
        [auth]
        network = "myorg"
        cache_ttl_secs = 120
        refresh_interval_secs = 30
        [auth.networks.myorg]
        authority = "BBBB"
    "#;
    let node: NodeConfig = config_from_toml(toml).unwrap();
    let s = config_to_toml(&node).unwrap();
    let back: NodeConfig = config_from_toml(&s).unwrap();
    assert_eq!(back.auth.network, "myorg");
    assert_eq!(back.auth.cache_ttl_secs, 120);
    assert_eq!(back.auth.refresh_interval_secs, 30);
    assert_eq!(back.auth.networks.get("myorg").unwrap().authority, "BBBB");
}

#[test]
fn legacy_config_without_auth_is_default() {
    let toml = r#"
        [node]
        name = "old"
    "#;
    let node: NodeConfig = config_from_toml(toml).unwrap();
    let handle = ConfigHandle::new(node);
    assert_eq!(handle.auth_network(), "none");
    assert!(handle.auth_required_services().is_empty());
}

fn same(a: &NodeConfig, b: &NodeConfig) {
    assert_eq!(format!("{:?}", a), format!("{:?}", b));
}

#[test]
fn empty_file_has_defaults() {
    let c = config_from_toml("").unwrap();
    same(&c, &NodeConfig::default());
    assert_eq!(c.node.name, "未设置的p2p节点");
    assert_eq!(c.node.description, "无详细描述");
    assert!(c.node.allow_bootstrap);
    assert_eq!(c.network.port, 5000);
    assert!(!c.network.ipv4_enabled && !c.network.ipv6_enabled);
    assert_eq!(c.services.ping.interval_secs, 15);
    assert_eq!(c.services.ping.with_timeout, 10);
    assert_eq!(c.services.ping.max_failures, 2);
    assert_eq!(c.services.kademlia.record_ttl_seconds, 3600);
    assert_eq!(c.services.kademlia.replication_factor, 20);
    assert_eq!(c.services.kademlia.query_timeout_seconds, 60);
    assert_eq!(c.services.dispatcher.record_ttl_secs, 3600);
    assert_eq!(c.services.relay.retry_interval_secs, 60);
    assert_eq!(c.services.relay.max_failures, 3);
    assert!(!c.crypto.pq_required);
}

#[test]
fn defaults_round_trip() {
    let c = NodeConfig::default();
    let text = config_to_toml(&c).unwrap();
    same(&config_from_toml(&text).unwrap(), &c);
    assert!(text.starts_with("[node]\n"));
    assert!(text.contains("[auth.networks]\n"));
}

fn full() -> NodeConfig {
    let mut c = NodeConfig::default();
    c.network.ipv4_enabled = true;
    c.network.ipv4_address = Some(IpAddr::V4(0x01020304));
    c.network.ipv6_address = Some(IpAddr::V6(0x20010db8_00000000_00000000_00000001));
    c.network.announce_addresses = vec![
        Multiaddr::from_text("/ip4/1.2.3.4/tcp/5000").unwrap(),
        Multiaddr::from_text("/ip6/2001:db8::1/tcp/5000").unwrap(),
    ];
    c.services.kademlia.bootstrap_nodes = vec![Multiaddr::from_text("/dns4/example.org/tcp/1").unwrap()];
    c.services.dispatcher.local_services = vec![
        LocalServiceEntry { name: "cmd".into(), host: "127.0.0.1".into(), port: 5014, require_auth: true },
        LocalServiceEntry { name: "ocr".into(), host: "\"h\"".into(), port: 1, require_auth: false },
    ];
    c
}

#[test]
fn full_config_round_trips() {
    let c = full();
    let text = config_to_toml(&c).unwrap();
    same(&config_from_toml(&text).unwrap(), &c);
    assert!(text.contains("ipv4_address = \"1.2.3.4\""));
    assert!(text.contains("ipv6_address = \"2001:db8::1\""));
    assert!(text.contains("[[services.dispatcher.local_services]]"));
}

#[test]
fn texts_with_control_characters_round_trip() {
    let odd = [
        "", "\n", "a\nb", "\r\n", "\t", "\u{0}", "\u{7f}", "'", "\"", "'''", "\"\"\"", "\n\"\"", "\n'''", "\\", "\\\n",
        "a\r\n'''\"\"\"\\\u{1}b", "\u{8}\u{c}\u{b}", "\u{feff}x", "# not a comment", "\n\n", "\"\n\"", "x\"\"\n\\",
        "\r", "a\rb\n", "\n\r", "'\n", "\n'", "\n\\\"\"\"'''", "''", "'\t\"", "\u{85}\u{2028}", "\u{10ffff}",
        "a.b", " ", "\n ",
    ];
    for text in odd {
        let mut c = NodeConfig::default();
        c.node.name = text.to_string();
        c.node.description = format!("a{text}");
        c.auth.network = format!("{text}z");
        c.auth.networks.insert(text.to_string(), AuthNetworkConfig { authority: text.to_string() });
        let host = text.to_string();
        c.services.dispatcher.local_services =
            vec![LocalServiceEntry { name: format!("{text}{text}"), host, port: 7, require_auth: true }];
        let written = config_to_toml(&c).unwrap();
        same(&config_from_toml(&written).unwrap(), &c);
    }
}

#[test]
fn every_network_name_round_trips() {
    let odd = "$__toml_private_datetime";
    for authority in ["", "AAAA", "1979-05-27T07:32:00Z"] {
        let mut c = NodeConfig::default();
        c.auth.networks.insert(odd.to_string(), AuthNetworkConfig { authority: authority.to_string() });
        let written = config_to_toml(&c).unwrap();
        same(&config_from_toml(&written).unwrap(), &c);
        c.auth.networks.insert("a".to_string(), AuthNetworkConfig { authority: "B".to_string() });
        let written = config_to_toml(&c).unwrap();
        let back = config_from_toml(&written).unwrap();
        assert_eq!(back.auth.networks.get(odd).unwrap().authority, authority);
        assert_eq!(back.auth.networks.get("a").unwrap().authority, "B");
    }
    let read = config_from_toml(&format!("[auth.networks.\"{odd}\"]\nauthority = \"C\"\n")).unwrap();
    assert_eq!(read.auth.networks.get(odd).unwrap().authority, "C");
    let dated = config_from_toml(&format!("[node]\n\"{odd}\" = \"1979-05-27T07:32:00Z\"\nname = \"n\"\n")).unwrap();
    assert_eq!(dated.node.name, "n");
    assert!(config_from_toml("[node]\nname = 1979-05-27T07:32:00Z\n").is_err());
    assert_eq!(config_from_toml("[network]\nport = 0x1388\n").unwrap().network.port, 5000);
}

#[test]
fn sections_can_be_written_by_place() {
    let c = config_from_toml("node = [\"n\", \"d\", false]\ncrypto = [true]\nauth = []\n").unwrap();
    assert_eq!((c.node.name.as_str(), c.node.description.as_str(), c.node.allow_bootstrap), ("n", "d", false));
    assert!(c.crypto.pq_transport_enabled && !c.crypto.pq_identity_enabled && !c.crypto.pq_required);
    assert_eq!((c.auth.network.as_str(), c.auth.cache_ttl_secs), ("none", 300));
    let c = config_from_toml("services = [[false, 1], [], [true, 2, 3, [[\"a\", \"h\", 9], {name = \"b\", host = \"i\", port = 1}]]]\n");
    let c = c.unwrap();
    assert_eq!((c.services.ping.enabled, c.services.ping.interval_secs, c.services.ping.with_timeout), (false, 1, 10));
    assert_eq!(c.services.kademlia.replication_factor, 20);
    assert_eq!((c.services.dispatcher.query_timeout_secs, c.services.dispatcher.record_ttl_secs), (2, 3));
    let l = &c.services.dispatcher.local_services;
    assert_eq!((l[0].name.as_str(), l[0].host.as_str(), l[0].port, l[0].require_auth), ("a", "h", 9, false));
    assert_eq!((l[1].name.as_str(), l[1].host.as_str(), l[1].port, l[1].require_auth), ("b", "i", 1, false));
    let c = config_from_toml("network = [true, \"1.2.3.4\", false, \"::1\", 7, [\"/ip4/1.2.3.4/tcp/5000\"], 8]\n").unwrap();
    assert_eq!((c.network.port, c.network.announce_addresses.len()), (7, 1));
    assert_eq!(c.network.ipv4_address, Some(IpAddr::V4(0x01020304)));
    let c = config_from_toml("node = 1979-05-27\n[auth.networks]\na = [\"A\"]\nb = []\nc = 07:32:00\n").unwrap();
    assert_eq!(c.node.name, "未设置的p2p节点");
    assert_eq!(c.auth.networks.get("a").unwrap().authority, "A");
    assert_eq!(c.auth.networks.get("b").unwrap().authority, "");
    assert_eq!(c.auth.networks.get("c").unwrap().authority, "");
    let refused = |t: &str| assert_eq!(config_from_toml(t).err().unwrap(), NOT_A_CONFIGURATION);
    refused("node = [1]\n");
    refused("node = [\"n\", \"d\", 1]\n");
    refused("node = 1.5\n");
    refused("services = [[], [], [true, 2, 3, [[\"a\", \"h\"]]]]\n");
    refused("services = [[], [], [true, 2, 3, [1979-05-27]]]\n");
    refused("[auth]\nnetworks = []\n");
    refused("[auth]\nnetworks = 1979-05-27\n");
}

#[test]
fn wrong_fields_are_refused_and_unknown_ones_passed_over() {
    let refused = |t: &str| assert_eq!(config_from_toml(t).err().unwrap(), NOT_A_CONFIGURATION);
    refused("[network]\nport = -1\n");
    refused("[network]\nport = 4294967296\n");
    refused("[network]\nport = \"5000\"\n");
    refused("[network]\nipv4_address = \"1.2.3\"\n");
    refused("[network]\nipv4_address = \"01.2.3.4\"\n");
    refused("[network]\nannounce_addresses = [\"nonsense\"]\n");
    refused("node = 3\n");
    refused("[[services.dispatcher.local_services]]\nname = \"a\"\nhost = \"h\"\n");
    refused("[[services.dispatcher.local_services]]\nname = \"a\"\nhost = \"h\"\nport = 65536\n");
    refused("[auth.networks]\nmyorg = 1\n");
    assert!(config_from_toml("= nonsense").is_err());
    let c = config_from_toml("unknown = 1\n[node]\nextra = 2\n[auth.networks.a]\n").unwrap();
    assert_eq!(c.auth.networks.get("a").unwrap().authority, "");
}

#[test]
fn required_services_and_their_switch() {
    let mut h = ConfigHandle::new(full());
    assert_eq!(h.auth_required_services(), vec!["cmd".to_string()]);
    assert!(h.service_requires_auth("cmd"));
    assert!(!h.service_requires_auth("ocr"));
    assert!(!h.set_service_require_auth("nobody", true));
    assert!(h.set_service_require_auth("cmd", false));
    assert!(!h.set_service_require_auth("cmd", false));
    assert!(!h.service_requires_auth("cmd"));
}

#[test]
fn setters_show_in_getters() {
    let mut h = ConfigHandle::new(NodeConfig::default());
    h.set_ping_enabled(false);
    h.set_ping_interval(7);
    h.set_kademlia_enabled(false);
    h.set_kademlia_record_ttl(8);
    h.set_kademlia_replication_factor(9);
    h.set_kademlia_query_timeout(10);
    h.set_listen_port(11);
    h.set_ipv4(true, Some(IpAddr::V4(1)));
    h.set_bootstrap_nodes(vec![Multiaddr::from_text("/ip4/1.2.3.4/tcp/1").unwrap()]);
    assert!(!h.ping_enabled());
    assert_eq!(h.ping_interval(), 7);
    assert!(!h.kademlia_enabled());
    assert_eq!(h.kademlia_record_ttl(), 8);
    assert_eq!(h.kademlia_replication_factor(), 9);
    assert_eq!(h.kademlia_query_timeout(), 10);
    assert_eq!(h.listen_port(), 11);
    assert!(h.ipv4_enabled());
    assert_eq!(h.bootstrap_nodes()[0].to_text(), "/ip4/1.2.3.4/tcp/1");
    assert!(!h.pq_enabled());
    h.write().crypto.pq_identity_enabled = true;
    assert!(h.pq_enabled());
    same(&h.snapshot(), h.read());
    h.replace_config(full());
    same(h.read(), &full());
}

#[test]
fn where_the_configuration_comes_from() {
    let parsed = || FileRead::Parsed(NodeConfig::default());
    assert!(matches!(load_plan(false, false, FileRead::NotFound), LoadPlan::UseDefault));
    assert!(matches!(load_plan(true, false, FileRead::NotFound), LoadPlan::WriteDefault));
    assert!(matches!(load_plan(false, true, FileRead::Unparsable), LoadPlan::SetAsideAndWriteDefault));
    assert!(matches!(load_plan(true, true, FileRead::Failed), LoadPlan::Exit));
    assert!(matches!(load_plan(true, true, parsed()), LoadPlan::Use(_)));
    assert_eq!(backup_extension(0), "bak");
    assert_eq!(backup_extension(12), "bak.12");
}
