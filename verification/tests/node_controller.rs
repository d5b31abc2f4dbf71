use base64::engine::general_purpose::STANDARD;
use base64::Engine;
use nexusnet::auth::{content_hash, sign_index, sign_whitelist, AuthCache, AuthError, AuthNetwork, IndexDoc, ServiceEntry, WhitelistDoc};
use nexusnet::config::{AuthNetworkConfig, ConfigHandle, LocalServiceEntry, NodeConfig};
use nexusnet::json::Json;
use nexusnet::multiaddr::{IpAddr, Multiaddr};
use nexusnet::node_controller::authorize::{
    authorize, handle_inbound, resolve_auth_state, unavailable, AuthState, Decision, InboundAction,
};
use nexusnet::node_controller::commands::{
    parse_add_key_value, Action, AuthLabel, AuthReport, CacheReport, Command, Event, IndexReport, KeyValue, Reply, Step,
    Waiting, WhitelistReport,
};
use nexusnet::node_controller::refresh::{
    at_least_one_second, index_fetched, refresh_pause, refresh_target, whitelist_fetched, Fetched, IndexOutcome,
    WhitelistOutcome,
};
use nexusnet::node_controller::relays::{relay_backoff_secs, NodeController};
use nexusnet::node_controller::replies::reply_bytes;
use nexusnet::node_controller::services::{announced_services, merge_types, provider_key, types_in};
use nexusnet::sidecar_protocol::Message;

const SEC: u64 = 1_000_000_000;

fn json(text: &str) -> Json {
    Json::from_bytes(text.as_bytes()).unwrap()
}

fn keypair() -> libp2p::identity::Keypair {
    libp2p::identity::Keypair::generate_ed25519()
}

fn peer() -> String {
    keypair().public().to_peer_id().to_string()
}

fn addr(t: &str) -> Multiaddr {
    Multiaddr::from_text(t).unwrap()
}

#[test]
fn backoff_grows_exponentially_and_caps() {
    assert_eq!(relay_backoff_secs(1), 30);
    assert_eq!(relay_backoff_secs(2), 60);
    assert_eq!(relay_backoff_secs(3), 120);
    assert_eq!(relay_backoff_secs(4), 240);
    assert_eq!(relay_backoff_secs(5), 480);
    assert_eq!(relay_backoff_secs(6), 600);
    assert_eq!(relay_backoff_secs(100), 600);
}

#[test]
fn parse_add_key_value_prefers_text() {
    let v = json(r#"{"value": "hi", "value_b64": "aGk="}"#);
    assert_eq!(parse_add_key_value(&v).unwrap(), Some(b"hi".to_vec()));
}

#[test]
fn parse_add_key_value_decodes_b64() {
    let v = json(r#"{"value_b64": "aGk="}"#);
    assert_eq!(parse_add_key_value(&v).unwrap(), Some(b"hi".to_vec()));
}

#[test]
fn parse_add_key_value_none() {
    let v = json(r#"{"key": "k"}"#);
    assert_eq!(parse_add_key_value(&v).unwrap(), None);
}

#[test]
fn parse_add_key_value_rejects_bad_base64() {
    let v = json(r#"{"value_b64": "!!!"}"#);
    assert!(parse_add_key_value(&v).is_err());
}

#[test]
fn parse_add_key_value_rejects_non_string() {
    let v = json(r#"{"value": 123}"#);
    assert!(parse_add_key_value(&v).is_err());
}

struct Org {
    kp: libp2p::identity::Keypair,
    config: ConfigHandle,
}

fn org() -> Org {
    let kp = keypair();
    let mut c = NodeConfig::default();
    c.auth.network = "myorg".into();
    let authority = STANDARD.encode(kp.public().try_into_ed25519().unwrap().to_bytes());
    c.auth.networks.insert("myorg".into(), AuthNetworkConfig { authority });
    c.services.dispatcher.local_services = vec![
        LocalServiceEntry { name: "cmd".into(), host: "h".into(), port: 1, require_auth: true },
        LocalServiceEntry { name: "ocr".into(), host: "h".into(), port: 2, require_auth: false },
    ];
    Org { kp, config: ConfigHandle::new(c) }
}

impl Org {
    fn net(&self) -> AuthNetwork {
        match resolve_auth_state(&self.config) {
            AuthState::Active(net) => net,
            _ => panic!("not active"),
        }
    }

    fn key(&self) -> Vec<u8> {
        self.kp.to_protobuf_encoding().unwrap()
    }
}

fn denied(d: Decision) -> String {
    match d {
        Decision::Deny(reason) => reason,
        _ => panic!("not denied"),
    }
}

#[test]
fn state_of_authorization() {
    let mut o = org();
    assert!(matches!(resolve_auth_state(&o.config), AuthState::Active(n) if n.name == "myorg"));
    o.config.write().auth.network = "none".into();
    assert!(matches!(resolve_auth_state(&o.config), AuthState::Disabled));
    o.config.write().auth.network = "other".into();
    assert!(matches!(resolve_auth_state(&o.config), AuthState::Misconfigured(r) if r == "鉴权网络 'other' 未配置权威公钥"));
    o.config.write().auth.networks.insert("other".into(), AuthNetworkConfig { authority: "AAAA".into() });
    assert!(matches!(resolve_auth_state(&o.config), AuthState::Misconfigured(r)
        if r == "鉴权网络 'other' 权威公钥无效: invalid authority public key"));
}

#[test]
fn authorization_decides_from_the_cache() {
    let o = org();
    let state = resolve_auth_state(&o.config);
    let mut cache = AuthCache::default();
    let (member, stranger) = (peer(), peer());
    let ask = |cache: &AuthCache, p: &str, s: &str, now: u64, clock: u64| {
        authorize(&state, &o.config, Some(cache), p, s, now, clock)
    };
    assert!(matches!(ask(&cache, &stranger, "ocr", 0, 0), Decision::Allow));
    assert_eq!(denied(ask(&cache, &member, "cmd", 0, 0)), "auth index unavailable");
    cache.insert_index(IndexDoc { version: 1, expires_at: 100, services: vec![] }, 0).unwrap();
    assert!(matches!(ask(&cache, &member, "cmd", 100, 0), Decision::AllowUnprotected));
    assert_eq!(denied(ask(&cache, &member, "cmd", 101, 0)), "auth index unavailable");
    assert_eq!(denied(ask(&cache, &member, "cmd", 100, 300 * SEC)), "auth index unavailable");
    let entry = ServiceEntry { name: "cmd".into(), hash: vec![0; 32], length: 0 };
    cache.insert_index(IndexDoc { version: 2, expires_at: 100, services: vec![entry] }, 0).unwrap();
    assert_eq!(denied(ask(&cache, &member, "cmd", 0, 0)), "whitelist unavailable");
    cache.insert_whitelist("cmd", WhitelistDoc { version: 1, members: vec![member.clone()] }, 0).unwrap();
    assert!(matches!(ask(&cache, &member, "cmd", 0, 0), Decision::Allow));
    assert_eq!(denied(ask(&cache, &stranger, "cmd", 0, 0)), "peer not authorized");
    assert_eq!(denied(authorize(&state, &o.config, None, &member, "cmd", 0, 0)), "auth cache poisoned");
}

#[test]
fn misconfigured_network_refuses_required_services_only() {
    let o = org();
    let state = AuthState::Misconfigured("why".into());
    let cache = AuthCache::default();
    assert_eq!(denied(authorize(&state, &o.config, Some(&cache), "p", "cmd", 0, 0)), "why");
    assert!(matches!(authorize(&state, &o.config, Some(&cache), "p", "ocr", 0, 0), Decision::Allow));
    assert!(matches!(authorize(&AuthState::Disabled, &o.config, None, "p", "cmd", 0, 0), Decision::Allow));
}

#[test]
fn refused_request_is_answered() {
    let mut o = org();
    let state = resolve_auth_state(&o.config);
    let cache = AuthCache::default();
    match handle_inbound(&state, &mut o.config, Some(&cache), "p", "cmd", 0, 0) {
        InboundAction::Refuse { reason, response } => {
            assert_eq!(reason, "auth index unavailable");
            assert!(!response.success);
            assert_eq!(response.data, b"unauthorized: auth index unavailable");
        }
        _ => panic!("not refused"),
    }
    assert_eq!(unavailable("gone").data, b"service unavailable: gone");
}

#[test]
fn unprotected_service_stops_requiring_authorization() {
    let mut o = org();
    let state = resolve_auth_state(&o.config);
    let mut cache = AuthCache::default();
    cache.insert_index(IndexDoc { version: 1, expires_at: 100, services: vec![] }, 0).unwrap();
    let r = handle_inbound(&state, &mut o.config, Some(&cache), "p", "cmd", 0, 0);
    assert!(matches!(r, InboundAction::Forward { save: true }));
    assert!(!o.config.service_requires_auth("cmd"));
    let r = handle_inbound(&state, &mut o.config, Some(&cache), "p", "cmd", 0, 0);
    assert!(matches!(r, InboundAction::Forward { save: false }));
}

#[test]
fn refresh_keeps_index_and_whitelist() {
    let o = org();
    let net = o.net();
    let member = peer();
    let list = WhitelistDoc { version: 7, members: vec![member.clone()] };
    let list = sign_whitelist(&o.key(), &net, "cmd", &list).unwrap();
    let entry = |name: &str, v: &[u8]| ServiceEntry { name: name.into(), hash: content_hash(v), length: v.len() as u64 };
    let doc = IndexDoc { version: 3, expires_at: 50, services: vec![entry("ocr", b""), entry("cmd", &list)] };
    let index = sign_index(&o.key(), &net, &doc).unwrap();
    let mut cache = AuthCache::default();
    let fetches = match index_fetched(&net, &o.config, &mut cache, Fetched::Found(index), 50, 9) {
        IndexOutcome::Accepted { fetches } => fetches,
        _ => panic!("not accepted"),
    };
    assert_eq!(fetches.len(), 1);
    assert_eq!(fetches[0].entry.name, "cmd");
    assert_eq!(fetches[0].key, net.service_key("cmd").unwrap());
    assert_eq!(cache.index().unwrap().version, 3);
    let r = whitelist_fetched(&net, &fetches[0], &mut cache, Fetched::Found(b"other".to_vec()), 9);
    assert!(matches!(r, WhitelistOutcome::Refused(AuthError::HashMismatch)));
    let r = whitelist_fetched(&net, &fetches[0], &mut cache, Fetched::NotFound, 9);
    assert!(matches!(r, WhitelistOutcome::NotFound));
    let r = whitelist_fetched(&net, &fetches[0], &mut cache, Fetched::Found(list), 9);
    assert!(matches!(r, WhitelistOutcome::Kept));
    assert!(cache.whitelist("cmd").unwrap().is_member(&member));
}

#[test]
fn refresh_refuses_what_is_late_or_older() {
    let o = org();
    let net = o.net();
    let sign = |version| {
        sign_index(&o.key(), &net, &IndexDoc { version, expires_at: 50, services: vec![] }).unwrap()
    };
    let mut cache = AuthCache::default();
    let mut fetched = |f, now| index_fetched(&net, &o.config, &mut cache, f, now, 0);
    assert!(matches!(fetched(Fetched::Found(sign(2)), 51), IndexOutcome::Refused(AuthError::Expired)));
    assert!(matches!(fetched(Fetched::NotFound, 0), IndexOutcome::NotFound));
    assert!(matches!(fetched(Fetched::Failed("e".into()), 0), IndexOutcome::Failed(e) if e == "e"));
    assert!(matches!(fetched(Fetched::Found(sign(2)), 0), IndexOutcome::Accepted { .. }));
    assert!(matches!(fetched(Fetched::Found(sign(1)), 0), IndexOutcome::NotKept(AuthError::Rollback)));
    assert_eq!(cache.index().unwrap().version, 2);
    assert!(refresh_target(&o.config).is_some());
    assert!(refresh_target(&ConfigHandle::new(NodeConfig::default())).is_none());
    assert_eq!(refresh_pause(2 * SEC), 3 * SEC);
    assert_eq!(refresh_pause(5 * SEC), 0);
    assert_eq!(at_least_one_second(0), 1);
    assert_eq!(at_least_one_second(9), 9);
}

#[test]
fn older_index_brings_in_no_whitelist() {
    let o = org();
    let net = o.net();
    let list = sign_whitelist(&o.key(), &net, "cmd", &WhitelistDoc { version: 1, members: vec![peer()] }).unwrap();
    let entry = ServiceEntry { name: "cmd".into(), hash: content_hash(&list), length: list.len() as u64 };
    let older = IndexDoc { version: 1, expires_at: 50, services: vec![entry] };
    let older = sign_index(&o.key(), &net, &older).unwrap();
    let mut cache = AuthCache::default();
    cache.insert_index(IndexDoc { version: 2, expires_at: 50, services: vec![] }, 0).unwrap();
    let r = index_fetched(&net, &o.config, &mut cache, Fetched::Found(older), 0, 9);
    assert!(matches!(r, IndexOutcome::NotKept(AuthError::Rollback)));
    assert_eq!(cache.index().unwrap().version, 2);
    assert_eq!(cache.index().unwrap().fetched_at, 0);
    assert!(cache.whitelist("cmd").is_none());
}

fn controller(config: &ConfigHandle) -> NodeController {
    NodeController::new(config, "me".into())
}

#[test]
fn pings_are_counted() {
    let config = ConfigHandle::new(NodeConfig::default());
    let mut c = controller(&config);
    assert!(!c.ping_failed("a", 2));
    assert!(c.ping_failed("a", 2));
    assert!(!c.ping_failed("a", 2));
    c.ping_answered("a", 5);
    assert!(!c.ping_failed("a", 2));
    assert!(!c.ping_failed("a", 0));
    assert!(c.ping_failed("b", 1));
}

#[test]
fn nearest_peer_is_the_first_of_the_fastest() {
    let config = ConfigHandle::new(NodeConfig::default());
    let mut c = controller(&config);
    let list = |s: &[&str]| s.iter().map(|p| p.to_string()).collect::<Vec<_>>();
    assert_eq!(c.get_best_peer(&list(&["a", "b"])), None);
    c.ping_answered("a", 9);
    c.ping_answered("b", 3);
    c.ping_answered("c", 3);
    assert_eq!(c.get_best_peer(&list(&["x", "a", "b", "c"])), Some("b".to_string()));
    assert_eq!(c.get_best_peer(&list(&["b", "me"])), Some("me".to_string()));
    c.ping_failed("b", 2);
    assert_eq!(c.get_best_peer(&list(&["a", "b"])), Some("a".to_string()));
}

fn relayed(config: &mut ConfigHandle, peers: &[String]) {
    let nodes = peers.iter().map(|p| addr(&format!("/ip4/1.2.3.4/tcp/1/p2p/{p}"))).collect();
    config.set_bootstrap_nodes(nodes);
}

#[test]
fn up_to_three_relays_are_asked() {
    let mut config = ConfigHandle::new(NodeConfig::default());
    let peers: Vec<String> = (0..5).map(|_| peer()).collect();
    relayed(&mut config, &peers);
    let mut c = controller(&config);
    let (round, save) = c.begin_reconcile(&mut config, 0);
    let mut round = round.unwrap();
    assert!(!save);
    let mut asked = Vec::new();
    while let Some(next) = c.next_relay(&mut round) {
        assert_eq!(next.addr.to_text(), format!("/ip4/1.2.3.4/tcp/1/p2p/{}/p2p-circuit", next.peer));
        let listening = asked.len() != 1;
        asked.push(next.peer.clone());
        assert!(!c.relay_asked(&mut config, &next.peer, listening, 0));
    }
    assert_eq!(asked, peers[0..4]);
    assert_eq!(c.pending_relays.len(), 3);
    c.relay_accepted(&peers[0]);
    assert!(c.active_relays.contains(&peers[0]));
    assert_eq!(c.pending_relays.len(), 2);
    let mut again = c.begin_reconcile(&mut config, 31 * SEC).0.unwrap();
    assert!(c.next_relay(&mut again).is_none());
}

#[test]
fn relays_need_one_family_and_skip_this_node() {
    let mut config = ConfigHandle::new(NodeConfig::default());
    let me = peer();
    relayed(&mut config, &[me.clone()]);
    let mut c = NodeController::new(&config, me);
    let mut round = c.begin_reconcile(&mut config, 0).0.unwrap();
    assert!(c.next_relay(&mut round).is_none());
    config.write().network.ipv4_enabled = true;
    config.write().network.ipv6_enabled = true;
    assert!(c.begin_reconcile(&mut config, 0).0.is_none());
}

#[test]
fn relay_that_fails_too_often_is_taken_out() {
    let mut config = ConfigHandle::new(NodeConfig::default());
    let peers: Vec<String> = (0..2).map(|_| peer()).collect();
    relayed(&mut config, &peers);
    let mut c = controller(&config);
    assert!(!c.record_relay_failure(&mut config, &peers[0], 0));
    assert_eq!(c.relay_backoff.get(&peers[0]), Some(&(30 * SEC)));
    assert!(!c.record_relay_failure(&mut config, &peers[0], 0));
    assert_eq!(c.relay_backoff.get(&peers[0]), Some(&(60 * SEC)));
    assert!(c.record_relay_failure(&mut config, &peers[0], 0));
    assert!(!c.relay_backoff.contains(&peers[0]));
    assert!(!c.relay_failures.contains(&peers[0]));
    let left: Vec<String> = config.bootstrap_nodes().iter().map(|a| a.to_text()).collect();
    assert_eq!(left, [format!("/ip4/1.2.3.4/tcp/1/p2p/{}", peers[1])]);
}

#[test]
fn reservations_expire_after_three_minutes() {
    let mut config = ConfigHandle::new(NodeConfig::default());
    let mut c = controller(&config);
    c.relay_asked(&mut config, "r", true, 0);
    assert!(!c.expire_pending_relays(&mut config, 180 * SEC - 1));
    assert!(c.pending_relays.contains("r"));
    assert!(!c.expire_pending_relays(&mut config, 180 * SEC));
    assert!(!c.pending_relays.contains("r"));
    assert_eq!(c.relay_failures.get("r"), Some(&1));
}

#[test]
fn closed_listener_loses_tracked_relays_only() {
    let mut config = ConfigHandle::new(NodeConfig::default());
    let mut c = controller(&config);
    let (r, other) = (peer(), peer());
    c.relay_accepted(&r);
    let circuit = |p: &str| addr(&format!("/ip4/1.2.3.4/tcp/1/p2p/{p}/p2p-circuit"));
    let plain = addr(&format!("/ip4/1.2.3.4/tcp/1/p2p/{r}"));
    let closed = c.handle_listener_closed(&mut config, &vec![plain, circuit(&other)], 0);
    assert!(!closed.lost && !closed.save);
    let closed = c.handle_listener_closed(&mut config, &vec![circuit(&r)], 0);
    assert!(closed.lost);
    assert!(!c.active_relays.contains(&r));
    assert_eq!(c.relay_failures.get(&r), Some(&1));
}

#[test]
fn bootstrap_nodes_are_added_once() {
    let mut config = ConfigHandle::new(NodeConfig::default());
    let mut c = controller(&config);
    let p = peer();
    let listens = vec![addr("/ip4/1.2.3.4/tcp/1"), addr("/ip6/2001:db8::1/tcp/1")];
    assert!(!c.add_bootstrap_node_if_new(&mut config, &listens, &p));
    c.refresh_bootstrap_providers(Some(vec![p.clone()]));
    c.refresh_bootstrap_providers(None);
    assert!(!c.add_bootstrap_node_if_new(&mut config, &vec![addr("/ip4/1.2.3.4/tcp/1")], &p));
    assert!(c.add_bootstrap_node_if_new(&mut config, &listens, &p));
    assert!(!c.add_bootstrap_node_if_new(&mut config, &listens, &p));
    let nodes: Vec<String> = config.bootstrap_nodes().iter().map(|a| a.to_text()).collect();
    assert_eq!(nodes, [format!("/ip4/1.2.3.4/tcp/1/p2p/{p}"), format!("/ip6/2001:db8::1/tcp/1/p2p/{p}")]);
}

#[test]
fn node_announces_itself_when_it_may() {
    let mut config = ConfigHandle::new(NodeConfig::default());
    let mut c = controller(&config);
    assert!(!c.should_announce_bootstrap(&config));
    config.write().network.ipv4_enabled = true;
    config.write().network.ipv6_enabled = true;
    assert!(c.should_announce_bootstrap(&config));
    c.bootstrap_announced(false);
    assert!(c.should_announce_bootstrap(&config));
    c.bootstrap_announced(true);
    assert!(!c.should_announce_bootstrap(&config));
    let mut cache = AuthCache::default();
    c.network_reloaded(&config, &mut cache);
    assert!(c.should_announce_bootstrap(&config));
    config.write().node.allow_bootstrap = false;
    assert!(!c.should_announce_bootstrap(&config));
}

#[test]
fn services_are_listed_once() {
    let o = org();
    assert_eq!(announced_services(&o.config), ["cmd", "ocr"]);
    let mine = vec!["cmd".to_string(), "ocr".to_string()];
    assert_eq!(merge_types(Some(br#"["ocr","x"]"#.to_vec()), &mine), br#"["ocr","x","cmd"]"#);
    assert_eq!(merge_types(Some(b"nonsense".to_vec()), &mine), br#"["cmd","ocr"]"#);
    assert_eq!(merge_types(None, &mine), br#"["cmd","ocr"]"#);
    assert_eq!(types_in(Some(br#"["a"]"#.to_vec())), ["a"]);
    assert_eq!(provider_key("cmd"), "/oahd/service/cmd");
}

fn start(prefix: &str, content: &str, payload: &[u8]) -> Step {
    let o = org();
    let cmd = Command { prefix: prefix.into(), content: content.into(), payload: payload.to_vec() };
    controller(&o.config).start_command(&o.config, Some(&AuthCache::default()), cmd, 0, 0)
}

fn error(step: Step) -> String {
    match step {
        Step::Done(Err(e)) => e,
        _ => panic!("no error"),
    }
}

fn resume(waiting: Waiting, event: Event) -> Step {
    let config = ConfigHandle::new(NodeConfig::default());
    controller(&config).resume_command(waiting, event)
}

#[test]
fn commands_that_are_not_known_fail() {
    assert_eq!(error(start("@", "nonsense", b"")), "Unknown command");
    assert_eq!(error(start("x", "list_services", b"")), "command not supported");
    assert_eq!(error(start("service_request_to", "cmd", b"")), "expected format: <service>/in<peerid>");
    assert!(error(start("service_request_to", "cmd/inx", b"")).starts_with("invalid peer id: "));
}

#[test]
fn services_are_listed_and_found() {
    assert!(matches!(start("@", "list_services", b""),
        Step::Do(Action::GetRecord(k), Waiting::ListServices) if k == "/oahd/service/types"));
    let found = Event::Record(Ok(Some(br#"["cmd"]"#.to_vec())));
    assert!(matches!(resume(Waiting::ListServices, found), Step::Done(Ok(Reply::Bytes(b))) if b == br#"["cmd"]"#));
    let failed = Event::Record(Err("e".into()));
    assert!(matches!(resume(Waiting::ListServices, failed), Step::Done(Ok(Reply::Bytes(b))) if b == b"[]"));
    assert!(matches!(start("@", "discover_providers", b"cmd"),
        Step::Do(Action::GetProviders(k), Waiting::DiscoverProviders) if k == "/oahd/service/cmd"));
    assert!(matches!(start("@", "discover_providers", b"\xff"),
        Step::Do(Action::GetProviders(k), Waiting::DiscoverProviders) if k == "/oahd/service/"));
    let found = Event::Providers(Ok(vec!["p".into()]));
    assert!(matches!(resume(Waiting::DiscoverProviders, found), Step::Done(Ok(Reply::Bytes(b))) if b == br#"["p"]"#));
    assert_eq!(error(resume(Waiting::DiscoverProviders, Event::Providers(Err("Disabled".into())))), "Disabled");
}

#[test]
fn keys_are_added() {
    assert!(error(start("@", "add_key", b"{")).starts_with("invalid JSON: "));
    assert_eq!(error(start("@", "add_key", b"{}")), "missing 'key' field");
    assert_eq!(error(start("@", "add_key", b"[1]")), "missing 'key' field");
    assert_eq!(
        error(start("@", "add_key", br#"{"key":"k"}"#)),
        "at least one of 'value', 'value_b64' or 'providing' is required"
    );
    assert_eq!(error(start("@", "add_key", br#"{"key":"k","value":null}"#)), "'value' must be a string");
    assert_eq!(error(start("@", "add_key", br#"{"key":"k","value_b64":1}"#)), "'value_b64' must be a string");
    assert!(error(start("@", "add_key", br#"{"key":"k","value_b64":"!"}"#)).starts_with("invalid base64 in 'value_b64': "));
    assert!(matches!(start("@", "add_key", br#"{"key":"k","providing":true}"#),
        Step::Do(Action::StartProviding(k), Waiting::AddKeyProvide { .. }) if k == "k"));
    match start("@", "add_key", br#"{"key":"k","value":"hi","providing":true}"#) {
        Step::Do(Action::PutRecord { key, value }, waiting) => {
            assert_eq!((key.as_str(), value.as_slice()), ("k", b"hi".as_slice()));
            match resume(waiting, Event::Put(Ok(()))) {
                Step::Do(Action::StartProviding(k), waiting) => {
                    assert_eq!(k, "k");
                    assert!(matches!(resume(waiting, Event::Provided(Ok(()))),
                        Step::Done(Ok(Reply::Added { key })) if key == "k"));
                }
                _ => panic!("not provided"),
            }
        }
        _ => panic!("not put"),
    }
    let waiting = Waiting::AddKeyPut { key: "k".into(), providing: false };
    assert_eq!(error(resume(waiting, Event::Put(Err("e".into())))), "put_record failed: e");
    let waiting = Waiting::AddKeyProvide { key: "k".into() };
    assert_eq!(error(resume(waiting, Event::Provided(Err("e".into())))), "start_providing failed: e");
}

#[test]
fn keys_are_read_back_in_full() {
    assert_eq!(error(start("@", "query_key", b"")), "missing key");
    assert!(matches!(start("@", "query_key", b"k"),
        Step::Do(Action::GetRecord(k), Waiting::QueryRecord { .. }) if k == "k"));
    let bytes = vec![0xff, b'a'];
    let next = resume(Waiting::QueryRecord { key: "k".into() }, Event::Record(Ok(Some(bytes.clone()))));
    let waiting = match next {
        Step::Do(Action::GetProviders(k), waiting) => {
            assert_eq!(k, "k");
            waiting
        }
        _ => panic!("no providers asked"),
    };
    match resume(waiting, Event::Providers(Ok(vec!["p".into()]))) {
        Step::Done(Ok(Reply::Key { key, value, providers })) => {
            let value = value.unwrap();
            assert_eq!(key, "k");
            assert_eq!(value.text, "\u{fffd}a");
            assert_eq!(STANDARD.decode(&value.b64).unwrap(), bytes);
            assert_eq!(providers, ["p"]);
        }
        _ => panic!("no key"),
    }
    let missing = || Waiting::QueryProviders { key: "k".into(), value: None };
    assert_eq!(error(resume(missing(), Event::Providers(Err("e".into())))), "key not found");
    assert!(matches!(resume(missing(), Event::Providers(Ok(vec![]))), Step::Done(Ok(Reply::Key { value: None, .. }))));
    let kept = Waiting::QueryProviders { key: "k".into(), value: Some(vec![1]) };
    assert!(matches!(resume(kept, Event::Providers(Err("e".into()))), Step::Done(Ok(Reply::Key { value: Some(_), .. }))));
}

#[test]
fn requests_go_to_the_nearest_provider() {
    let waiting = match start("service_request", "cmd", b"pay") {
        Step::Do(Action::GetProviders(k), waiting) => {
            assert_eq!(k, "/oahd/service/cmd");
            waiting
        }
        _ => panic!("no providers asked"),
    };
    match resume(waiting, Event::Providers(Ok(vec!["a".into(), "me".into()]))) {
        Step::Do(Action::SendRequest { peer, service, payload }, Waiting::Response) => {
            assert_eq!((peer.as_str(), service.as_str(), payload.as_slice()), ("me", "cmd", b"pay".as_slice()));
        }
        _ => panic!("not sent"),
    }
    let find = || Waiting::FindProvider { service: "s".into(), payload: vec![] };
    assert!(matches!(resume(find(), Event::Providers(Ok(vec!["x".into(), "y".into()]))),
        Step::Do(Action::SendRequest { peer, .. }, _) if peer == "x"));
    assert_eq!(error(resume(find(), Event::Providers(Ok(vec![])))), "No provider found");
    assert_eq!(error(resume(find(), Event::Providers(Err("e".into())))), "e");
    assert!(matches!(resume(Waiting::Response, Event::Response(Ok(vec![1]))), Step::Done(Ok(Reply::Bytes(b))) if b == [1]));
    assert_eq!(error(resume(Waiting::Response, Event::Response(Err("e".into())))), "e");
    assert_eq!(error(resume(Waiting::Response, Event::Dialed(true))), "command produced no result");
    let p = peer();
    match start("service_request_to", &format!("cmd/in{p}"), b"pay") {
        Step::Do(Action::SendRequest { peer, service, .. }, Waiting::Response) => {
            assert_eq!((peer, service), (p, "cmd".to_string()));
        }
        _ => panic!("not sent"),
    }
}

#[test]
fn node_reports_on_itself() {
    let mut o = org();
    o.config.set_ipv4(true, Some(IpAddr::V4(1)));
    let mut c = controller(&o.config);
    c.relay_accepted("r");
    c.relay_asked(&mut o.config, "q", true, 0);
    let mut cache = AuthCache::default();
    let entry = ServiceEntry { name: "other".into(), hash: vec![0; 32], length: 0 };
    cache.insert_index(IndexDoc { version: 3, expires_at: 10, services: vec![entry] }, 0).unwrap();
    cache.insert_whitelist("cmd", WhitelistDoc { version: 7, members: vec![peer()] }, SEC).unwrap();
    let run = |msg| c.start_message(&o.config, Some(&cache), msg, 5, 12 * SEC).unwrap();
    assert!(matches!(run(Message::QueryPublicIp { id: 1 }),
        Step::Done(Ok(Reply::PublicIp { ipv4: Some(IpAddr::V4(1)), ipv6: None }))));
    match run(Message::RelayStatus { id: 1 }) {
        Step::Done(Ok(Reply::RelayStatus { need_relay, target, active, pending })) => {
            assert!(need_relay);
            assert_eq!(target, 3);
            assert_eq!((active, pending), (vec!["r".to_string()], vec!["q".to_string()]));
        }
        _ => panic!("no status"),
    }
    assert!(matches!(run(Message::PqStatus { id: 1 }), Step::Done(Ok(Reply::PqStatus { enabled: false, .. }))));
    match run(Message::AuthStatus { id: 1 }) {
        Step::Done(Ok(Reply::AuthStatus(r))) => {
            assert_eq!(r.network, "myorg");
            assert_eq!(r.state, AuthLabel::Active);
            assert_eq!(r.detail, None);
            assert_eq!(r.local_required, ["cmd"]);
            let cached = r.cache.unwrap();
            let index = cached.index.unwrap();
            assert_eq!((index.version, index.expires_at, index.age_secs, index.services, index.fresh), (3, 10, 12, 1, true));
            assert_eq!(cached.whitelists[0].0, "cmd");
            assert_eq!(cached.whitelists[0].1.version, 7);
            assert_eq!(cached.whitelists[0].1.members, 1);
            assert_eq!(cached.whitelists[0].1.age_secs, 11);
            assert_eq!(cached.not_in_index, ["cmd"]);
        }
        _ => panic!("no status"),
    }
}

#[test]
fn messages_start_the_same_commands() {
    let o = org();
    let c = controller(&o.config);
    let run = |msg| c.start_message(&o.config, None, msg, 0, 0);
    assert!(run(Message::Hello { version: 2 }).is_none());
    assert!(run(Message::Request { id: 1, service: "s".into(), payload: vec![] }).is_none());
    assert!(matches!(run(Message::ReconnectBootstrap { id: 1 }), Some(Step::Do(Action::Dial(_), Waiting::Reconnect))));
    assert!(matches!(run(Message::ReannounceServices { id: 1 }), Some(Step::Do(Action::Announce, Waiting::Reannounce))));
    assert!(matches!(run(Message::ReloadConfig { id: 1 }), Some(Step::Do(Action::Reload, Waiting::Reload))));
    assert!(matches!(
        run(Message::AddKey { id: 1, key: "k".into(), value: Some(vec![0xff]), providing: false }),
        Some(Step::Do(Action::PutRecord { .. }, Waiting::AddKeyPut { providing: false, .. }))
    ));
    assert!(matches!(run(Message::QueryKey { id: 1, key: "k".into() }), Some(Step::Do(Action::GetRecord(_), _))));
    assert!(matches!(resume(Waiting::Reload, Event::Reloaded(Err("e".into()))),
        Step::Done(Ok(Reply::Outcome { success: false, error: Some(e) })) if e == "e"));
    assert!(matches!(resume(Waiting::Reconnect, Event::Dialed(true)),
        Step::Done(Ok(Reply::Outcome { success: true, error: None }))));
}

fn text(reply: Reply) -> String {
    String::from_utf8(reply_bytes(reply)).unwrap()
}

#[test]
fn answers_have_their_json_form() {
    assert_eq!(reply_bytes(Reply::Bytes(vec![0, 255])), [0, 255]);
    assert_eq!(
        text(Reply::PublicIp { ipv4: Some(IpAddr::V4(0x7f000001)), ipv6: None }),
        r#"{"ipv4":"127.0.0.1","ipv6":null}"#
    );
    assert_eq!(text(Reply::Outcome { success: true, error: None }), r#"{"success":true}"#);
    assert_eq!(
        text(Reply::Outcome { success: false, error: Some("a \"b\"\n".into()) }),
        r#"{"error":"a \"b\"\n","success":false}"#
    );
    assert_eq!(
        text(Reply::RelayStatus { need_relay: true, target: 3, active: vec!["a".into()], pending: vec![] }),
        r#"{"active":["a"],"need_relay":true,"pending":[],"target":3}"#
    );
    assert_eq!(
        text(Reply::PqStatus { enabled: true, transport: false, identity: true, required: false }),
        r#"{"enabled":true,"identity":true,"required":false,"transport":false}"#
    );
    assert_eq!(text(Reply::Added { key: "/k".into() }), r#"{"key":"/k","success":true}"#);
    let value = KeyValue { text: "hi".into(), b64: "aGk=".into() };
    assert_eq!(
        text(Reply::Key { key: "k".into(), value: Some(value), providers: vec!["p".into()] }),
        r#"{"key":"k","providers":["p"],"value":"hi","value_b64":"aGk="}"#
    );
    assert_eq!(text(Reply::Key { key: "k".into(), value: None, providers: vec![] }), r#"{"key":"k"}"#);
}

#[test]
fn auth_status_has_its_json_form() {
    let index = IndexReport { version: 3, expires_at: 1700003600, age_secs: 12, services: 2, fresh: true };
    let whitelist = WhitelistReport { version: 7, members: 5, age_secs: 10 };
    let report = AuthReport {
        network: "myorg".into(),
        state: AuthLabel::Active,
        detail: None,
        local_required: vec!["cmd".into()],
        cache: Some(CacheReport {
            index: Some(index),
            whitelists: vec![("cmd".into(), whitelist)],
            not_in_index: vec![],
        }),
    };
    let expected = r#"
        { "network": "myorg", "state": "active",
          "index": { "version": 3, "expires_at": 1700003600, "age_secs": 12, "services": 2, "fresh": true },
          "local_required": ["cmd"],
          "cached_whitelists": { "cmd": { "version": 7, "members": 5, "age_secs": 10 } },
          "required_but_not_in_index": [] }"#;
    let parse = |t: &str| serde_json::from_str::<serde_json::Value>(t).unwrap();
    assert_eq!(parse(&text(Reply::AuthStatus(report))), parse(expected));

    let bare = AuthReport {
        network: "x".into(),
        state: AuthLabel::Misconfigured,
        detail: Some("why".into()),
        local_required: vec![],
        cache: None,
    };
    assert_eq!(
        text(Reply::AuthStatus(bare)),
        r#"{"detail":"why","local_required":[],"network":"x","state":"misconfigured"}"#
    );
}
