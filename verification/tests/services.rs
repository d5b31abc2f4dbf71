use nexusnet::addr_watcher::{AddrWatcherEvent, AddressWatcherConfig, Addresses, Behaviour, Due};
use nexusnet::config::{ConfigHandle, LocalServiceEntry, NodeConfig};
use nexusnet::name_map::NameMap;
use nexusnet::net::KeyManager;
use nexusnet::network::actor::{
    inbound_response, HandlerOutcome, KadKind, SwarmAction, SwarmActor, SwarmCommand,
};
use nexusnet::network::NetworkError;
use nexusnet::json::JsonTree;
use nexusnet::outbound_proxy::{
    proxy_answer, proxy_line, proxy_reply, result_line, ProxyCommand, ProxyOutcome, ProxyResult, ProxyStep,
    MAX_DATA_DEPTH,
};
use nexusnet::request_handler::{handle_incoming_request, RequestIds, ServiceRequest};
use nexusnet::service_discovery::{ServiceDiscovery, ServiceDiscoveryConfig, ServiceInfo};
use nexusnet::service_dispatcher::{
    backend_addr, begin_request, control_reply, finish_request, handshake, hello, next_backoff, no_backend,
    read_message, ControlOutcome, Pending, ReadAction, RequestOutcome, ServiceDispatcher,
};
use nexusnet::service_protocol::Response;
use nexusnet::sidecar_protocol::{FrameError, Message, SidecarError};

#[test]
fn backoff_doubles_up_to_a_minute() {
    let mut waits = vec![1];
    for _ in 0..7 {
        waits.push(next_backoff(*waits.last().unwrap()));
    }
    assert_eq!(waits, [1, 2, 4, 8, 16, 32, 60, 60]);
    assert_eq!(backend_addr(5014), "127.0.0.1:5014");
    assert_eq!(no_backend("cmd"), "No backend for service cmd");
}

#[test]
fn services_with_bad_names_get_no_backend() {
    let mut c = NodeConfig::default();
    c.services.dispatcher.local_services = ["cmd", "service", "a/b", "ocr"]
        .iter()
        .map(|n| LocalServiceEntry { name: n.to_string(), host: "h".into(), port: 1, require_auth: false })
        .collect();
    let d = ServiceDispatcher::new(&ConfigHandle::new(c));
    let names: Vec<String> = d.local_services.iter().map(|s| s.name.clone()).collect();
    assert_eq!(names, ["cmd", "ocr"]);
    assert_eq!(d.rejected, ["service", "a/b"]);
    assert!(d.enabled);
    assert_eq!(d.query_timeout_secs, 60);
}

#[test]
fn handshake_wants_hello_in_this_version() {
    assert_eq!(handshake(Ok(hello())), Ok(()));
    assert_eq!(handshake(Ok(Message::Hello { version: 1 })), Err("协议版本不兼容: 对端 1, 本端 2".to_string()));
    assert_eq!(handshake(Ok(Message::PqStatus { id: 1 })), Err("期望 hello 首帧".to_string()));
    assert_eq!(handshake(Err(FrameError::Io("eof".into()))), Err("io error: eof".to_string()));
}

fn reply(id: u128, ok: bool, result: Option<Vec<u8>>, error: Option<SidecarError>) -> Message {
    Message::Reply { id, ok, result, error }
}

#[test]
fn replies_are_delivered_once() {
    let mut pending = Pending::new();
    let msg = begin_request(&mut pending, 7, 70, "cmd".into(), vec![1]);
    assert_eq!(msg, Message::Request { id: 7, service: "cmd".into(), payload: vec![1] });
    assert!(matches!(read_message(&mut pending, reply(7, true, Some(vec![2]), None)),
        ReadAction::Deliver { ticket: 70, outcome: Ok(b) } if b == [2]));
    assert!(matches!(read_message(&mut pending, reply(7, true, None, None)), ReadAction::UnknownReply { id: 7 }));
    begin_request(&mut pending, 8, 80, "cmd".into(), vec![]);
    assert!(matches!(read_message(&mut pending, reply(8, false, None, Some(SidecarError::new("c", "m")))),
        ReadAction::Deliver { ticket: 80, outcome: Err(e) } if e == "m"));
    begin_request(&mut pending, 9, 90, "cmd".into(), vec![]);
    assert!(matches!(read_message(&mut pending, reply(9, false, Some(vec![1]), None)),
        ReadAction::Deliver { outcome: Err(e), .. } if e == "backend error"));
    begin_request(&mut pending, 10, 100, "cmd".into(), vec![]);
    assert!(matches!(read_message(&mut pending, reply(10, true, None, None)),
        ReadAction::Deliver { outcome: Ok(b), .. } if b.is_empty()));
    assert!(matches!(read_message(&mut pending, hello()), ReadAction::Ignore));
    assert!(matches!(read_message(&mut pending, Message::PqStatus { id: 3 }), ReadAction::Control { id: 3, .. }));
}

#[test]
fn commands_are_answered_whatever_happens() {
    let failed = |code: &str, message: &str| reply(5, false, None, Some(SidecarError::new(code, message)));
    assert_eq!(control_reply(5, ControlOutcome::Done(Ok(vec![1]))), reply(5, true, Some(vec![1]), None));
    assert_eq!(control_reply(5, ControlOutcome::Done(Err("no".into()))), failed("command_failed", "no"));
    assert_eq!(control_reply(5, ControlOutcome::NodeGone), failed("node_gone", "node unavailable"));
    assert_eq!(control_reply(5, ControlOutcome::ChannelClosed), failed("node_gone", "command channel closed"));
    assert_eq!(control_reply(5, ControlOutcome::TimedOut), failed("timeout", "command execution timeout"));
}

#[test]
fn requests_end_and_are_forgotten() {
    let mut pending = Pending::new();
    let mut end = |outcome| {
        begin_request(&mut pending, 1, 10, "s".into(), vec![]);
        let r = finish_request(&mut pending, 1, outcome);
        let late = matches!(read_message(&mut pending, reply(1, true, None, None)), ReadAction::Deliver { .. });
        (r, late)
    };
    let written = end(RequestOutcome::WriteFailed(FrameError::TooLarge(9)));
    assert_eq!(written, (Err("write to backend failed: frame too large: 9 bytes".to_string()), false));
    assert_eq!(end(RequestOutcome::TimedOut), (Err("backend request timeout".to_string()), false));
    assert_eq!(end(RequestOutcome::Closed).0, Err("backend response channel closed".to_string()));
    assert_eq!(end(RequestOutcome::Answered(Err("e".into()))).0, Err("e".to_string()));
    assert_eq!(end(RequestOutcome::Answered(Ok(vec![4]))).0, Ok(Response { success: true, data: vec![4] }));
}

#[test]
fn queries_are_refused_while_the_table_is_off() {
    let mut a = SwarmActor::new();
    let get = || SwarmCommand::KadGetRecord { key: vec![1], ticket: 5 };
    assert!(matches!(a.handle_command(get(), false),
        SwarmAction::Refuse { ticket: 5, error: NetworkError::Disabled }));
    assert!(matches!(a.handle_command(get(), true), SwarmAction::Query { kind: KadKind::GetRecord, ticket: 5, .. }));
    let put = SwarmCommand::KadPutRecord { key: vec![1], value: vec![2], ticket: 6 };
    assert!(matches!(a.handle_command(put, true),
        SwarmAction::Query { kind: KadKind::PutRecord, value: Some(v), .. } if v == [2]));
    assert!(matches!(a.handle_command(SwarmCommand::Shutdown, true), SwarmAction::Stop));
}

#[test]
fn waiting_callers_are_found_once() {
    let mut a = SwarmActor::new();
    assert!(a.query_started(Ok("q1".into()), KadKind::GetRecord, 1).is_none());
    assert!(matches!(a.query_started(Err("full".into()), KadKind::PutRecord, 2), Some(NetworkError::Kad(e)) if e == "full"));
    assert_eq!(a.query_done("q1", KadKind::GetProviders), None);
    assert_eq!(a.query_done("q1", KadKind::GetRecord), None);
    a.query_started(Ok("q2".into()), KadKind::GetProviders, 3);
    assert_eq!(a.query_done("q2", KadKind::GetProviders), Some(3));
    a.request_sent("r1".into(), 4);
    assert_eq!(a.request_done("r1"), Some(4));
    assert_eq!(a.request_done("r1"), None);
    assert!(!a.bootstrap_done(false));
    assert!(a.bootstrap_done(true));
    assert!(!a.bootstrap_done(true));
    a.reloaded();
    assert!(a.bootstrap_done(true));
}

#[test]
fn responses_need_an_open_connection() {
    let mut a = SwarmActor::new();
    a.request_received("x".into(), "c1".into(), 1);
    a.request_received("y".into(), "c2".into(), 2);
    assert_eq!(a.connection_closed("c1"), [1]);
    let mut respond = |id: &str| {
        let response = Response { success: true, data: vec![] };
        a.handle_command(SwarmCommand::ServiceSendResponse { request_id: id.into(), response }, true)
    };
    assert!(matches!(respond("x"), SwarmAction::Nothing));
    assert!(matches!(respond("y"), SwarmAction::Respond { channel: 2, .. }));
    assert!(matches!(respond("y"), SwarmAction::Nothing));
}

#[test]
fn reload_tells_everyone_who_waits() {
    let mut a = SwarmActor::new();
    a.query_started(Ok("q".into()), KadKind::GetRecord, 1);
    a.request_sent("r".into(), 2);
    a.request_received("x".into(), "c".into(), 3);
    assert_eq!(a.begin_reload(), [1, 2]);
    assert_eq!(a.begin_reload(), Vec::<u64>::new());
    assert_eq!(a.query_done("q", KadKind::GetRecord), None);
}

#[test]
fn peers_always_get_a_response() {
    let ok = Response { success: true, data: vec![1] };
    assert_eq!(inbound_response(HandlerOutcome::Answered(Ok(ok.clone()))), ok);
    let e = inbound_response(HandlerOutcome::Answered(Err("no".into())));
    assert_eq!(e, Response { success: false, data: b"no".to_vec() });
    let gone = inbound_response(HandlerOutcome::Dropped);
    assert_eq!(gone, Response { success: false, data: b"request handler dropped".to_vec() });
}

#[test]
fn every_network_error_has_a_text() {
    assert_eq!(NetworkError::ActorGone.text(), "network actor is gone");
    assert_eq!(NetworkError::Disabled.text(), "protocol disabled by config");
    assert_eq!(NetworkError::Build("e".into()).text(), "swarm build failed: e");
    assert_eq!(NetworkError::Kad("e".into()).text(), "kademlia error: e");
    assert_eq!(NetworkError::Request("e".into()).text(), "request failed: e");
    assert_eq!(NetworkError::Transport("e".into()).text(), "transport error: e");
    assert_eq!(NetworkError::Reloaded.text(), "cancelled by network reload");
}

#[test]
fn key_file_round_trips() {
    let mut k = KeyManager::load_pq_keys(None);
    assert!(!k.has_pq_keys());
    let file = k.save_pq_keys(vec![1, 2, 3], vec![4]);
    assert_eq!(file, [0, 0, 0, 3, 1, 2, 3, 0, 0, 0, 1, 4]);
    assert!(k.has_pq_keys());
    let back = KeyManager::load_pq_keys(Some(file.clone()));
    assert_eq!(back.pq_secret_key(), Some(&vec![1, 2, 3]));
    assert_eq!(back.pq_public_key(), Some(&vec![4]));
    assert!(!KeyManager::load_pq_keys(Some(file[..11].to_vec())).has_pq_keys());
    assert!(!KeyManager::load_pq_keys(Some(vec![0xff; 8])).has_pq_keys());
    assert!(!KeyManager::load_pq_keys(Some(vec![0; 7])).has_pq_keys());
}

fn refusal(line: &str) -> String {
    match proxy_line(line) {
        ProxyStep::Reply(r) => {
            assert!(!r.success);
            r.message
        }
        _ => panic!("not refused"),
    }
}

#[test]
fn lines_of_the_control_port() {
    assert!(matches!(proxy_line("  \n"), ProxyStep::Skip));
    assert!(refusal("{").starts_with("JSON 解析错误: "));
    assert_eq!(refusal(r#"{"type":"x"}"#), "未知命令类型: x");
    assert_eq!(refusal("{}"), "未知命令类型: ");
    assert_eq!(refusal(r#"{"type":"discover"}"#), "缺少 service 字段");
    assert_eq!(refusal(r#"{"type":"request","peer":"p"}"#), "缺少 peer 或 service 字段");
    assert_eq!(refusal(r#"{"type":"request","peer":"p","service":"s"}"#), "无效的 PeerId: p");
    let peer = libp2p::identity::Keypair::generate_ed25519().public().to_peer_id().to_string();
    let request = |payload: &str| {
        format!(r#"{{"type":"request","peer":"{peer}","service":"s","payload":"{payload}"}}"#)
    };
    assert!(refusal(&request("!")).starts_with("payload base64 解码失败: "));
    match proxy_line(&request("aGk=")) {
        ProxyStep::Ask(ProxyCommand::SendRequest { peer: p, service, payload }) => {
            assert_eq!((p, service.as_str(), payload.as_slice()), (peer, "s", b"hi".as_slice()));
        }
        _ => panic!("not asked"),
    }
    assert!(matches!(proxy_line(" {\"type\":\"discover\",\"service\":\"ocr\"}\r\n"),
        ProxyStep::Ask(ProxyCommand::DiscoverServices { service }) if service == "ocr"));
    assert!(matches!(proxy_line(r#"{"type":"ping"}"#), ProxyStep::Reply(r) if r.success && r.message == "pong"));
}

#[test]
fn control_port_answers_without_the_node() {
    let gone = proxy_answer(ProxyOutcome::NotConnected);
    assert_eq!((gone.success, gone.message.as_str()), (false, "出站代理未连接到 P2P 节点"));
    assert_eq!(proxy_answer(ProxyOutcome::NoAnswer).message, "P2P 节点未响应");
    let r = ProxyResult { success: true, message: "m".into(), data: Some(JsonTree::Text("d".into())) };
    assert!(matches!(proxy_answer(ProxyOutcome::Answered(r)).data, Some(JsonTree::Text(t)) if t == "d"));
}

#[test]
fn control_port_answers_have_their_json_form() {
    let line = |bytes: Vec<u8>| String::from_utf8(bytes).unwrap();
    let discover = ProxyCommand::DiscoverServices { service: "cold-storage".into() };
    let given = |success, data| ProxyOutcome::Answered(ProxyResult { success, message: "m\n".into(), data });
    let providers = Some(JsonTree::Array(vec![JsonTree::Text("a".into()), JsonTree::Text("b".into())]));
    assert_eq!(
        line(proxy_reply(&discover, given(true, providers), 1)),
        r#"{"providers":["a","b"],"service":"cold-storage","success":true,"type":"discover_result"}"#
    );
    assert_eq!(
        line(proxy_reply(&discover, ProxyOutcome::NotConnected, 1)),
        r#"{"message":"出站代理未连接到 P2P 节点","success":false}"#
    );
    assert_eq!(
        line(proxy_reply(&discover, given(true, None), 1)),
        r#"{"providers":[],"service":"cold-storage","success":true,"type":"discover_result"}"#
    );
    assert_eq!(
        line(proxy_reply(&discover, given(true, Some(JsonTree::Number(5))), 1)),
        r#"{"providers":[5],"service":"cold-storage","success":true,"type":"discover_result"}"#
    );
    let request = ProxyCommand::SendRequest { peer: "p".into(), service: "ocr".into(), payload: vec![] };
    assert_eq!(
        line(proxy_reply(&request, given(true, Some(JsonTree::Text("aGk=".into()))), 1)),
        r#"{"data":"aGk=","request_id":1,"success":true,"type":"response"}"#
    );
    assert_eq!(
        line(proxy_reply(&request, given(false, None), 7)),
        r#"{"message":"m\n","success":false}"#
    );
    let told = JsonTree::Object(vec![("code".into(), JsonTree::Signed(-3)), ("ok".into(), JsonTree::Bool(false))]);
    assert_eq!(
        line(proxy_reply(&request, given(false, Some(told)), 7)),
        r#"{"data":{"code":-3,"ok":false},"message":"m\n","success":false}"#
    );
    assert_eq!(
        line(proxy_reply(&request, given(true, None), 7)),
        r#"{"data":null,"request_id":7,"success":true,"type":"response"}"#
    );
    let pong = match proxy_line(r#"{"type":"ping"}"#) {
        ProxyStep::Reply(r) => r,
        _ => panic!("no answer"),
    };
    assert_eq!(line(result_line(pong)), r#"{"message":"pong","success":true}"#);
}

#[test]
fn control_port_answers_hold_values_nested_as_deep_as_can_be_read() {
    let nest = |depth: usize| (0..depth).fold(JsonTree::Signed(7), |t, _| JsonTree::Array(vec![t]));
    let given = |data| ProxyResult { success: true, message: "m".into(), data: Some(data) };
    assert!(given(nest(MAX_DATA_DEPTH)).is_fit());
    assert!(!given(nest(MAX_DATA_DEPTH + 1)).is_fit());
    assert!(ProxyResult { success: true, message: "m".into(), data: None }.is_fit());
    let request = ProxyCommand::SendRequest { peer: "p".into(), service: "ocr".into(), payload: vec![] };
    let answer = proxy_reply(&request, ProxyOutcome::Answered(given(nest(MAX_DATA_DEPTH))), 2);
    let list = format!("{}7{}", "[".repeat(MAX_DATA_DEPTH), "]".repeat(MAX_DATA_DEPTH));
    assert_eq!(
        String::from_utf8(answer).unwrap(),
        format!(r#"{{"data":{list},"request_id":2,"success":true,"type":"response"}}"#)
    );
}

#[test]
fn responses_carry_the_number_of_the_request() {
    let mut ids = RequestIds::new();
    assert_eq!(ServiceRequest::new("ocr", vec![], &mut ids).request_id, 1);
    assert_eq!(ServiceRequest::new("ocr", vec![], &mut ids).request_id, 2);
    let mut ids = RequestIds { next: u64::MAX };
    let a = ServiceRequest::new("ocr", vec![1], &mut ids);
    let b = ServiceRequest::new("ocr", vec![2], &mut ids);
    assert_eq!((a.request_id, b.request_id, ids.next), (u64::MAX, 0, 1));
    let ok = handle_incoming_request(&a, Ok(vec![9]));
    assert_eq!((ok.status.as_str(), ok.data, ok.request_id), ("ok", Some(vec![9]), u64::MAX));
    let e = handle_incoming_request(&b, Err("bad".into()));
    assert_eq!((e.status.as_str(), e.data, e.request_id), ("error", Some(b"bad".to_vec()), 0));
}

#[test]
fn address_changes_are_reported() {
    const SEC: u64 = 1_000_000_000;
    let read = |v4: &str, v6: &str| Some(Addresses { v4: v4.into(), v6: v6.into() });
    let config = AddressWatcherConfig { enabled: true, check_interval_secs: 10 };
    let mut w = Behaviour::new(&config, read("1.2.3.4", ""), 0);
    assert_eq!(w.due(4 * SEC), Due::In(6 * SEC as u128));
    assert_eq!(w.due(10 * SEC), Due::Now);
    assert!(w.checked(read("1.2.3.4", ""), 10 * SEC).is_none());
    assert_eq!(w.due(11 * SEC), Due::In(9 * SEC as u128));
    assert!(w.checked(None, 20 * SEC).is_none());
    match w.checked(read("5.6.7.8", "::1"), 30 * SEC) {
        Some(AddrWatcherEvent::Changed(e)) => {
            assert_eq!(e.new_addrs, ["5.6.7.8", "::1"]);
            assert_eq!(e.old_addrs, ["1.2.3.4"]);
        }
        None => panic!("not reported"),
    }
    let off = AddressWatcherConfig { enabled: false, check_interval_secs: 10 };
    let w = Behaviour::new(&off, read("1.2.3.4", ""), 0);
    assert_eq!(w.due(99 * SEC), Due::Never);
    assert!(w.last_addrs.is_empty());
}

fn discovery() -> ServiceDiscovery {
    let config = ServiceDiscoveryConfig { enabled: true, services: vec!["ocr".into()], record_ttl_secs: 100 };
    ServiceDiscovery::new(config, "me".into(), 1000, "1.0")
}

fn info(timestamp: u64, ttl: u64) -> ServiceInfo {
    ServiceInfo::new("ocr", "p", vec![], NameMap::new(), ttl, timestamp, "1.0")
}

#[test]
fn own_services_are_announced() {
    let mut d = discovery();
    assert!(d.is_enabled() && d.has_local_service("ocr") && !d.has_local_service("relay"));
    let mut metadata = NameMap::new();
    metadata.insert("k".to_string(), "v".to_string());
    let record = d.add_local_service("relay", vec!["a".into()], metadata, 5, "1.0");
    assert_eq!(record.key, b"/oahd/sd/relay");
    let expected = r#"{"addrs":["a"],"metadata":{"k":"v"},"provider":"me","service_type":"relay","timestamp":5,"#;
    assert_eq!(String::from_utf8(record.value).unwrap(), format!("{expected}{}", r#""ttl":100,"version":"1.0"}"#));
    assert_eq!(d.list_local_services().len(), 2);
    let addrs = vec!["/ip4/1.2.3.4/tcp/1".to_string()];
    let records = d.reannounce(&addrs);
    assert_eq!(records.len(), 2);
    for (record, info) in records.into_iter().zip(d.list_local_services()) {
        assert_eq!(record.key, ServiceInfo::record_key(&info.service_type));
        assert_eq!(info.addrs, addrs);
        assert_eq!((info.provider.as_str(), info.ttl), ("me", 100));
        let read: serde_json::Value = serde_json::from_slice(&record.value).unwrap();
        assert_eq!(read["service_type"], info.service_type.as_str());
        assert_eq!(read["addrs"][0], addrs[0].as_str());
    }
    assert_eq!(d.query_service("ocr").unwrap(), b"/oahd/sd/ocr");
    d.config.enabled = false;
    assert_eq!(d.query_service("ocr"), None);
}

#[test]
fn found_announcements_expire() {
    let mut d = discovery();
    d.handle_get_record_ok(b"/oahd/sd/ocr", Some(info(0, 10)), 10);
    d.handle_get_record_ok(b"/oahd/sd/ocr", Some(info(0, 20)), 10);
    d.handle_get_record_ok(b"/oahd/sd/ocr", Some(info(0, 9)), 10);
    d.handle_get_record_ok(b"/other/ocr", Some(info(0, 20)), 10);
    d.handle_get_record_ok(b"/oahd/sd/ocr", None, 10);
    d.handle_get_record_ok(b"/oahd/sd/relay", Some(info(0, 10)), 10);
    assert_eq!(d.get_cached_providers("ocr", 10).len(), 2);
    assert_eq!(d.get_cached_providers("ocr", 11).len(), 1);
    assert_eq!(d.get_cached_providers("nobody", 0).len(), 0);
    assert_eq!(d.get_all_cached(10).len(), 3);
    assert_eq!(d.get_all_cached(11).len(), 1);
    assert_eq!(d.purge_expired_cache(11), 2);
    assert_eq!(d.purge_expired_cache(11), 0);
    assert_eq!(d.get_all_cached(11).len(), 1);
    assert_eq!(d.get_all_cached(11)[0].ttl, 20);
    assert!(!d.cached_services.contains("relay"));
    assert!(info(0, 10).is_expired());
    assert!(!info(0, u64::MAX).is_expired());
}
