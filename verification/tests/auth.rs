use base64::engine::general_purpose::STANDARD;
use base64::Engine;
use libp2p::identity;
use libp2p::PeerId;
use nexusnet::auth::{
    content_hash, is_valid_network_name, is_valid_service_name, net_hash, now_unix, parse_authority,
    sign_index, sign_payload, sign_whitelist, unix_seconds, verify_index, verify_payload, verify_whitelist, AuthCache,
    AuthError, AuthNetwork, IndexDoc, ServiceEntry, WhitelistDoc, MAX_DOC_BYTES, MAX_MEMBERS,
    MAX_SERVICES, RESERVED_SERVICE,
};

fn keypair() -> identity::Keypair {
    identity::Keypair::generate_ed25519()
}

fn encoded(kp: &identity::Keypair) -> Vec<u8> {
    kp.to_protobuf_encoding().unwrap()
}

fn network(kp: &identity::Keypair, name: &str) -> AuthNetwork {
    let pub_bytes = kp.public().try_into_ed25519().unwrap().to_bytes();
    AuthNetwork::new(name, &STANDARD.encode(pub_bytes)).unwrap()
}

fn entry_for(service: &str, value: &[u8]) -> ServiceEntry {
    ServiceEntry {
        name: service.to_string(),
        hash: content_hash(value),
        length: value.len() as u64,
    }
}

fn whitelist(version: u64, members: &[&PeerId]) -> WhitelistDoc {
    WhitelistDoc {
        version,
        members: members.iter().map(|p| p.to_string()).collect(),
    }
}

#[test]
fn index_round_trip() {
    let kp = keypair();
    let net = network(&kp, "myorg");
    let doc = IndexDoc {
        version: 1,
        expires_at: now_unix() + 300,
        services: vec![ServiceEntry {
            name: "cmd".into(),
            hash: vec![0u8; 32],
            length: 10,
        }],
    };
    let value = sign_index(&encoded(&kp), &net, &doc).unwrap();
    let got = verify_index(&net, &value, now_unix()).unwrap();
    assert_eq!(got.version, 1);
    assert_eq!(got.services[0].name, "cmd");
    assert_eq!(got, doc);
}

#[test]
fn whitelist_round_trip_with_hash_binding() {
    let kp = keypair();
    let net = network(&kp, "myorg");
    let peer = keypair().public().to_peer_id();
    let value = sign_whitelist(&encoded(&kp), &net, "cmd", &whitelist(1, &[&peer])).unwrap();
    let entry = entry_for("cmd", &value);
    let doc = verify_whitelist(&net, "cmd", &value, &entry).unwrap();
    assert_eq!(doc.members, vec![peer.to_string()]);
}

#[test]
fn tampered_payload_rejected() {
    let kp = keypair();
    let net = network(&kp, "myorg");
    let mut value = sign_index(
        &encoded(&kp),
        &net,
        &IndexDoc {
            version: 1,
            expires_at: now_unix() + 300,
            services: vec![],
        },
    )
    .unwrap();
    let last = value.len() - 1;
    value[last] ^= 0xff;
    assert!(verify_index(&net, &value, now_unix()).is_err());
}

#[test]
fn wrong_aad_rejected() {
    let kp = keypair();
    let net = network(&kp, "myorg");
    let peer = keypair().public().to_peer_id();
    let value = sign_whitelist(&encoded(&kp), &net, "cmd", &whitelist(1, &[&peer])).unwrap();
    let entry = entry_for("ocr", &value);
    assert_eq!(
        verify_whitelist(&net, "ocr", &value, &entry),
        Err(AuthError::InvalidSignature)
    );
}

#[test]
fn expired_index_rejected() {
    let kp = keypair();
    let net = network(&kp, "myorg");
    let now = now_unix();
    let value = sign_index(
        &encoded(&kp),
        &net,
        &IndexDoc {
            version: 1,
            expires_at: now - 1,
            services: vec![],
        },
    )
    .unwrap();
    assert_eq!(verify_index(&net, &value, now), Err(AuthError::Expired));
}

#[test]
fn authority_mismatch_rejected() {
    let signer = keypair();
    let net = network(&signer, "myorg");
    let value = sign_index(
        &encoded(&signer),
        &net,
        &IndexDoc {
            version: 1,
            expires_at: now_unix() + 300,
            services: vec![],
        },
    )
    .unwrap();
    let other = network(&keypair(), "myorg");
    assert_eq!(
        verify_index(&other, &value, now_unix()),
        Err(AuthError::InvalidSignature)
    );
}

#[test]
fn hash_mismatch_rejected() {
    let kp = keypair();
    let net = network(&kp, "myorg");
    let peer = keypair().public().to_peer_id();
    let value = sign_whitelist(&encoded(&kp), &net, "cmd", &whitelist(1, &[&peer])).unwrap();
    let bad = ServiceEntry {
        name: "cmd".into(),
        hash: vec![0u8; 32],
        length: value.len() as u64,
    };
    assert_eq!(
        verify_whitelist(&net, "cmd", &value, &bad),
        Err(AuthError::HashMismatch)
    );
}

#[test]
fn oversized_value_rejected() {
    let kp = keypair();
    let net = network(&kp, "myorg");
    let huge = vec![0u8; MAX_DOC_BYTES + 1];
    assert_eq!(
        verify_index(&net, &huge, now_unix()),
        Err(AuthError::TooLarge)
    );
}

#[test]
fn cache_rejects_rollback() {
    let mut cache = AuthCache::default();
    let doc = |v| IndexDoc {
        version: v,
        expires_at: now_unix() + 300,
        services: vec![],
    };
    cache.insert_index(doc(2), 0).unwrap();
    assert_eq!(cache.insert_index(doc(1), 0), Err(AuthError::Rollback));
    cache.insert_index(doc(3), 0).unwrap();
    assert_eq!(cache.index().unwrap().version, 3);
}

#[test]
fn cache_whitelist_rejects_rollback_and_bad_member() {
    let mut cache = AuthCache::default();
    let peer = keypair().public().to_peer_id();
    cache
        .insert_whitelist("cmd", whitelist(2, &[&peer]), 0)
        .unwrap();
    assert_eq!(
        cache.insert_whitelist("cmd", whitelist(1, &[&peer]), 0),
        Err(AuthError::Rollback)
    );
    let bad = WhitelistDoc {
        version: 3,
        members: vec!["not-a-peer-id".into()],
    };
    assert_eq!(
        cache.insert_whitelist("cmd", bad, 0),
        Err(AuthError::Malformed)
    );
}

#[test]
fn freshness_conditions() {
    let mut cache = AuthCache::default();
    let now = now_unix();
    let clock = 7_000_000_000;
    cache
        .insert_index(
            IndexDoc {
                version: 1,
                expires_at: now + 300,
                services: vec![],
            },
            clock,
        )
        .unwrap();
    assert!(cache.fresh_index(now, 300, clock).is_some());
    assert!(cache.fresh_index(now, 0, clock).is_none());
    assert!(cache.fresh_index(now + 301, 300, clock).is_none());
}

#[test]
fn name_validation() {
    assert!(is_valid_network_name("myorg"));
    assert!(is_valid_network_name("my_org-1"));
    assert!(!is_valid_network_name(""));
    assert!(!is_valid_network_name("a/b"));
    assert!(is_valid_service_name("cmd"));
    assert!(!is_valid_service_name(RESERVED_SERVICE));
    assert!(!is_valid_service_name(""));
}

#[test]
fn net_hash_is_stable_and_path_safe() {
    let h1 = net_hash("myorg");
    let h2 = net_hash("myorg");
    let h3 = net_hash("other");
    assert_eq!(h1, h2);
    assert_ne!(h1, h3);
    assert!(!h1.contains('/'));
    assert!(!h1.contains('+'));
}

#[test]
fn invalid_network_name_rejected_at_construction() {
    let kp = keypair();
    let pub_bytes = kp.public().try_into_ed25519().unwrap().to_bytes();
    let b64 = STANDARD.encode(pub_bytes);
    assert_eq!(
        AuthNetwork::new("bad/name", &b64).err(),
        Some(AuthError::InvalidName)
    );
}

#[test]
fn reserved_service_key_rejected() {
    let kp = keypair();
    let net = network(&kp, "myorg");
    assert_eq!(
        net.service_key(RESERVED_SERVICE),
        Err(AuthError::InvalidName)
    );
}

#[test]
fn net_hash_of_a_known_name() {
    // SHA-256 of "abc" in URL-safe base64 without padding
    assert_eq!(net_hash("abc"), "ungWv48Bz-pBQUDeXa4iI7ADYaOWF3qctBD_YfIAFa0");
    assert_eq!(content_hash(b"abc")[0..4], [0xba, 0x78, 0x16, 0xbf]);
}

#[test]
fn names_of_64_characters_are_the_longest() {
    assert!(is_valid_network_name(&"a".repeat(64)));
    assert!(!is_valid_network_name(&"a".repeat(65)));
    assert!(!is_valid_network_name("名"));
}

#[test]
fn keys_of_index_and_whitelist() {
    let net = network(&keypair(), "abc");
    let hash = "ungWv48Bz-pBQUDeXa4iI7ADYaOWF3qctBD_YfIAFa0";
    assert_eq!(net.index_key(), format!("/oahd/auth/{hash}/service"));
    assert_eq!(net.service_key("cmd").unwrap(), format!("/oahd/auth/{hash}/cmd"));
    assert_ne!(net.index_key(), net.service_key("cmd").unwrap());
}

#[test]
fn authority_that_is_no_key_is_refused() {
    assert_eq!(parse_authority("!!!"), Err(AuthError::InvalidAuthority));
    assert_eq!(parse_authority("AAAA"), Err(AuthError::InvalidAuthority));
    let pub_bytes = keypair().public().try_into_ed25519().unwrap().to_bytes();
    assert_eq!(parse_authority(&STANDARD.encode(pub_bytes)).unwrap(), pub_bytes.to_vec());
    assert_eq!(AuthNetwork::new("myorg", "AAAA").err(), Some(AuthError::InvalidAuthority));
}

#[test]
fn envelope_that_is_none_is_refused() {
    let net = network(&keypair(), "myorg");
    assert_eq!(verify_index(&net, &[0xff], 0), Err(AuthError::Cose));
}

#[test]
fn payload_that_is_no_index_is_malformed() {
    let kp = keypair();
    let net = network(&kp, "myorg");
    let value = sign_payload(&encoded(&kp), net.index_key().as_bytes(), &[0x01]).unwrap();
    assert_eq!(verify_payload(&net.authority, net.index_key().as_bytes(), &value).unwrap(), vec![0x01]);
    assert_eq!(verify_index(&net, &value, 0), Err(AuthError::Malformed));
}

#[test]
fn documents_with_tags_and_byte_string_keys_are_read() {
    type V = ciborium::Value;
    let kp = keypair();
    let net = network(&kp, "myorg");
    let text = |t: &str| V::Text(t.into());
    let bytes = |t: &str| V::Bytes(t.into());
    let tag = |n: u64, v: V| V::Tag(n, Box::new(v));
    let read = |item: V| {
        let mut payload = Vec::new();
        ciborium::ser::into_writer(&item, &mut payload).unwrap();
        let value = sign_payload(&encoded(&kp), net.index_key().as_bytes(), &payload).unwrap();
        verify_index(&net, &value, 0)
    };
    let long = [vec![0u8; 12], vec![0, 0, 0, 0, 0, 1, 2, 3]].concat();
    let hash = V::Array((0..32).map(|n| if n == 5 { tag(9, V::from(7)) } else { V::from(n) }).collect());
    let entry = tag(1, V::Map(vec![
        (bytes("name"), tag(8, text("cmd"))),
        (tag(7, text("hash")), tag(5, hash)),
        (text("length"), tag(2, V::Bytes(long.clone()))),
        (text("other"), tag(6, V::Float(1.5))),
    ]));
    let index = |services: V| {
        tag(4, V::Map(vec![
            (bytes("version"), V::from(3)),
            (tag(1, bytes("expires_at")), tag(33, tag(34, V::from(9)))),
            (text("services"), services),
        ]))
    };
    let doc = read(index(tag(40, V::Array(vec![entry])))).unwrap();
    assert_eq!((doc.version, doc.expires_at, doc.services.len()), (3, 9, 1));
    assert_eq!((doc.services[0].name.as_str(), doc.services[0].length), ("cmd", 0x010203));
    let expected: Vec<u8> = (0..32).map(|n| if n == 5 { 7 } else { n }).collect();
    assert_eq!(doc.services[0].hash, expected);
    assert_eq!(read(index(V::Bytes(vec![]))).unwrap().services, vec![]);
    assert_eq!(read(index(tag(1, V::Bytes(vec![])))).unwrap().services, vec![]);
    assert_eq!(read(index(V::Bytes(vec![1]))), Err(AuthError::Malformed));
    let with = |more: Vec<(V, V)>| {
        let mut members = vec![(text("expires_at"), V::from(9)), (text("services"), V::Array(vec![]))];
        members.extend(more);
        read(V::Map(members))
    };
    assert_eq!(with(vec![(text("version"), V::from(1))]).unwrap().version, 1);
    assert_eq!(with(vec![(text("version"), tag(2, V::Bytes(vec![0; 20])))]).unwrap().version, 0);
    let twice = vec![(text("version"), V::from(1)), (bytes("version"), V::from(1))];
    assert_eq!(with(twice), Err(AuthError::Malformed));
    for wrong in [tag(2, tag(1, V::Bytes(long.clone()))), tag(3, V::Bytes(long)), tag(2, V::from(1)), V::Bytes(vec![1])] {
        assert_eq!(with(vec![(text("version"), wrong)]), Err(AuthError::Malformed));
    }
    let keyed = |key: V| with(vec![(text("version"), V::from(1)), (key, V::Null)]);
    assert_eq!(keyed(text(&"k".repeat(4096))).unwrap().version, 1);
    assert_eq!(keyed(V::Bytes(vec![0; 4096])).unwrap().version, 1);
    assert_eq!(keyed(text(&"k".repeat(4097))), Err(AuthError::Malformed));
    assert_eq!(keyed(V::Bytes(vec![0; 4097])), Err(AuthError::Malformed));
    assert_eq!(keyed(V::from(1)), Err(AuthError::Malformed));
    let listed = |members: V| {
        let item = V::Map(vec![(text("version"), V::from(1)), (text("members"), members)]);
        let mut payload = Vec::new();
        ciborium::ser::into_writer(&item, &mut payload).unwrap();
        let value = sign_payload(&encoded(&kp), net.service_key("cmd").unwrap().as_bytes(), &payload).unwrap();
        verify_whitelist(&net, "cmd", &value, &entry_for("cmd", &value))
    };
    let peer = kp.public().to_peer_id().to_string();
    assert_eq!(listed(V::Array(vec![tag(9, text(&peer))])).unwrap().members, vec![peer]);
    assert_eq!(listed(V::Bytes(vec![])).unwrap().members, Vec::<String>::new());
    assert_eq!(listed(V::Bytes(vec![65])), Err(AuthError::Malformed));
}

#[test]
fn bytes_that_are_no_key_pair_sign_nothing() {
    assert_eq!(sign_payload(&[1, 2, 3], b"/k", b"x"), Err(AuthError::Cose));
}

#[test]
fn bad_entries_are_refused_in_order() {
    let kp = keypair();
    let net = network(&kp, "myorg");
    let index = |services| IndexDoc { version: 1, expires_at: 10, services };
    let entry = |name: &str, n: usize| ServiceEntry { name: name.into(), hash: vec![0; n], length: 0 };
    let sign = |doc: &IndexDoc| sign_index(&encoded(&kp), &net, doc).unwrap();
    let bad_name = sign(&index(vec![entry("a/b", 31)]));
    assert_eq!(verify_index(&net, &bad_name, 0), Err(AuthError::InvalidName));
    let bad_hash = sign(&index(vec![entry("a", 31), entry("a/b", 32)]));
    assert_eq!(verify_index(&net, &bad_hash, 0), Err(AuthError::Malformed));
    let good = sign(&index(vec![entry("a", 32)]));
    assert!(verify_index(&net, &good, 10).is_ok());
    assert_eq!(verify_index(&net, &good, 11), Err(AuthError::Expired));
}

#[test]
fn too_many_entries_are_refused() {
    let kp = keypair();
    let net = network(&kp, "myorg");
    let entry = ServiceEntry { name: "s".into(), hash: vec![0; 32], length: 0 };
    let doc = IndexDoc { version: 1, expires_at: 1, services: vec![entry; MAX_SERVICES + 1] };
    let value = sign_index(&encoded(&kp), &net, &doc).unwrap();
    assert_eq!(verify_index(&net, &value, 0), Err(AuthError::TooLarge));
    let members = WhitelistDoc { version: 1, members: vec![String::new(); MAX_MEMBERS + 1] };
    let value = sign_whitelist(&encoded(&kp), &net, "cmd", &members).unwrap();
    let entry = entry_for("cmd", &value);
    assert_eq!(verify_whitelist(&net, "cmd", &value, &entry), Err(AuthError::TooLarge));
}

#[test]
fn whitelist_of_a_reserved_name_is_refused() {
    let kp = keypair();
    let net = network(&kp, "myorg");
    let doc = WhitelistDoc { version: 1, members: vec![] };
    assert_eq!(
        sign_whitelist(&encoded(&kp), &net, RESERVED_SERVICE, &doc),
        Err(AuthError::InvalidName)
    );
    let mut cache = AuthCache::default();
    assert_eq!(cache.insert_whitelist(RESERVED_SERVICE, doc, 0), Err(AuthError::InvalidName));
}

#[test]
fn later_entry_of_a_name_counts() {
    let mut cache = AuthCache::default();
    let entry = |length| ServiceEntry { name: "cmd".into(), hash: vec![0; 32], length };
    let doc = IndexDoc { version: 1, expires_at: 1, services: vec![entry(1), entry(2)] };
    cache.insert_index(doc, 0).unwrap();
    assert_eq!(cache.index().unwrap().services.get("cmd").unwrap().length, 2);
}

#[test]
fn members_are_known_by_peer() {
    let mut cache = AuthCache::default();
    let peer = keypair().public().to_peer_id();
    let other = keypair().public().to_peer_id();
    cache.insert_whitelist("cmd", whitelist(1, &[&peer, &peer]), 5).unwrap();
    let w = cache.whitelist("cmd").unwrap();
    assert!(w.is_member(&peer.to_string()));
    assert!(!w.is_member(&other.to_string()));
    assert_eq!(w.members.len(), 1);
    assert!(cache.fresh_whitelist("cmd", 1, 5 + 999_999_999).is_some());
    assert!(cache.fresh_whitelist("cmd", 1, 5 + 1_000_000_000).is_none());
    cache.clear();
    assert!(cache.whitelist("cmd").is_none());
    assert!(cache.index().is_none());
}

#[test]
fn every_auth_error_has_a_text() {
    assert_eq!(AuthError::Cose.text(), "cose envelope error");
    assert_eq!(AuthError::Malformed.text(), "malformed auth document");
    assert_eq!(AuthError::InvalidAuthority.text(), "invalid authority public key");
    assert_eq!(AuthError::InvalidSignature.text(), "signature verification failed");
    assert_eq!(AuthError::Expired.text(), "auth document expired");
    assert_eq!(AuthError::Rollback.text(), "auth document version rollback");
    assert_eq!(AuthError::HashMismatch.text(), "whitelist hash/length mismatch");
    assert_eq!(AuthError::NotInIndex.text(), "service not listed in auth index");
    assert_eq!(AuthError::TooLarge.text(), "auth document too large");
    assert_eq!(AuthError::InvalidName.text(), "invalid network or service name");
}

#[test]
fn clock_before_the_epoch_reads_as_zero() {
    assert_eq!(unix_seconds(None), 0);
    assert_eq!(unix_seconds(Some(0)), 0);
    assert_eq!(unix_seconds(Some(1700000000)), 1700000000);
    assert!(now_unix() > 0);
}

/// An envelope with these headers around a payload that nobody signed.
fn envelope(protected: Vec<u8>, unprotected: Vec<(ciborium::Value, ciborium::Value)>) -> Vec<u8> {
    let item = ciborium::Value::Array(vec![
        ciborium::Value::Bytes(protected),
        ciborium::Value::Map(unprotected),
        ciborium::Value::Bytes(vec![1]),
        ciborium::Value::Bytes(vec![0; 64]),
    ]);
    let mut out = Vec::new();
    ciborium::ser::into_writer(&item, &mut out).unwrap();
    out
}

fn header(members: Vec<(ciborium::Value, ciborium::Value)>) -> Vec<u8> {
    let mut out = Vec::new();
    ciborium::ser::into_writer(&ciborium::Value::Map(members), &mut out).unwrap();
    out
}

/// A counter signature whose protected header holds another, and so on.
fn nested(depth: usize) -> Vec<u8> {
    let mut inner = Vec::new();
    for _ in 0..depth {
        let signature = ciborium::Value::Array(vec![
            ciborium::Value::Bytes(inner),
            ciborium::Value::Map(vec![]),
            ciborium::Value::Bytes(vec![]),
        ]);
        inner = header(vec![(ciborium::Value::from(7), signature)]);
    }
    inner
}

#[test]
fn headers_nested_too_deep_are_refused() {
    let kp = keypair();
    let key = network(&kp, "myorg").authority;
    let verify = |value: Vec<u8>| verify_payload(&key, b"aad", &value).unwrap_err();
    let alg = |n: i64| (ciborium::Value::from(1), ciborium::Value::from(n));
    assert_eq!(verify(envelope(nested(1), vec![])), AuthError::InvalidSignature);
    assert_eq!(verify(envelope(nested(8), vec![])), AuthError::InvalidSignature);
    assert_eq!(verify(envelope(nested(9), vec![])), AuthError::Cose);
    assert_eq!(verify(envelope(nested(3000), vec![])), AuthError::Cose);
    let counter = (ciborium::Value::from(7), ciborium::Value::Array(vec![]));
    assert_eq!(verify(envelope(header(vec![alg(-8)]), vec![counter])), AuthError::Cose);
    assert_eq!(verify(envelope(vec![0xff], vec![])), AuthError::Cose);
    assert_eq!(verify(envelope(header(vec![alg(-8)]), vec![])), AuthError::InvalidSignature);
    assert_eq!(verify(envelope(header(vec![alg(-7)]), vec![])), AuthError::InvalidSignature);
    assert_eq!(verify(envelope(vec![], vec![])), AuthError::InvalidSignature);
    let kid = (ciborium::Value::from(4), ciborium::Value::Bytes(vec![1]));
    assert_eq!(verify(envelope(header(vec![alg(-8)]), vec![kid])), AuthError::InvalidSignature);
}
