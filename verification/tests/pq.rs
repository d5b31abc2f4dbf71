use libp2p::identity;
use nexusnet::network::identity::{KeyError, KeyFile, KeyManager};
use nexusnet::network::pq::{
    identity_message, open_request, seal_request, signed_message, PqError, PqKeys, PqRequest, PqResponse,
};

fn id_keypair() -> identity::Keypair {
    identity::Keypair::generate_ed25519()
}

fn encoded(kp: &identity::Keypair) -> Vec<u8> {
    kp.to_protobuf_encoding().unwrap()
}

fn peer(kp: &identity::Keypair) -> String {
    kp.public().to_peer_id().to_string()
}

#[test]
fn request_response_round_trip() {
    let responder = PqKeys::generate();
    let responder_id_kp = id_keypair();
    let responder_identity = responder.identity(&encoded(&responder_id_kp)).unwrap();
    responder_identity.verify(&peer(&responder_id_kp)).unwrap();

    let requester = PqKeys::generate();
    let requester_id_kp = id_keypair();

    let out = seal_request(
        &requester,
        &responder_identity,
        b"hello pq",
        false,
        &encoded(&requester_id_kp),
    )
    .map_err(|e| e.text())
    .unwrap();

    let inbound = open_request(&responder, &out.request).map_err(|e| e.text()).unwrap();
    assert_eq!(inbound.plaintext, b"hello pq");

    let resp = inbound.seal_response(b"world pq").unwrap();
    let got = out.open_response(&resp).unwrap();
    assert_eq!(got, b"world pq");
    assert_ne!(resp.ciphertext, b"world pq");
}

#[test]
fn signed_request_round_trip_and_verification() {
    let responder = PqKeys::generate();
    let responder_id_kp = id_keypair();
    let responder_identity = responder.identity(&encoded(&responder_id_kp)).unwrap();

    let requester = PqKeys::generate();
    let requester_id_kp = id_keypair();

    let out = seal_request(
        &requester,
        &responder_identity,
        b"signed",
        true,
        &encoded(&requester_id_kp),
    )
    .map_err(|e| e.text())
    .unwrap();
    assert!(out.request.signature.is_some());
    assert!(out.request.identity.is_some());

    let inbound = open_request(&responder, &out.request).map_err(|e| e.text()).unwrap();
    assert_eq!(inbound.plaintext, b"signed");
}

#[test]
fn tampered_ciphertext_is_rejected() {
    let responder = PqKeys::generate();
    let responder_id_kp = id_keypair();
    let responder_identity = responder.identity(&encoded(&responder_id_kp)).unwrap();

    let requester = PqKeys::generate();
    let requester_id_kp = id_keypair();
    let mut out = seal_request(
        &requester,
        &responder_identity,
        b"secret",
        false,
        &encoded(&requester_id_kp),
    )
    .map_err(|e| e.text())
    .unwrap();

    out.request.ciphertext[0] ^= 0xff;
    assert!(matches!(
        open_request(&responder, &out.request),
        Err(PqError::Crypto)
    ));
}

#[test]
fn identity_bound_to_peer_id() {
    let kp = id_keypair();
    let keys = PqKeys::generate();
    let id = keys.identity(&encoded(&kp)).unwrap();
    let other = peer(&id_keypair());
    assert_eq!(id.verify(&other), Err(PqError::InvalidIdentity));
}

#[test]
fn key_serialization_round_trip() {
    let keys = PqKeys::generate();
    let bytes = keys.to_bytes();
    let restored = PqKeys::from_bytes(&bytes).map_err(|e| e.text()).unwrap();

    let id_kp = id_keypair();
    let id = restored.identity(&encoded(&id_kp)).unwrap();
    id.verify(&peer(&id_kp)).unwrap();
    assert_eq!(restored.to_bytes(), bytes);
}

#[test]
fn stored_keys_have_known_lengths() {
    let bytes = PqKeys::generate().to_bytes();
    assert_eq!(bytes.len(), 1 + 5 * 4 + 64 + 1184 + 32 + 32 + 1952);
    assert_eq!(bytes[0..5], [1, 0, 0, 0, 64]);
}

#[test]
fn cut_or_changed_stored_keys_are_refused() {
    let bytes = PqKeys::generate().to_bytes();
    assert!(matches!(PqKeys::from_bytes(&[]), Err(PqError::InvalidKey)));
    assert!(matches!(PqKeys::from_bytes(&bytes[..bytes.len() - 1]), Err(PqError::InvalidKey)));
    let mut other = bytes.clone();
    other[0] = 2;
    assert!(matches!(PqKeys::from_bytes(&other), Err(PqError::InvalidKey)));
    let mut longer = bytes.clone();
    longer.push(0);
    assert!(PqKeys::from_bytes(&longer).is_ok());
}

fn signed_request(responder: &PqKeys) -> PqRequest {
    let identity = responder.identity(&encoded(&id_keypair())).unwrap();
    let requester = PqKeys::generate();
    seal_request(&requester, &identity, b"signed", true, &encoded(&id_keypair()))
        .map_err(|e| e.text())
        .unwrap()
        .request
}

#[test]
fn malformed_envelopes_are_refused() {
    let responder = PqKeys::generate();
    let good = signed_request(&responder);
    let mut bad = good.clone();
    bad.version = 2;
    assert!(matches!(open_request(&responder, &bad), Err(PqError::InvalidEnvelope)));
    let mut bad = good.clone();
    bad.kem.pop();
    assert!(matches!(open_request(&responder, &bad), Err(PqError::InvalidEnvelope)));
    let mut bad = good.clone();
    bad.nonce.push(0);
    assert!(matches!(open_request(&responder, &bad), Err(PqError::InvalidEnvelope)));
    let mut bad = good.clone();
    bad.ciphertext = vec![0; (1 << 20) + 1];
    assert!(matches!(open_request(&responder, &bad), Err(PqError::InvalidEnvelope)));
    assert!(open_request(&responder, &good).is_ok());
}

#[test]
fn wrong_signatures_are_refused() {
    let responder = PqKeys::generate();
    let good = signed_request(&responder);
    let mut bad = good.clone();
    bad.signature.as_mut().unwrap()[0] ^= 1;
    assert!(matches!(open_request(&responder, &bad), Err(PqError::InvalidIdentity)));
    let mut bad = good.clone();
    bad.identity.as_mut().unwrap().proof_sig[0] ^= 1;
    assert!(matches!(open_request(&responder, &bad), Err(PqError::InvalidIdentity)));
    let mut bad = good.clone();
    bad.identity.as_mut().unwrap().ed25519_pub.pop();
    assert!(matches!(open_request(&responder, &bad), Err(PqError::InvalidIdentity)));
    let mut unsigned = good;
    unsigned.signature = None;
    assert!(open_request(&responder, &unsigned).is_ok());
}

#[test]
fn recipient_keys_of_wrong_form_are_refused() {
    let requester = PqKeys::generate();
    let identity = PqKeys::generate().identity(&encoded(&id_keypair())).unwrap();
    let kp = encoded(&id_keypair());
    let mut bad = identity.clone();
    bad.kem_pub.pop();
    assert!(matches!(seal_request(&requester, &bad, b"x", false, &kp), Err(PqError::InvalidKey)));
    let mut bad = identity.clone();
    bad.x25519_pub.pop();
    assert!(matches!(seal_request(&requester, &bad, b"x", false, &kp), Err(PqError::InvalidKey)));
    assert!(matches!(seal_request(&requester, &identity, b"x", true, &[]), Err(PqError::Crypto)));
    assert!(matches!(requester.identity(&[]), Err(PqError::Crypto)));
}

#[test]
fn response_with_another_key_is_refused() {
    let responder = PqKeys::generate();
    let identity = responder.identity(&encoded(&id_keypair())).unwrap();
    let kp = encoded(&id_keypair());
    let a = seal_request(&PqKeys::generate(), &identity, b"a", false, &kp).map_err(|e| e.text()).unwrap();
    let b = seal_request(&PqKeys::generate(), &identity, b"b", false, &kp).map_err(|e| e.text()).unwrap();
    let inbound = open_request(&responder, &a.request).map_err(|e| e.text()).unwrap();
    let resp = inbound.seal_response(b"only for a").unwrap();
    assert_eq!(b.open_response(&resp), Err(PqError::Crypto));
    let short = PqResponse { nonce: vec![0; 11], ciphertext: resp.ciphertext };
    assert_eq!(a.open_response(&short), Err(PqError::InvalidEnvelope));
}

#[test]
fn every_pq_error_has_a_text() {
    assert_eq!(PqError::InvalidIdentity.text(), "pq identity proof invalid");
    assert_eq!(PqError::InvalidKey.text(), "pq key material invalid");
    assert_eq!(PqError::InvalidEnvelope.text(), "pq envelope malformed");
    assert_eq!(PqError::Crypto.text(), "pq crypto failure");
}

#[test]
fn key_pair_is_loaded_or_made() {
    let kp = id_keypair();
    let loaded = KeyManager::load_or_create(KeyFile::Read(encoded(&kp)), None).unwrap();
    assert!(loaded.write.is_none());
    assert_eq!(loaded.manager.peer_id(), peer(&kp));
    assert!(!loaded.manager.has_pq_keys());

    let made = KeyManager::load_or_create(KeyFile::NotFound, None).unwrap();
    let written = made.write.unwrap();
    assert_eq!(&written, made.manager.keypair());
    let again = KeyManager::load_or_create(KeyFile::Read(written), None).unwrap();
    assert_eq!(again.manager.peer_id(), made.manager.peer_id());
}

#[test]
fn bad_key_files_are_refused() {
    assert!(matches!(
        KeyManager::load_or_create(KeyFile::Read(vec![1, 2, 3]), None),
        Err(KeyError::Unparsable(_))
    ));
    assert!(matches!(
        KeyManager::load_or_create(KeyFile::Failed("denied".into()), None),
        Err(KeyError::Unreadable(e)) if e == "denied"
    ));
}

#[test]
fn post_quantum_keys_are_made_once() {
    let manager = KeyManager::load_or_create(KeyFile::NotFound, None).unwrap().manager;
    let keys = manager.missing_pq_keys().unwrap();
    let bytes = keys.to_bytes();
    let manager = manager.with_pq_keys(keys);
    assert!(manager.has_pq_keys());
    assert!(manager.missing_pq_keys().is_none());
    let (manager, taken) = manager.take_pq_keys();
    assert!(!manager.has_pq_keys());
    assert_eq!(taken.unwrap().to_bytes(), bytes);
    let loaded = KeyManager::load_or_create(KeyFile::NotFound, Some(bytes.clone())).unwrap();
    assert!(loaded.manager.has_pq_keys());
    let bad = KeyManager::load_or_create(KeyFile::NotFound, Some(vec![1])).unwrap();
    assert!(!bad.manager.has_pq_keys());
}

#[test]
fn sealed_requests_have_known_sizes() {
    let (sender, receiver, kp) = (PqKeys::generate(), PqKeys::generate(), id_keypair());
    let recipient = receiver.identity(&encoded(&id_keypair())).unwrap();
    for (plaintext, sign) in [(vec![], false), (vec![7; 100], true)] {
        let sealed = seal_request(&sender, &recipient, &plaintext, sign, &encoded(&kp)).unwrap().request;
        assert_eq!((sealed.version, sealed.kem.len(), sealed.nonce.len()), (1, 1088 + 32, 12));
        assert_eq!(sealed.ciphertext.len(), plaintext.len() + 16);
        assert_eq!((sealed.identity.is_some(), sealed.signature.is_some()), (sign, sign));
    }
}

#[test]
fn signed_bytes_start_with_their_purpose() {
    assert_eq!(signed_message(b"k", b"n", b"c"), b"oahd/pq/request/v1knc");
    assert_eq!(identity_message(b"k", b"x", b"s"), b"oahd/pq/identity/v1kxs");
    assert_ne!(signed_message(b"k", b"n", b"c"), identity_message(b"k", b"n", b"c"));
}
