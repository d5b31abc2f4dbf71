//! The cryptographic primitives under the post-quantum layer, as plain bytes.

use crate::bytes::optional_bytes_view;
use crate::crypto::{ed25519_key, PeerId};
use chacha20poly1305::aead::{Aead, KeyInit};
use ml_dsa::{Generate, KeyExport, Keypair, SignatureEncoding, Signer, Verifier};
use ml_kem::kem::{Decapsulate, Encapsulate, Kem, TryKeyInit};
use rand_core::RngCore;
use vstd::prelude::*;

verus! {

/// The number of bytes of an ML-KEM-768 ciphertext.
pub const MLKEM_CT_LEN: usize = 1088;

/// The number of bytes of an ML-KEM-768 encapsulation key.
pub const MLKEM_EK_LEN: usize = 1184;

/// The number of bytes of the seed that stands for an ML-KEM-768 decapsulation key.
pub const MLKEM_SEED_LEN: usize = 64;

/// The number of bytes of the seed that stands for an ML-DSA-65 signing key.
pub const MLDSA_SEED_LEN: usize = 32;

/// The number of bytes of an ML-DSA-65 verifying key.
pub const MLDSA_VK_LEN: usize = 1952;

/// The number of bytes of an X25519 key.
pub const X25519_LEN: usize = 32;

/// The encapsulation key that belongs to a decapsulation key, given by its seed.
pub uninterp spec fn mlkem_public(seed: Seq<u8>) -> Seq<u8>;

/// Whether some bytes are an ML-KEM-768 encapsulation key.
pub uninterp spec fn mlkem_key(bytes: Seq<u8>) -> bool;

/// `ml_kem::MlKem768::generate_keypair`: a random decapsulation key, as its 64-byte seed, and its
/// encapsulation key.
#[verifier::external_body]
pub(crate) fn mlkem_generate() -> (r: (Vec<u8>, Vec<u8>))
    ensures
        r.0@.len() == MLKEM_SEED_LEN,
        r.1@ == mlkem_public(r.0@),
        r.1@.len() == MLKEM_EK_LEN,
        mlkem_key(r.1@),
{
    let (dk, ek) = ml_kem::MlKem768::generate_keypair();
    (dk.to_bytes().as_slice().to_vec(), ek.to_bytes().as_slice().to_vec())
}

/// `ml_kem::EncapsulationKey::<MlKem768>::new_from_slice`: whether it takes the bytes. It takes
/// none but 1184 bytes.
#[verifier::external_body]
pub(crate) fn is_mlkem_key(bytes: &[u8]) -> (r: bool)
    ensures
        r == mlkem_key(bytes@),
        r ==> bytes@.len() == MLKEM_EK_LEN,
{
    ml_kem::EncapsulationKey::<ml_kem::MlKem768>::new_from_slice(bytes).is_ok()
}

/// The ciphertext and the shared secret that an encapsulation key gives for a random input.
pub uninterp spec fn mlkem_encapsulated(key: Seq<u8>, random: Seq<u8>) -> (Seq<u8>, Seq<u8>);

/// What encapsulating gives: a ciphertext to send, and the secret to keep.
pub struct Encapsulated {
    pub ciphertext: Vec<u8>,
    pub secret: Vec<u8>,
}

/// `ml_kem::kem::Encapsulate::encapsulate` with the key of the given bytes: a ciphertext and a
/// shared secret for a random input of 32 bytes; nothing where the bytes are no key. That the
/// holder of the decapsulation key gets the same secret is not claimed: for rare random inputs
/// ML-KEM fails there.
#[verifier::external_body]
pub(crate) fn mlkem_encapsulate(key: &[u8]) -> (r: Option<Encapsulated>)
    ensures
        r is Some <==> mlkem_key(key@),
        r matches Some(e) ==> e.ciphertext@.len() == MLKEM_CT_LEN,
        r matches Some(e) ==> e.secret@.len() == 32,
        r matches Some(e) ==> (exists|random: Seq<u8>|
            random.len() == 32 && (e.ciphertext@, e.secret@) == #[trigger] mlkem_encapsulated(key@, random)),
{
    let key = ml_kem::EncapsulationKey::<ml_kem::MlKem768>::new_from_slice(key).ok()?;
    let (ct, ss) = key.encapsulate();
    Some(Encapsulated { ciphertext: ct.as_slice().to_vec(), secret: ss.as_slice().to_vec() })
}

/// The shared secret that a decapsulation key, given by its seed, gets from a ciphertext.
pub uninterp spec fn mlkem_decapsulated(seed: Seq<u8>, ct: Seq<u8>) -> Seq<u8>;

/// `ml_kem::kem::Decapsulate::decapsulate` with the key of the given 64-byte seed; nothing where
/// the seed or the ciphertext has another length.
#[verifier::external_body]
pub(crate) fn mlkem_decapsulate(seed: &[u8], ct: &[u8]) -> (r: Option<Vec<u8>>)
    ensures
        r is Some <==> (seed@.len() == MLKEM_SEED_LEN && ct@.len() == MLKEM_CT_LEN),
        r is Some ==> r->0@ == mlkem_decapsulated(seed@, ct@),
        r is Some ==> r->0@.len() == 32,
{
    let key = <ml_kem::DecapsulationKey::<ml_kem::MlKem768> as ml_dsa::KeyInit>::new_from_slice(seed).ok()?;
    let ct = ml_kem::Ciphertext::<ml_kem::MlKem768>::try_from(ct).ok()?;
    Some(key.decapsulate(&ct).as_slice().to_vec())
}

/// The X25519 public key of a secret.
pub uninterp spec fn x25519_public_of(secret: Seq<u8>) -> Seq<u8>;

/// What an X25519 secret and a public key agree on.
pub uninterp spec fn x25519_shared(secret: Seq<u8>, public: Seq<u8>) -> Seq<u8>;

/// `x25519_dalek::StaticSecret::random_from_rng`: a random secret of 32 bytes.
#[verifier::external_body]
pub(crate) fn x25519_generate() -> (r: [u8; 32]) {
    x25519_dalek::StaticSecret::random_from_rng(rand_core::OsRng).to_bytes()
}

/// `x25519_dalek::PublicKey::from` a secret.
#[verifier::external_body]
pub(crate) fn x25519_public(secret: &[u8; 32]) -> (r: [u8; 32])
    ensures
        r@ == x25519_public_of(secret@),
{
    x25519_dalek::PublicKey::from(&x25519_dalek::StaticSecret::from(*secret)).to_bytes()
}

/// `x25519_dalek::StaticSecret::diffie_hellman`: the owner of the public key agrees on the same
/// bytes with this secret's public key.
#[verifier::external_body]
pub(crate) fn x25519_agree(secret: &[u8; 32], public: &[u8; 32]) -> (r: [u8; 32])
    ensures
        r@ == x25519_shared(secret@, public@),
        forall|other: Seq<u8>|
            other.len() == 32 && public@ == #[trigger] x25519_public_of(other) ==> r@ == x25519_shared(
                other,
                x25519_public_of(secret@),
            ),
{
    let public = x25519_dalek::PublicKey::from(*public);
    x25519_dalek::StaticSecret::from(*secret).diffie_hellman(&public).to_bytes()
}

/// The verifying key that belongs to an ML-DSA-65 signing key, given by its seed.
pub uninterp spec fn mldsa_public(seed: Seq<u8>) -> Seq<u8>;

/// `ml_dsa::SigningKey::<MlDsa65>::generate`: a random signing key, as its 32-byte seed, and its
/// verifying key.
#[verifier::external_body]
pub(crate) fn mldsa_generate() -> (r: (Vec<u8>, Vec<u8>))
    ensures
        r.0@.len() == MLDSA_SEED_LEN,
        r.1@ == mldsa_public(r.0@),
        r.1@.len() == MLDSA_VK_LEN,
{
    let key = ml_dsa::SigningKey::<ml_dsa::MlDsa65>::generate();
    let public = key.verifying_key().to_bytes();
    (key.to_bytes().as_slice().to_vec(), public.as_slice().to_vec())
}

/// The signature of an ML-DSA-65 signing key, given by its seed, on some bytes.
pub uninterp spec fn mldsa_signature(seed: Seq<u8>, data: Seq<u8>) -> Option<Seq<u8>>;

/// Whether `sig` is a signature of an ML-DSA-65 verifying key on `data`.
pub uninterp spec fn mldsa_signed(key: Seq<u8>, data: Seq<u8>, sig: Seq<u8>) -> bool;

/// `ml_dsa::SigningKey::<MlDsa65>::try_sign`, which is deterministic, with the key of the given
/// seed; nothing where the seed has not 32 bytes or signing fails. The key's verifying key accepts
/// the signature.
#[verifier::external_body]
pub(crate) fn mldsa_sign(seed: &[u8], data: &[u8]) -> (r: Option<Vec<u8>>)
    ensures
        optional_bytes_view(r) == mldsa_signature(seed@, data@),
        r is Some ==> mldsa_signed(mldsa_public(seed@), data@, r->0@),
{
    let key = <ml_dsa::SigningKey::<ml_dsa::MlDsa65> as ml_dsa::KeyInit>::new_from_slice(seed).ok()?;
    let sig: ml_dsa::Signature<ml_dsa::MlDsa65> = key.try_sign(data).ok()?;
    Some(sig.to_vec())
}

/// `ml_dsa::VerifyingKey::<MlDsa65>::verify`; false where the key or the signature cannot be read.
#[verifier::external_body]
pub(crate) fn mldsa_verify(key: &[u8], data: &[u8], sig: &[u8]) -> (r: bool)
    ensures
        r == mldsa_signed(key@, data@, sig@),
{
    let key = <ml_dsa::VerifyingKey::<ml_dsa::MlDsa65> as ml_dsa::KeyInit>::new_from_slice(key);
    let sig = ml_dsa::Signature::<ml_dsa::MlDsa65>::try_from(sig);
    key.is_ok_and(|key| sig.is_ok_and(|sig| key.verify(data, &sig).is_ok()))
}

/// The 32 bytes that HKDF-SHA256, without salt, expands from a secret for a purpose.
pub uninterp spec fn hkdf_of(secret: Seq<u8>, info: Seq<u8>) -> Seq<u8>;

/// `hkdf::Hkdf::<Sha256>::new` without salt, then `expand` to 32 bytes, which that length allows.
#[verifier::external_body]
pub(crate) fn hkdf32(secret: &[u8], info: &[u8]) -> (r: [u8; 32])
    ensures
        r@ == hkdf_of(secret@, info@),
{
    let mut out = [0u8; 32];
    let hk = hkdf::Hkdf::<sha2::Sha256>::new(None, secret);
    hk.expand(info, &mut out).expect("32 bytes is a valid HKDF output length");
    out
}

/// `rand_core::OsRng.fill_bytes` on as many bytes as asked for.
#[verifier::external_body]
pub(crate) fn random_bytes(n: usize) -> (r: Vec<u8>)
    ensures
        r@.len() == n,
{
    let mut out = vec![0u8; n];
    rand_core::OsRng.fill_bytes(&mut out);
    out
}

/// The ChaCha20-Poly1305 ciphertext of a plaintext under a key and a nonce.
pub uninterp spec fn aead_sealed(key: Seq<u8>, nonce: Seq<u8>, plaintext: Seq<u8>) -> Seq<u8>;

/// The plaintext of a ChaCha20-Poly1305 ciphertext under a key and a nonce.
pub uninterp spec fn aead_opened(key: Seq<u8>, nonce: Seq<u8>, ciphertext: Seq<u8>) -> Option<Seq<u8>>;

/// The most bytes that ChaCha20-Poly1305 takes: 64 for each value of its 32-bit block counter, but
/// for the first and the last.
pub const AEAD_MAX_LEN: u64 = 274877906816;

/// Whether ChaCha20-Poly1305 takes so many bytes.
pub open spec fn aead_takes(len: nat) -> bool {
    len <= AEAD_MAX_LEN
}

/// Whether ChaCha20-Poly1305 takes so many bytes.
pub fn is_aead_len(len: usize) -> (r: bool)
    ensures
        r == aead_takes(len as nat),
{
    len as u64 <= AEAD_MAX_LEN
}

/// `chacha20poly1305::ChaCha20Poly1305::encrypt`, which does not fail on a plaintext that it takes:
/// it adds a tag of 16 bytes, and `decrypt` gives the plaintext back.
#[verifier::external_body]
pub(crate) fn aead_encrypt(key: &[u8; 32], nonce: &[u8], plaintext: &[u8]) -> (r: Vec<u8>)
    requires
        nonce@.len() == 12,
        aead_takes(plaintext@.len()),
    ensures
        r@ == aead_sealed(key@, nonce@, plaintext@),
        r@.len() == plaintext@.len() + 16,
        aead_opened(key@, nonce@, r@) == Some(plaintext@),
{
    let cipher = chacha20poly1305::ChaCha20Poly1305::new(chacha20poly1305::Key::from_slice(key));
    let sealed = cipher.encrypt(chacha20poly1305::Nonce::from_slice(nonce), plaintext);
    sealed.expect("a plaintext of this length is taken")
}

/// `chacha20poly1305::ChaCha20Poly1305::decrypt` of no more bytes than it takes.
#[verifier::external_body]
pub(crate) fn aead_decrypt(key: &[u8; 32], nonce: &[u8], ciphertext: &[u8]) -> (r: Option<Vec<u8>>)
    requires
        nonce@.len() == 12,
        aead_takes(ciphertext@.len()),
    ensures
        optional_bytes_view(r) == aead_opened(key@, nonce@, ciphertext@),
{
    let cipher = chacha20poly1305::ChaCha20Poly1305::new(chacha20poly1305::Key::from_slice(key));
    cipher.decrypt(chacha20poly1305::Nonce::from_slice(nonce), ciphertext).ok()
}

/// The id of the peer with an ed25519 public key.
pub uninterp spec fn peer_of_key(key: Seq<u8>) -> Seq<char>;

/// `libp2p::identity::PublicKey::to_peer_id` of an ed25519 public key, as its text; nothing where
/// the bytes are no key.
#[verifier::external_body]
pub(crate) fn peer_id_of_key(key: &[u8]) -> (r: Option<PeerId>)
    ensures
        r is Some <==> ed25519_key(key@),
        r is Some ==> r->0@ == peer_of_key(key@),
{
    let key = libp2p::identity::ed25519::PublicKey::try_from_bytes(key).ok()?;
    Some(libp2p::identity::PublicKey::from(key).to_peer_id().to_string())
}

} // verus!
