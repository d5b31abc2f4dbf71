//! Post-quantum encryption of service requests and responses.
//!
//! ML-KEM-768 and X25519 together agree on a secret, ChaCha20-Poly1305 encrypts under keys derived
//! from it, and ML-DSA-65 may sign. The requester encapsulates to the responder's public key; the
//! response is encrypted under the same secret, so it needs no key exchange of its own.
//!
//! The public keys are bound to a peer id by an ed25519 signature.

use crate::bytes::{
    be32, be32_inverse, be32_value, copy_bytes, optional_bytes_view, push_be32, push_bytes,
    read_be32, slice_of,
};
use crate::crypto::{
    ed25519_key, ed25519_signed, ed25519_verify, identity_public, identity_signature,
    keypair_public, keypair_sign,
};
use crate::network::primitives::{
    aead_decrypt, aead_encrypt, aead_opened, aead_sealed, aead_takes, hkdf32, hkdf_of, is_aead_len, is_mlkem_key,
    mldsa_generate, mldsa_public, mldsa_sign, mldsa_signature, mldsa_signed, mldsa_verify,
    mlkem_decapsulate, mlkem_decapsulated, mlkem_encapsulate, mlkem_encapsulated, mlkem_generate,
    mlkem_key, mlkem_public, peer_id_of_key, peer_of_key, random_bytes, x25519_agree,
    x25519_generate, x25519_public, x25519_public_of, x25519_shared, MLDSA_SEED_LEN, MLDSA_VK_LEN,
    MLKEM_CT_LEN, MLKEM_EK_LEN, MLKEM_SEED_LEN, X25519_LEN,
};
use crate::text::same_text;
use vstd::prelude::*;
use vstd::string::*;
use vstd::utf8::{encode_utf8, is_ascii_chars_encode_utf8};

verus! {

/// The version of envelopes and of stored keys.
pub const ENVELOPE_VERSION: u8 = 1;

/// The protocol id of encrypted service requests.
pub const SERVICE_REQ_PQ_PROTOCOL: &'static str = "/oahd/service_req/2.0.0";

/// The protocol id of the exchange of identities: who has it supports the encryption.
pub const PQ_IDENTITY_PROTOCOL: &'static str = "/oahd/pq_identity/1.0.0";

/// The number of bytes of a nonce.
pub const NONCE_LEN: usize = 12;

/// The most bytes that a ciphertext may have.
pub const MAX_CIPHERTEXT: usize = 1048576;

/// The purpose of the key of requests.
pub const REQ_INFO: &'static str = "oahd/pq/req/v1";

/// The purpose of the key of responses.
pub const RES_INFO: &'static str = "oahd/pq/res/v1";

/// The purpose of the secret that both key agreements give together.
pub const COMBINE_INFO: &'static str = "oahd/pq/combine/v1";

/// What the bytes that bind public keys to a peer start with.
pub const IDENTITY_DOMAIN: &'static str = "oahd/pq/identity/v1";

/// What the signed bytes of a request start with.
pub const REQUEST_DOMAIN: &'static str = "oahd/pq/request/v1";

/// Why keys, an identity or an envelope were refused.
#[derive(Debug, Clone, Copy, PartialEq, Eq, Structural)]
pub enum PqError {
    /// The proof that binds the keys to a peer does not hold.
    InvalidIdentity,
    /// A key has the wrong form or length.
    InvalidKey,
    /// The envelope has the wrong form or size.
    InvalidEnvelope,
    /// Encrypting, decrypting or signing failed.
    Crypto,
}

/// The text of an error.
pub open spec fn pq_error_text(e: PqError) -> Seq<char> {
    match e {
        PqError::InvalidIdentity => "pq identity proof invalid"@,
        PqError::InvalidKey => "pq key material invalid"@,
        PqError::InvalidEnvelope => "pq envelope malformed"@,
        PqError::Crypto => "pq crypto failure"@,
    }
}

impl PqError {
    /// The text of the error.
    pub fn text(&self) -> (r: String)
        ensures
            r@ == pq_error_text(*self),
    {
        let t = match self {
            PqError::InvalidIdentity => "pq identity proof invalid",
            PqError::InvalidKey => "pq key material invalid",
            PqError::InvalidEnvelope => "pq envelope malformed",
            PqError::Crypto => "pq crypto failure",
        };
        t.to_owned()
    }
}

/// The bytes that bind public keys to a peer.
pub open spec fn identity_data(kem_pub: Seq<u8>, x25519_pub: Seq<u8>, sig_pub: Seq<u8>) -> Seq<u8> {
    encode_utf8(IDENTITY_DOMAIN@) + kem_pub + x25519_pub + sig_pub
}

/// The bytes that bind public keys to a peer. They are never the signed bytes of a request.
pub fn identity_message(kem_pub: &[u8], x25519_pub: &[u8], sig_pub: &[u8]) -> (r: Vec<u8>)
    ensures
        r@ == identity_data(kem_pub@, x25519_pub@, sig_pub@),
        forall|a: Seq<u8>, b: Seq<u8>, c: Seq<u8>| r@ != #[trigger] request_data(a, b, c),
{
    proof {
        assert forall|a: Seq<u8>, b: Seq<u8>, c: Seq<u8>| #[trigger] request_data(a, b, c) != identity_data(
            kem_pub@,
            x25519_pub@,
            sig_pub@,
        ) by {
            signed_bytes_do_not_mix(a, b, c, kem_pub@, x25519_pub@, sig_pub@);
        }
    }
    let mut m = copy_bytes(IDENTITY_DOMAIN.as_bytes());
    push_bytes(&mut m, kem_pub);
    push_bytes(&mut m, x25519_pub);
    push_bytes(&mut m, sig_pub);
    m
}

/// The signed bytes of a request.
pub open spec fn request_data(kem: Seq<u8>, nonce: Seq<u8>, ciphertext: Seq<u8>) -> Seq<u8> {
    encode_utf8(REQUEST_DOMAIN@) + kem + nonce + ciphertext
}

/// The signed bytes of a request. They are never the bytes that bind public keys to a peer.
pub fn signed_message(kem: &[u8], nonce: &[u8], ciphertext: &[u8]) -> (r: Vec<u8>)
    ensures
        r@ == request_data(kem@, nonce@, ciphertext@),
        forall|a: Seq<u8>, b: Seq<u8>, c: Seq<u8>| r@ != #[trigger] identity_data(a, b, c),
{
    proof {
        assert forall|a: Seq<u8>, b: Seq<u8>, c: Seq<u8>| request_data(kem@, nonce@, ciphertext@)
            != #[trigger] identity_data(a, b, c) by {
            signed_bytes_do_not_mix(kem@, nonce@, ciphertext@, a, b, c);
        }
    }
    let mut m = copy_bytes(REQUEST_DOMAIN.as_bytes());
    push_bytes(&mut m, kem);
    push_bytes(&mut m, nonce);
    push_bytes(&mut m, ciphertext);
    m
}

/// The bytes of a request are never those of an identity: a signature on one is none on the other.
pub proof fn signed_bytes_do_not_mix(
    kem: Seq<u8>,
    nonce: Seq<u8>,
    ciphertext: Seq<u8>,
    kem_pub: Seq<u8>,
    x25519_pub: Seq<u8>,
    sig_pub: Seq<u8>,
)
    ensures
        request_data(kem, nonce, ciphertext) != identity_data(kem_pub, x25519_pub, sig_pub),
{
    reveal_strlit("oahd/pq/request/v1");
    reveal_strlit("oahd/pq/identity/v1");
    is_ascii_chars_encode_utf8(REQUEST_DOMAIN@);
    is_ascii_chars_encode_utf8(IDENTITY_DOMAIN@);
    assert(REQUEST_DOMAIN@[8] == 'r');
    assert(IDENTITY_DOMAIN@[8] == 'i');
    assert(request_data(kem, nonce, ciphertext)[8] == encode_utf8(REQUEST_DOMAIN@)[8]);
    assert(identity_data(kem_pub, x25519_pub, sig_pub)[8] == encode_utf8(IDENTITY_DOMAIN@)[8]);
}

/// The secret that both key agreements give together.
pub open spec fn combined(kem_secret: Seq<u8>, x_secret: Seq<u8>) -> Seq<u8> {
    hkdf_of(kem_secret + x_secret, encode_utf8(COMBINE_INFO@))
}

fn combine(kem_secret: &[u8], x_secret: &[u8]) -> (r: [u8; 32])
    ensures
        r@ == combined(kem_secret@, x_secret@),
{
    let mut both = copy_bytes(kem_secret);
    push_bytes(&mut both, x_secret);
    hkdf32(both.as_slice(), COMBINE_INFO.as_bytes())
}

/// The key for a purpose.
pub open spec fn derived(shared: Seq<u8>, info: Seq<char>) -> Seq<u8> {
    hkdf_of(shared, encode_utf8(info))
}

fn derive(shared: &[u8; 32], info: &str) -> (r: [u8; 32])
    ensures
        r@ == derived(shared@, info@),
{
    hkdf32(shared.as_slice(), info.as_bytes())
}

/// What opening a ciphertext gives.
pub open spec fn opened(key: Seq<u8>, nonce: Seq<u8>, ciphertext: Seq<u8>) -> Result<Seq<u8>, PqError> {
    if nonce.len() != NONCE_LEN || ciphertext.len() > MAX_CIPHERTEXT {
        Err(PqError::InvalidEnvelope)
    } else {
        match aead_opened(key, nonce, ciphertext) {
            Some(p) => Ok(p),
            None => Err(PqError::Crypto),
        }
    }
}

fn aead_open(key: &[u8; 32], nonce: &[u8], ciphertext: &[u8]) -> (r: Result<Vec<u8>, PqError>)
    ensures
        match r {
            Ok(p) => opened(key@, nonce@, ciphertext@) == Ok::<Seq<u8>, PqError>(p@),
            Err(e) => opened(key@, nonce@, ciphertext@) == Err::<Seq<u8>, PqError>(e),
        },
{
    if nonce.len() != NONCE_LEN || ciphertext.len() > MAX_CIPHERTEXT {
        return Err(PqError::InvalidEnvelope);
    }
    match aead_decrypt(key, nonce, ciphertext) {
        Some(p) => Ok(p),
        None => Err(PqError::Crypto),
    }
}

/// The 32 bytes of a slice, as an array.
fn array32(a: &[u8]) -> (r: [u8; 32])
    requires
        a@.len() == 32,
    ensures
        r@ == a@,
{
    let mut out: [u8; 32] = [0u8; 32];
    let mut i: usize = 0;
    while i < 32
        invariant
            a@.len() == 32,
            i <= 32,
            forall|j: int| 0 <= j < i ==> out@[j] == a@[j],
        decreases 32 - i,
    {
        out[i] = a[i];
        i += 1;
    }
    assert(out@ =~= a@);
    out
}

/// A field: its length in four bytes, then its bytes.
pub open spec fn field(b: Seq<u8>) -> Seq<u8> {
    be32(b.len() as u32) + b
}

/// Appends a field.
fn push_field(out: &mut Vec<u8>, bytes: &[u8])
    requires
        bytes@.len() <= u32::MAX,
    ensures
        final(out)@ == old(out)@ + field(bytes@),
{
    push_be32(out, bytes.len() as u32);
    push_bytes(out, bytes);
    assert(out@ =~= old(out)@ + field(bytes@));
}

/// The field at a position, and the position after it.
#[verifier::opaque]
pub open spec fn field_at(buf: Seq<u8>, pos: int) -> Option<(Seq<u8>, int)> {
    if pos + 4 > buf.len() {
        None
    } else {
        let len = be32_value(buf.subrange(pos, pos + 4)) as int;
        if pos + 4 + len > buf.len() {
            None
        } else {
            Some((buf.subrange(pos + 4, pos + 4 + len), pos + 4 + len))
        }
    }
}

/// A position in stored bytes.
struct Reader<'a> {
    buf: &'a [u8],
    pos: usize,
}

impl<'a> Reader<'a> {
    fn new(buf: &'a [u8]) -> (r: Self)
        ensures
            r.buf == buf,
            r.pos == 0,
    {
        Reader { buf, pos: 0 }
    }

    fn u8(&mut self) -> (r: Result<u8, PqError>)
        requires
            old(self).pos <= old(self).buf@.len(),
        ensures
            final(self).buf == old(self).buf,
            match r {
                Ok(b) => old(self).pos < old(self).buf@.len() && b == old(self).buf@[old(self).pos as int]
                    && final(self).pos == old(self).pos + 1,
                Err(e) => old(self).pos == old(self).buf@.len() && e == PqError::InvalidKey && *final(self) == *old(self),
            },
            final(self).pos <= final(self).buf@.len(),
    {
        if self.pos >= self.buf.len() {
            return Err(PqError::InvalidKey);
        }
        let b: u8 = self.buf[self.pos];
        self.pos = self.pos + 1;
        Ok(b)
    }

    fn field(&mut self) -> (r: Result<Vec<u8>, PqError>)
        requires
            old(self).pos <= old(self).buf@.len(),
        ensures
            final(self).buf == old(self).buf,
            match r {
                Ok(f) => field_at(old(self).buf@, old(self).pos as int) == Some((f@, final(self).pos as int)),
                Err(e) => field_at(old(self).buf@, old(self).pos as int) is None && e == PqError::InvalidKey
                    && *final(self) == *old(self),
            },
            final(self).pos <= final(self).buf@.len(),
    {
        reveal(field_at);
        if self.buf.len() - self.pos < 4 {
            return Err(PqError::InvalidKey);
        }
        let len: usize = read_be32(self.buf, self.pos) as usize;
        let start: usize = self.pos + 4;
        if self.buf.len() - start < len {
            return Err(PqError::InvalidKey);
        }
        let f = slice_of(self.buf, start, start + len);
        self.pos = start + len;
        Ok(f)
    }
}

/// What a set of keys holds.
pub struct KeysView {
    /// The seed of the ML-KEM decapsulation key.
    pub kem_dk: Seq<u8>,
    pub kem_ek: Seq<u8>,
    pub x_secret: Seq<u8>,
    /// The seed of the ML-DSA signing key.
    pub sig_sk: Seq<u8>,
    pub sig_vk: Seq<u8>,
}

/// Whether every key has its form.
pub open spec fn sound_keys(k: KeysView) -> bool {
    &&& k.kem_dk.len() == MLKEM_SEED_LEN
    &&& k.kem_ek.len() == MLKEM_EK_LEN
    &&& mlkem_key(k.kem_ek)
    &&& k.x_secret.len() == X25519_LEN
    &&& k.sig_sk.len() == MLDSA_SEED_LEN
    &&& k.sig_vk.len() == MLDSA_VK_LEN
}

/// The stored form of a set of keys.
pub open spec fn stored_keys(k: KeysView) -> Seq<u8> {
    seq![ENVELOPE_VERSION] + field(k.kem_dk) + field(k.kem_ek) + field(k.x_secret) + field(k.sig_sk)
        + field(k.sig_vk)
}

/// The five fields after the version, if they are all there.
pub open spec fn stored_fields(b: Seq<u8>) -> Option<KeysView> {
    match field_at(b, 1) {
        Some((kem_dk, p1)) => match field_at(b, p1) {
            Some((kem_ek, p2)) => match field_at(b, p2) {
                Some((x_secret, p3)) => match field_at(b, p3) {
                    Some((sig_sk, p4)) => match field_at(b, p4) {
                        Some((sig_vk, _)) => Some(KeysView { kem_dk, kem_ek, x_secret, sig_sk, sig_vk }),
                        None => None,
                    },
                    None => None,
                },
                None => None,
            },
            None => None,
        },
        None => None,
    }
}

/// The keys that stored bytes hold, if they hold a sound set.
pub open spec fn keys_in(b: Seq<u8>) -> Option<KeysView> {
    if b.len() == 0 || b[0] != ENVELOPE_VERSION {
        None
    } else {
        match stored_fields(b) {
            Some(k) => if k.kem_dk.len() == MLKEM_SEED_LEN && mlkem_key(k.kem_ek) && k.x_secret.len()
                == X25519_LEN && k.sig_sk.len() == MLDSA_SEED_LEN && k.sig_vk.len() == MLDSA_VK_LEN {
                Some(k)
            } else {
                None
            },
            None => None,
        }
    }
}

/// A node's own keys.
pub struct PqKeys {
    kem_dk: Vec<u8>,
    kem_ek: Vec<u8>,
    x_secret: [u8; 32],
    sig_sk: Vec<u8>,
    sig_vk: Vec<u8>,
}

impl PqKeys {
    #[verifier::type_invariant]
    spec fn sound(&self) -> bool {
        sound_keys(self@)
    }

    pub closed spec fn view(&self) -> KeysView {
        KeysView {
            kem_dk: self.kem_dk@,
            kem_ek: self.kem_ek@,
            x_secret: self.x_secret@,
            sig_sk: self.sig_sk@,
            sig_vk: self.sig_vk@,
        }
    }

    /// New random keys; each public key belongs to its private one.
    pub fn generate() -> (r: Self)
        ensures
            sound_keys(r@),
            r@.kem_ek == mlkem_public(r@.kem_dk),
            r@.sig_vk == mldsa_public(r@.sig_sk),
    {
        let (kem_dk, kem_ek) = mlkem_generate();
        let (sig_sk, sig_vk) = mldsa_generate();
        let x_secret = x25519_generate();
        PqKeys { kem_dk, kem_ek, x_secret, sig_sk, sig_vk }
    }

    /// The stored form: a version, then each key with its length before it.
    pub fn to_bytes(&self) -> (r: Vec<u8>)
        ensures
            r@ == stored_keys(self@),
            keys_in(r@) == Some(self@),
    {
        proof {
            use_type_invariant(self);
            stored_keys_read_back(self@, Seq::empty());
            assert(stored_keys(self@) + Seq::<u8>::empty() =~= stored_keys(self@));
        }
        let mut out: Vec<u8> = Vec::new();
        out.push(ENVELOPE_VERSION);
        assert(out@ =~= seq![ENVELOPE_VERSION]);
        push_field(&mut out, self.kem_dk.as_slice());
        push_field(&mut out, self.kem_ek.as_slice());
        push_field(&mut out, self.x_secret.as_slice());
        push_field(&mut out, self.sig_sk.as_slice());
        push_field(&mut out, self.sig_vk.as_slice());
        out
    }

    /// Reads the stored form back.
    pub fn from_bytes(bytes: &[u8]) -> (r: Result<Self, PqError>)
        ensures
            match r {
                Ok(k) => keys_in(bytes@) == Some(k@) && sound_keys(k@),
                Err(e) => keys_in(bytes@) is None && e == PqError::InvalidKey,
            },
    {
        let mut reader = Reader::new(bytes);
        let version: u8 = match reader.u8() {
            Ok(v) => v,
            Err(e) => {
                return Err(e);
            },
        };
        if version != ENVELOPE_VERSION {
            return Err(PqError::InvalidKey);
        }
        let kem_dk = match reader.field() {
            Ok(f) => f,
            Err(e) => {
                return Err(e);
            },
        };
        let kem_ek = match reader.field() {
            Ok(f) => f,
            Err(e) => {
                return Err(e);
            },
        };
        let x_bytes = match reader.field() {
            Ok(f) => f,
            Err(e) => {
                return Err(e);
            },
        };
        let sig_sk = match reader.field() {
            Ok(f) => f,
            Err(e) => {
                return Err(e);
            },
        };
        let sig_vk = match reader.field() {
            Ok(f) => f,
            Err(e) => {
                return Err(e);
            },
        };
        if kem_dk.len() != MLKEM_SEED_LEN || !is_mlkem_key(kem_ek.as_slice()) {
            return Err(PqError::InvalidKey);
        }
        if x_bytes.len() != X25519_LEN || sig_sk.len() != MLDSA_SEED_LEN || sig_vk.len() != MLDSA_VK_LEN {
            return Err(PqError::InvalidKey);
        }
        let x_secret = array32(x_bytes.as_slice());
        Ok(PqKeys { kem_dk, kem_ek, x_secret, sig_sk, sig_vk })
    }
}

proof fn field_read_back(before: Seq<u8>, f: Seq<u8>, after: Seq<u8>)
    requires
        f.len() <= u32::MAX,
    ensures
        field_at(before + field(f) + after, before.len() as int) == Some(
            (f, (before.len() + 4 + f.len()) as int),
        ),
        field(f).len() == 4 + f.len(),
{
    reveal(field_at);
    let b = before + field(f) + after;
    be32_inverse(f.len() as u32);
    let pos = before.len() as int;
    assert(b.subrange(pos, pos + 4) =~= be32(f.len() as u32));
    assert(b.subrange(pos + 4, pos + 4 + f.len()) =~= f);
}

/// Two fields, one after the other, read back as they are, each with its length before it; then
/// nothing is left to read.
pub proof fn fields_read_back(a: Seq<u8>, b: Seq<u8>)
    requires
        a.len() <= u32::MAX,
        b.len() <= u32::MAX,
    ensures
        ({
            let out = field(a) + field(b);
            &&& out.len() == 8 + a.len() + b.len()
            &&& field_at(out, 0) == Some((a, 4 + a.len() as int))
            &&& field_at(out, 4 + a.len() as int) == Some((b, out.len() as int))
            &&& field_at(out, out.len() as int) is None
        }),
{
    let out = field(a) + field(b);
    let none = Seq::<u8>::empty();
    field_read_back(none, a, field(b));
    assert(none + field(a) + field(b) =~= out);
    field_read_back(field(a), b, none);
    assert(field(a) + field(b) + none =~= out);
    reveal(field_at);
}

proof fn concat_assoc(a: Seq<u8>, b: Seq<u8>, c: Seq<u8>)
    ensures
        a + b + c == a + (b + c),
{
    assert(a + b + c =~= a + (b + c));
}

/// Reading stored keys back gives the keys, whatever follows them.
pub proof fn stored_keys_read_back(k: KeysView, after: Seq<u8>)
    requires
        sound_keys(k),
    ensures
        keys_in(stored_keys(k) + after) == Some(k),
{
    let b = stored_keys(k) + after;
    let b1 = seq![ENVELOPE_VERSION];
    let b2 = b1 + field(k.kem_dk);
    let b3 = b2 + field(k.kem_ek);
    let b4 = b3 + field(k.x_secret);
    let b5 = b4 + field(k.sig_sk);
    let r5 = after;
    let r4 = field(k.sig_vk) + r5;
    let r3 = field(k.sig_sk) + r4;
    let r2 = field(k.x_secret) + r3;
    let r1 = field(k.kem_ek) + r2;
    concat_assoc(b5, field(k.sig_vk), r5);
    concat_assoc(b4, field(k.sig_sk), r4);
    concat_assoc(b3, field(k.x_secret), r3);
    concat_assoc(b2, field(k.kem_ek), r2);
    concat_assoc(b1, field(k.kem_dk), r1);
    assert(b == b5 + field(k.sig_vk) + r5);
    assert(b == b4 + field(k.sig_sk) + r4);
    assert(b == b3 + field(k.x_secret) + r3);
    assert(b == b2 + field(k.kem_ek) + r2);
    assert(b == b1 + field(k.kem_dk) + r1);
    field_read_back(b1, k.kem_dk, r1);
    field_read_back(b2, k.kem_ek, r2);
    field_read_back(b3, k.x_secret, r3);
    field_read_back(b4, k.sig_sk, r4);
    field_read_back(b5, k.sig_vk, r5);
    assert(b[0] == ENVELOPE_VERSION);
}

/// A peer's public keys, with the proof that binds them to the peer.
#[derive(Debug, Clone)]
pub struct PqIdentity {
    pub ed25519_pub: Vec<u8>,
    pub kem_pub: Vec<u8>,
    pub x25519_pub: Vec<u8>,
    pub sig_pub: Vec<u8>,
    pub proof_sig: Vec<u8>,
}

/// What an identity holds.
pub struct IdentityView {
    pub ed25519_pub: Seq<u8>,
    pub kem_pub: Seq<u8>,
    pub x25519_pub: Seq<u8>,
    pub sig_pub: Seq<u8>,
    pub proof_sig: Seq<u8>,
}

/// Whether the ed25519 key of an identity signed its public keys.
pub open spec fn proof_holds(id: IdentityView) -> bool {
    ed25519_signed(id.ed25519_pub, identity_data(id.kem_pub, id.x25519_pub, id.sig_pub), id.proof_sig)
}

/// Whether an identity is that of a peer, and its proof holds.
pub open spec fn identity_of_peer(id: IdentityView, peer: Seq<char>) -> bool {
    ed25519_key(id.ed25519_pub) && peer_of_key(id.ed25519_pub) == peer && proof_holds(id)
}

impl PqIdentity {
    pub open spec fn view(&self) -> IdentityView {
        IdentityView {
            ed25519_pub: self.ed25519_pub@,
            kem_pub: self.kem_pub@,
            x25519_pub: self.x25519_pub@,
            sig_pub: self.sig_pub@,
            proof_sig: self.proof_sig@,
        }
    }

    /// Checks that the keys are those of the expected peer.
    pub fn verify(&self, expected: &str) -> (r: Result<(), PqError>)
        ensures
            match r {
                Ok(_) => identity_of_peer(self@, expected@),
                Err(e) => !identity_of_peer(self@, expected@) && e == PqError::InvalidIdentity,
            },
    {
        let peer = match id_peer_id(self) {
            Ok(p) => p,
            Err(e) => {
                return Err(e);
            },
        };
        if !same_text(peer.as_str(), expected) {
            return Err(PqError::InvalidIdentity);
        }
        let data = identity_message(
            self.kem_pub.as_slice(),
            self.x25519_pub.as_slice(),
            self.sig_pub.as_slice(),
        );
        if !ed25519_verify(self.ed25519_pub.as_slice(), data.as_slice(), self.proof_sig.as_slice()) {
            return Err(PqError::InvalidIdentity);
        }
        Ok(())
    }
}

/// The peer id of an identity's ed25519 key.
fn id_peer_id(id: &PqIdentity) -> (r: Result<String, PqError>)
    ensures
        match r {
            Ok(p) => ed25519_key(id.ed25519_pub@) && p@ == peer_of_key(id.ed25519_pub@),
            Err(e) => !ed25519_key(id.ed25519_pub@) && e == PqError::InvalidIdentity,
        },
{
    match peer_id_of_key(id.ed25519_pub.as_slice()) {
        Some(p) => Ok(p),
        None => Err(PqError::InvalidIdentity),
    }
}

/// The identity that a node's keys make with its key pair.
pub open spec fn identity_made(k: KeysView, keypair: Seq<u8>) -> Result<IdentityView, PqError> {
    let x25519_pub = x25519_public_of(k.x_secret);
    match identity_signature(keypair, identity_data(k.kem_ek, x25519_pub, k.sig_vk)) {
        None => Err(PqError::Crypto),
        Some(proof_sig) => match identity_public(keypair) {
            None => Err(PqError::InvalidIdentity),
            Some(ed25519_pub) => Ok(
                IdentityView { ed25519_pub, kem_pub: k.kem_ek, x25519_pub, sig_pub: k.sig_vk, proof_sig },
            ),
        },
    }
}

impl PqKeys {
    /// The public identity, signed with the node's key pair (in its protobuf encoding). With an
    /// ed25519 key pair it is made, and it is that of the key pair's peer and of no other.
    pub fn identity(&self, id_keypair: &[u8]) -> (r: Result<PqIdentity, PqError>)
        ensures
            match r {
                Ok(id) => identity_made(self@, id_keypair@) == Ok::<IdentityView, PqError>(id@),
                Err(e) => identity_made(self@, id_keypair@) == Err::<IdentityView, PqError>(e),
            },
            identity_public(id_keypair@) is Some ==> r is Ok,
            r matches Ok(id) ==> identity_of_peer(id@, peer_of_key(id@.ed25519_pub)),
            r matches Ok(id) ==> forall|peer: Seq<char>| #[trigger]
                identity_of_peer(id@, peer) <==> peer == peer_of_key(identity_public(id_keypair@)->0),
    {
        let kem_pub = copy_bytes(self.kem_ek.as_slice());
        let x_pub = x25519_public(&self.x_secret);
        let x25519_pub = copy_bytes(x_pub.as_slice());
        let sig_pub = copy_bytes(self.sig_vk.as_slice());
        let data = identity_message(kem_pub.as_slice(), x25519_pub.as_slice(), sig_pub.as_slice());
        let proof_sig = match keypair_sign(id_keypair, data.as_slice()) {
            Some(s) => s,
            None => {
                return Err(PqError::Crypto);
            },
        };
        let ed25519_pub = match keypair_public(id_keypair) {
            Some(p) => p,
            None => {
                return Err(PqError::InvalidIdentity);
            },
        };
        Ok(PqIdentity { ed25519_pub, kem_pub, x25519_pub, sig_pub, proof_sig })
    }
}

/// An encrypted request, with the sender's identity and signature if it was signed.
#[derive(Debug, Clone)]
pub struct PqRequest {
    pub version: u8,
    /// The ML-KEM ciphertext, then the sender's X25519 public key for this request.
    pub kem: Vec<u8>,
    pub nonce: Vec<u8>,
    pub ciphertext: Vec<u8>,
    pub identity: Option<PqIdentity>,
    pub signature: Option<Vec<u8>>,
}

/// What an encrypted request holds.
pub struct RequestView {
    pub version: u8,
    pub kem: Seq<u8>,
    pub nonce: Seq<u8>,
    pub ciphertext: Seq<u8>,
    pub identity: Option<IdentityView>,
    pub signature: Option<Seq<u8>>,
}

impl PqRequest {
    pub open spec fn view(&self) -> RequestView {
        RequestView {
            version: self.version,
            kem: self.kem@,
            nonce: self.nonce@,
            ciphertext: self.ciphertext@,
            identity: match self.identity {
                Some(id) => Some(id@),
                None => None,
            },
            signature: optional_bytes_view(self.signature),
        }
    }
}

/// An encrypted response.
#[derive(Debug, Clone)]
pub struct PqResponse {
    pub nonce: Vec<u8>,
    pub ciphertext: Vec<u8>,
}

/// A request that was sealed, with the key that its response will have.
pub struct PqOutbound {
    pub request: PqRequest,
    pub res_key: [u8; 32],
}

impl PqOutbound {
    /// The key of the response.
    pub open spec fn response_key(&self) -> Seq<u8> {
        self.res_key@
    }

    /// Decrypts the response.
    pub fn open_response(&self, response: &PqResponse) -> (r: Result<Vec<u8>, PqError>)
        ensures
            match r {
                Ok(p) => opened(self.response_key(), response.nonce@, response.ciphertext@) == Ok::<
                    Seq<u8>,
                    PqError,
                >(p@),
                Err(e) => opened(self.response_key(), response.nonce@, response.ciphertext@) == Err::<
                    Seq<u8>,
                    PqError,
                >(e),
            },
    {
        aead_open(&self.res_key, response.nonce.as_slice(), response.ciphertext.as_slice())
    }
}

/// A request that was opened, with the key for its response.
pub struct PqInbound {
    pub plaintext: Vec<u8>,
    pub res_key: [u8; 32],
}

impl PqInbound {
    /// The key for the response.
    pub open spec fn response_key(&self) -> Seq<u8> {
        self.res_key@
    }

    /// Encrypts a response under a nonce.
    pub fn seal_response_with(&self, plaintext: &[u8], nonce: Vec<u8>) -> (r: Result<PqResponse, PqError>)
        requires
            nonce@.len() == NONCE_LEN,
        ensures
            match r {
                Ok(s) => s.nonce@ == nonce@ && aead_sealed(self.response_key(), nonce@, plaintext@) == s.ciphertext@
                    && (plaintext@.len() + 16 <= MAX_CIPHERTEXT ==> opened(
                    self.response_key(),
                    s.nonce@,
                    s.ciphertext@,
                ) == Ok::<Seq<u8>, PqError>(plaintext@)),
                Err(e) => e == PqError::Crypto,
            },
            r is Ok <==> aead_takes(plaintext@.len()),
    {
        if !is_aead_len(plaintext.len()) {
            return Err(PqError::Crypto);
        }
        let ciphertext = aead_encrypt(&self.res_key, nonce.as_slice(), plaintext);
        Ok(PqResponse { nonce, ciphertext })
    }

    /// Encrypts a response under a fresh nonce. Who holds the same key opens it to the plaintext,
    /// as long as the ciphertext is not too large.
    pub fn seal_response(&self, plaintext: &[u8]) -> (r: Result<PqResponse, PqError>)
        ensures
            match r {
                Ok(s) => s.nonce@.len() == NONCE_LEN && aead_sealed(
                    self.response_key(),
                    s.nonce@,
                    plaintext@,
                ) == s.ciphertext@ && (plaintext@.len() + 16 <= MAX_CIPHERTEXT ==> opened(
                    self.response_key(),
                    s.nonce@,
                    s.ciphertext@,
                ) == Ok::<Seq<u8>, PqError>(plaintext@)),
                Err(e) => e == PqError::Crypto,
            },
            r is Ok <==> aead_takes(plaintext@.len()),
    {
        let nonce = random_bytes(NONCE_LEN);
        self.seal_response_with(plaintext, nonce)
    }
}

/// What is wrong with the sender of a signed request.
pub open spec fn sender_fault(r: RequestView) -> Option<PqError> {
    match (r.identity, r.signature) {
        (Some(id), Some(sig)) => if !ed25519_key(id.ed25519_pub) || !proof_holds(id) {
            Some(PqError::InvalidIdentity)
        } else if id.sig_pub.len() != MLDSA_VK_LEN {
            Some(PqError::InvalidKey)
        } else if !mldsa_signed(id.sig_pub, request_data(r.kem, r.nonce, r.ciphertext), sig) {
            Some(PqError::InvalidIdentity)
        } else {
            None
        },
        _ => None,
    }
}

/// Whether an envelope has the right version and sizes.
pub open spec fn envelope_formed(r: RequestView) -> bool {
    &&& r.version == ENVELOPE_VERSION
    &&& r.kem.len() == MLKEM_CT_LEN + X25519_LEN
    &&& r.nonce.len() == NONCE_LEN
    &&& r.ciphertext.len() <= MAX_CIPHERTEXT
}

/// The secret that the receiver of a request gets.
pub open spec fn received_secret(k: KeysView, kem: Seq<u8>) -> Seq<u8> {
    combined(
        mlkem_decapsulated(k.kem_dk, kem.subrange(0, MLKEM_CT_LEN as int)),
        x25519_shared(k.x_secret, kem.subrange(MLKEM_CT_LEN as int, MLKEM_CT_LEN + X25519_LEN)),
    )
}

/// What opening a request gives: the plaintext and the key for the response, or why not.
pub open spec fn open_verdict(k: KeysView, r: RequestView) -> Result<(Seq<u8>, Seq<u8>), PqError> {
    if !envelope_formed(r) {
        Err(PqError::InvalidEnvelope)
    } else if sender_fault(r) is Some {
        Err(sender_fault(r)->0)
    } else {
        let shared = received_secret(k, r.kem);
        match aead_opened(derived(shared, REQ_INFO@), r.nonce, r.ciphertext) {
            Some(p) => Ok((p, derived(shared, RES_INFO@))),
            None => Err(PqError::Crypto),
        }
    }
}

/// Checks the sender of a signed request.
fn check_sender(request: &PqRequest) -> (r: Result<(), PqError>)
    ensures
        match r {
            Ok(_) => sender_fault(request@) is None,
            Err(e) => sender_fault(request@) == Some(e),
        },
{
    match (&request.identity, &request.signature) {
        (Some(id), Some(sig)) => {
            let peer = match id_peer_id(id) {
                Ok(p) => p,
                Err(e) => {
                    return Err(e);
                },
            };
            match id.verify(peer.as_str()) {
                Ok(_) => {},
                Err(e) => {
                    return Err(e);
                },
            }
            if id.sig_pub.len() != MLDSA_VK_LEN {
                return Err(PqError::InvalidKey);
            }
            let data = signed_message(
                request.kem.as_slice(),
                request.nonce.as_slice(),
                request.ciphertext.as_slice(),
            );
            if !mldsa_verify(id.sig_pub.as_slice(), data.as_slice(), sig.as_slice()) {
                return Err(PqError::InvalidIdentity);
            }
            Ok(())
        },
        _ => Ok(()),
    }
}

/// Opens a request with the receiver's keys.
pub fn open_request(keys: &PqKeys, request: &PqRequest) -> (r: Result<PqInbound, PqError>)
    ensures
        match r {
            Ok(i) => open_verdict(keys@, request@) == Ok::<(Seq<u8>, Seq<u8>), PqError>(
                (i.plaintext@, i.response_key()),
            ),
            Err(e) => open_verdict(keys@, request@) == Err::<(Seq<u8>, Seq<u8>), PqError>(e),
        },
{
    if request.version != ENVELOPE_VERSION || request.kem.len() != MLKEM_CT_LEN + X25519_LEN
        || request.nonce.len() != NONCE_LEN || request.ciphertext.len() > MAX_CIPHERTEXT {
        return Err(PqError::InvalidEnvelope);
    }
    match check_sender(request) {
        Ok(_) => {},
        Err(e) => {
            return Err(e);
        },
    }
    proof {
        use_type_invariant(keys);
    }
    let kem_ct = slice_of(request.kem.as_slice(), 0, MLKEM_CT_LEN);
    let x_bytes = slice_of(request.kem.as_slice(), MLKEM_CT_LEN, MLKEM_CT_LEN + X25519_LEN);
    let kem_secret = match mlkem_decapsulate(keys.kem_dk.as_slice(), kem_ct.as_slice()) {
        Some(s) => s,
        None => {
            return Err(PqError::InvalidEnvelope);
        },
    };
    let sender_key = array32(x_bytes.as_slice());
    let x_secret = x25519_agree(&keys.x_secret, &sender_key);
    let shared = combine(kem_secret.as_slice(), x_secret.as_slice());
    let req_key = derive(&shared, REQ_INFO);
    let res_key = derive(&shared, RES_INFO);
    match aead_open(&req_key, request.nonce.as_slice(), request.ciphertext.as_slice()) {
        Ok(plaintext) => Ok(PqInbound { plaintext, res_key }),
        Err(e) => Err(e),
    }
}

/// The random values that go into sealing one request.
pub struct SealingInputs {
    /// The ML-KEM ciphertext and its secret, for the receiver's key.
    pub kem_ct: Vec<u8>,
    pub kem_secret: Vec<u8>,
    /// The X25519 secret for this request.
    pub x_secret: [u8; 32],
    pub nonce: Vec<u8>,
}

/// What the random values are.
pub struct InputsView {
    pub kem_ct: Seq<u8>,
    pub kem_secret: Seq<u8>,
    pub x_secret: Seq<u8>,
    pub nonce: Seq<u8>,
}

impl SealingInputs {
    pub open spec fn view(&self) -> InputsView {
        InputsView {
            kem_ct: self.kem_ct@,
            kem_secret: self.kem_secret@,
            x_secret: self.x_secret@,
            nonce: self.nonce@,
        }
    }
}

/// The secret that the sender of a request has.
pub open spec fn sent_secret(recipient: IdentityView, inputs: InputsView) -> Seq<u8> {
    combined(inputs.kem_secret, x25519_shared(inputs.x_secret, recipient.x25519_pub))
}

/// What sealing a request gives for some random values: the request and the key of its response,
/// or why not.
pub open spec fn seal_verdict(
    k: KeysView,
    recipient: IdentityView,
    plaintext: Seq<u8>,
    sign: bool,
    keypair: Seq<u8>,
    inputs: InputsView,
) -> Result<(RequestView, Seq<u8>), PqError> {
    if recipient.x25519_pub.len() != X25519_LEN {
        Err(PqError::InvalidKey)
    } else if !aead_takes(plaintext.len()) {
        Err(PqError::Crypto)
    } else {
        let shared = sent_secret(recipient, inputs);
        let kem = inputs.kem_ct + x25519_public_of(inputs.x_secret);
        let res_key = derived(shared, RES_INFO@);
        let ciphertext = aead_sealed(derived(shared, REQ_INFO@), inputs.nonce, plaintext);
        let unsigned = RequestView {
            version: ENVELOPE_VERSION,
            kem,
            nonce: inputs.nonce,
            ciphertext,
            identity: None,
            signature: None,
        };
        if !sign {
            Ok((unsigned, res_key))
        } else {
            match identity_made(k, keypair) {
                Err(e) => Err(e),
                Ok(id) => match mldsa_signature(k.sig_sk, request_data(kem, inputs.nonce, ciphertext)) {
                    None => Err(PqError::Crypto),
                    Some(sig) => Ok(
                        (RequestView { identity: Some(id), signature: Some(sig), ..unsigned }, res_key),
                    ),
                },
            }
        }
    }
}

/// Whether a sealed request has its form: the version, the sizes of its parts, and the sender's
/// identity and signature exactly where it was signed.
pub open spec fn request_formed(r: RequestView, plaintext_len: nat, sign: bool) -> bool {
    &&& r.version == ENVELOPE_VERSION
    &&& r.kem.len() == MLKEM_CT_LEN + X25519_LEN
    &&& r.nonce.len() == NONCE_LEN
    &&& r.ciphertext.len() == plaintext_len + 16
    &&& r.identity is Some == sign
    &&& r.signature is Some == sign
}

/// Whether a receiver's keys are those that a request was sealed for: its X25519 key is the one in
/// the identity, and its ML-KEM key gets the secret that the sender has.
pub open spec fn sealed_for(receiver: KeysView, recipient: IdentityView, inputs: InputsView) -> bool {
    &&& receiver.x_secret.len() == X25519_LEN
    &&& recipient.x25519_pub == x25519_public_of(receiver.x_secret)
    &&& mlkem_decapsulated(receiver.kem_dk, inputs.kem_ct) == inputs.kem_secret
}

/// Seals a request with the given random values. The receiver that it is sealed for opens it to
/// the plaintext, and both have the same key for the response.
pub fn seal_request_with(
    keys: &PqKeys,
    recipient: &PqIdentity,
    plaintext: &[u8],
    sign: bool,
    id_keypair: &[u8],
    inputs: SealingInputs,
) -> (r: Result<PqOutbound, PqError>)
    requires
        inputs.kem_ct@.len() == MLKEM_CT_LEN,
        inputs.nonce@.len() == NONCE_LEN,
    ensures
        match r {
            Ok(o) => seal_verdict(keys@, recipient@, plaintext@, sign, id_keypair@, inputs@) == Ok::<
                (RequestView, Seq<u8>),
                PqError,
            >((o.request@, o.response_key())),
            Err(e) => seal_verdict(keys@, recipient@, plaintext@, sign, id_keypair@, inputs@) == Err::<
                (RequestView, Seq<u8>),
                PqError,
            >(e),
        },
        recipient@.x25519_pub.len() == X25519_LEN && aead_takes(plaintext@.len()) && !sign ==> r is Ok,
        r matches Ok(o) ==> request_formed(o.request@, plaintext@.len(), sign),
        r matches Ok(o) ==> forall|receiver: KeysView|
            sealed_for(receiver, recipient@, inputs@) && plaintext@.len() + 16 <= MAX_CIPHERTEXT && (sign
                ==> keys@.sig_vk == mldsa_public(keys@.sig_sk)) ==> #[trigger] open_verdict(
                receiver,
                o.request@,
            ) == Ok::<(Seq<u8>, Seq<u8>), PqError>((plaintext@, o.response_key())),
{
    if recipient.x25519_pub.len() != X25519_LEN {
        return Err(PqError::InvalidKey);
    }
    if !is_aead_len(plaintext.len()) {
        return Err(PqError::Crypto);
    }
    let recipient_key = array32(recipient.x25519_pub.as_slice());
    let x_public = x25519_public(&inputs.x_secret);
    let x_secret = x25519_agree(&inputs.x_secret, &recipient_key);
    let shared = combine(inputs.kem_secret.as_slice(), x_secret.as_slice());
    let req_key = derive(&shared, REQ_INFO);
    let res_key = derive(&shared, RES_INFO);
    let ciphertext = aead_encrypt(&req_key, inputs.nonce.as_slice(), plaintext);
    let mut kem = copy_bytes(inputs.kem_ct.as_slice());
    push_bytes(&mut kem, x_public.as_slice());
    proof {
        use_type_invariant(keys);
        assert(kem@.subrange(0, MLKEM_CT_LEN as int) =~= inputs.kem_ct@);
        assert(kem@.subrange(MLKEM_CT_LEN as int, MLKEM_CT_LEN + X25519_LEN) =~= x_public@);
    }
    let (identity, signature) = if sign {
        let id = match keys.identity(id_keypair) {
            Ok(id) => id,
            Err(e) => {
                return Err(e);
            },
        };
        let data = signed_message(kem.as_slice(), inputs.nonce.as_slice(), ciphertext.as_slice());
        match mldsa_sign(keys.sig_sk.as_slice(), data.as_slice()) {
            Some(sig) => (Some(id), Some(sig)),
            None => {
                return Err(PqError::Crypto);
            },
        }
    } else {
        (None, None)
    };
    Ok(
        PqOutbound {
            request: PqRequest {
                version: ENVELOPE_VERSION,
                kem,
                nonce: inputs.nonce,
                ciphertext,
                identity,
                signature,
            },
            res_key,
        },
    )
}

/// Seals a request for a recipient, with fresh random values; `sign` adds the sender's identity
/// and signature.
pub fn seal_request(
    keys: &PqKeys,
    recipient: &PqIdentity,
    plaintext: &[u8],
    sign: bool,
    id_keypair: &[u8],
) -> (r: Result<PqOutbound, PqError>)
    ensures
        !mlkem_key(recipient@.kem_pub) ==> (r matches Err(e) && e == PqError::InvalidKey),
        mlkem_key(recipient@.kem_pub) ==> exists|inputs: InputsView, random: Seq<u8>|
            sealed_as(keys@, recipient@, plaintext@, sign, id_keypair@, inputs, random, r),
        mlkem_key(recipient@.kem_pub) && recipient@.x25519_pub.len() == X25519_LEN && aead_takes(
            plaintext@.len(),
        ) && !sign ==> r is Ok,
        r matches Ok(o) ==> request_formed(o.request@, plaintext@.len(), sign),
{
    let e = match mlkem_encapsulate(recipient.kem_pub.as_slice()) {
        Some(e) => e,
        None => {
            return Err(PqError::InvalidKey);
        },
    };
    let inputs = SealingInputs {
        kem_ct: e.ciphertext,
        kem_secret: e.secret,
        x_secret: x25519_generate(),
        nonce: random_bytes(NONCE_LEN),
    };
    let ghost iv = inputs@;
    let ghost random = choose|random: Seq<u8>|
        random.len() == 32 && (iv.kem_ct, iv.kem_secret) == #[trigger] mlkem_encapsulated(
            recipient@.kem_pub,
            random,
        );
    let r = seal_request_with(keys, recipient, plaintext, sign, id_keypair, inputs);
    assert(sealed_as(keys@, recipient@, plaintext@, sign, id_keypair@, iv, random, r));
    r
}

/// Whether a result is that of sealing with some random values, whose ML-KEM part comes from
/// encapsulating to the recipient's key; and whether the receiver that it is sealed for opens it.
pub open spec fn sealed_as(
    k: KeysView,
    recipient: IdentityView,
    plaintext: Seq<u8>,
    sign: bool,
    keypair: Seq<u8>,
    inputs: InputsView,
    random: Seq<u8>,
    r: Result<PqOutbound, PqError>,
) -> bool {
    &&& inputs.kem_ct.len() == MLKEM_CT_LEN
    &&& inputs.x_secret.len() == X25519_LEN
    &&& inputs.nonce.len() == NONCE_LEN
    &&& random.len() == 32
    &&& (inputs.kem_ct, inputs.kem_secret) == mlkem_encapsulated(recipient.kem_pub, random)
    &&& match r {
        Ok(o) => seal_verdict(k, recipient, plaintext, sign, keypair, inputs) == Ok::<
            (RequestView, Seq<u8>),
            PqError,
        >((o.request@, o.response_key())),
        Err(e) => seal_verdict(k, recipient, plaintext, sign, keypair, inputs) == Err::<
            (RequestView, Seq<u8>),
            PqError,
        >(e),
    }
    &&& r matches Ok(o) ==> forall|receiver: KeysView|
        sealed_for(receiver, recipient, inputs) && plaintext.len() + 16 <= MAX_CIPHERTEXT && (sign
            ==> k.sig_vk == mldsa_public(k.sig_sk)) ==> #[trigger] open_verdict(receiver, o.request@)
            == Ok::<(Seq<u8>, Seq<u8>), PqError>((plaintext, o.response_key()))
}

/// Every response that the receiver seals after opening a request opens, for its sender, to what was
/// sealed: the request was sealed for the receiver (as `seal_request` says for the receivers that it
/// is sealed for), it was opened, and a response was sealed.
pub proof fn response_reaches_the_sender(
    receiver: KeysView,
    sent: PqOutbound,
    request: Seq<u8>,
    received: PqInbound,
    response: PqResponse,
    plaintext: Seq<u8>,
)
    requires
        open_verdict(receiver, sent.request@) == Ok::<(Seq<u8>, Seq<u8>), PqError>((request, sent.response_key())),
        open_verdict(receiver, sent.request@) == Ok::<(Seq<u8>, Seq<u8>), PqError>(
            (received.plaintext@, received.response_key()),
        ),
        opened(received.response_key(), response.nonce@, response.ciphertext@) == Ok::<Seq<u8>, PqError>(plaintext),
    ensures
        received.plaintext@ == request,
        opened(sent.response_key(), response.nonce@, response.ciphertext@) == Ok::<Seq<u8>, PqError>(plaintext),
{
}

/// A request that was changed in its size, version or nonce length is refused before any key is
/// used, and so is one whose signature does not belong to its bytes.
pub proof fn malformed_request_is_refused(k: KeysView, r: RequestView)
    ensures
        !envelope_formed(r) ==> open_verdict(k, r) == Err::<(Seq<u8>, Seq<u8>), PqError>(
            PqError::InvalidEnvelope,
        ),
        envelope_formed(r) && sender_fault(r) is Some ==> open_verdict(k, r) is Err,
{
}

/// The signed bytes and the keys of each purpose are told apart by these texts.
pub proof fn purposes_have_their_texts(a: Seq<u8>, b: Seq<u8>, c: Seq<u8>, info: Seq<char>)
    ensures
        identity_data(a, b, c) == encode_utf8("oahd/pq/identity/v1"@) + a + b + c,
        request_data(a, b, c) == encode_utf8("oahd/pq/request/v1"@) + a + b + c,
        combined(a, b) == hkdf_of(a + b, encode_utf8("oahd/pq/combine/v1"@)),
        derived(a, info) == hkdf_of(a, encode_utf8(info)),
        REQ_INFO@ == "oahd/pq/req/v1"@,
        RES_INFO@ == "oahd/pq/res/v1"@,
        SERVICE_REQ_PQ_PROTOCOL@ == "/oahd/service_req/2.0.0"@,
        PQ_IDENTITY_PROTOCOL@ == "/oahd/pq_identity/1.0.0"@,
{
}

/// A ciphertext of at most a mebibyte under a nonce of twelve bytes opens to what was sealed under the
/// key, if anything was; any other is refused for its form.
pub proof fn only_what_was_sealed_opens(key: Seq<u8>, nonce: Seq<u8>, ciphertext: Seq<u8>)
    ensures
        nonce.len() != 12 || ciphertext.len() > 1_048_576 ==> opened(key, nonce, ciphertext) == Err::<Seq<u8>, PqError>(
            PqError::InvalidEnvelope,
        ),
        nonce.len() == 12 && ciphertext.len() <= 1_048_576 ==> opened(key, nonce, ciphertext) == (match aead_opened(
            key,
            nonce,
            ciphertext,
        ) {
            Some(p) => Ok(p),
            None => Err(PqError::Crypto),
        }),
{
}

/// Which requests open: those of version 1, with an ML-KEM ciphertext and an X25519 key, a nonce of
/// twelve bytes and at most a mebibyte of ciphertext, whose sender, if they are signed, is sound, and
/// whose ciphertext was sealed under the key that both key agreements give. They open to what was
/// sealed, and the key of the response comes from the same secret.
pub proof fn sound_requests_open(k: KeysView, r: RequestView, plaintext: Seq<u8>, res_key: Seq<u8>)
    ensures
        open_verdict(k, r) == Ok::<(Seq<u8>, Seq<u8>), PqError>((plaintext, res_key)) <==> {
            let secret = hkdf_of(
                mlkem_decapsulated(k.kem_dk, r.kem.subrange(0, 1088)) + x25519_shared(k.x_secret, r.kem.subrange(1088, 1120)),
                encode_utf8("oahd/pq/combine/v1"@),
            );
            &&& r.version == 1
            &&& r.kem.len() == 1120
            &&& r.nonce.len() == 12
            &&& r.ciphertext.len() <= 1_048_576
            &&& sender_fault(r) is None
            &&& aead_opened(hkdf_of(secret, encode_utf8("oahd/pq/req/v1"@)), r.nonce, r.ciphertext) == Some(plaintext)
            &&& res_key == hkdf_of(secret, encode_utf8("oahd/pq/res/v1"@))
        },
        r.version == 1 && r.kem.len() == 1120 && r.nonce.len() == 12 && r.ciphertext.len() <= 1_048_576 ==> (sender_fault(
            r,
        ) matches Some(e) ==> open_verdict(k, r) == Err::<(Seq<u8>, Seq<u8>), PqError>(e)),
        r.version == 1 && r.kem.len() == 1120 && r.nonce.len() == 12 && r.ciphertext.len() <= 1_048_576 && sender_fault(
            r,
        ) is None ==> (open_verdict(k, r) matches Err(e) ==> e == PqError::Crypto),
        r.version != 1 || r.kem.len() != 1120 || r.nonce.len() != 12 || r.ciphertext.len() > 1_048_576 ==> open_verdict(k, r)
            == Err::<(Seq<u8>, Seq<u8>), PqError>(PqError::InvalidEnvelope),
{
}

/// A request without a signature or without an identity says nothing of its sender. The sender of any
/// other is sound exactly when the identity's ed25519 key signed its public keys and its ML-DSA key
/// signed the request.
pub proof fn signed_requests_name_their_sender(r: RequestView)
    ensures
        r.identity is None || r.signature is None ==> sender_fault(r) is None,
        r.identity is Some && r.signature is Some ==> {
            let id = r.identity->0;
            let bound = ed25519_key(id.ed25519_pub) && ed25519_signed(
                id.ed25519_pub,
                encode_utf8("oahd/pq/identity/v1"@) + id.kem_pub + id.x25519_pub + id.sig_pub,
                id.proof_sig,
            );
            let signed = mldsa_signed(
                id.sig_pub,
                encode_utf8("oahd/pq/request/v1"@) + r.kem + r.nonce + r.ciphertext,
                r.signature->0,
            );
            &&& sender_fault(r) is None <==> bound && id.sig_pub.len() == 1952 && signed
            &&& !bound ==> sender_fault(r) == Some(PqError::InvalidIdentity)
            &&& bound && id.sig_pub.len() != 1952 ==> sender_fault(r) == Some(PqError::InvalidKey)
            &&& bound && id.sig_pub.len() == 1952 && !signed ==> sender_fault(r) == Some(PqError::InvalidIdentity)
        },
{
}

/// An identity is that of a peer exactly when its ed25519 key is the peer's, and that key signed the
/// three public keys.
pub proof fn identities_are_signed(id: IdentityView, peer: Seq<char>)
    ensures
        identity_of_peer(id, peer) <==> ed25519_key(id.ed25519_pub) && peer_of_key(id.ed25519_pub) == peer && ed25519_signed(
            id.ed25519_pub,
            encode_utf8("oahd/pq/identity/v1"@) + id.kem_pub + id.x25519_pub + id.sig_pub,
            id.proof_sig,
        ),
{
}

/// The identity of a node has the public keys of its keys, signed with its key pair.
pub proof fn identity_has_the_public_keys(k: KeysView, keypair: Seq<u8>)
    ensures
        identity_made(k, keypair) matches Ok(id) ==> id.kem_pub == k.kem_ek && id.x25519_pub == x25519_public_of(k.x_secret)
            && id.sig_pub == k.sig_vk && identity_public(keypair) == Some(id.ed25519_pub) && identity_signature(
            keypair,
            encode_utf8("oahd/pq/identity/v1"@) + k.kem_ek + x25519_public_of(k.x_secret) + k.sig_vk,
        ) == Some(id.proof_sig),
        identity_made(k, keypair) matches Err(e) ==> e == (if identity_signature(
            keypair,
            encode_utf8("oahd/pq/identity/v1"@) + k.kem_ek + x25519_public_of(k.x_secret) + k.sig_vk,
        ) is None {
            PqError::Crypto
        } else {
            PqError::InvalidIdentity
        }),
        identity_made(k, keypair) is Ok <==> identity_public(keypair) is Some && identity_signature(
            keypair,
            encode_utf8("oahd/pq/identity/v1"@) + k.kem_ek + x25519_public_of(k.x_secret) + k.sig_vk,
        ) is Some,
{
}

/// What a sealed request holds: the ML-KEM ciphertext and the X25519 key for this request, the nonce,
/// and the plaintext sealed under the key of requests; the sender's identity and signature where it is
/// signed. The key of the response comes from the same secret.
pub proof fn requests_are_sealed_for_the_recipient(
    k: KeysView,
    recipient: IdentityView,
    plaintext: Seq<u8>,
    sign: bool,
    keypair: Seq<u8>,
    inputs: InputsView,
)
    ensures
        ({
            let secret = hkdf_of(
                inputs.kem_secret + x25519_shared(inputs.x_secret, recipient.x25519_pub),
                encode_utf8("oahd/pq/combine/v1"@),
            );
            let verdict = seal_verdict(k, recipient, plaintext, sign, keypair, inputs);
            &&& verdict matches Ok((r, key)) ==> {
                &&& r.version == 1
                &&& r.kem == inputs.kem_ct + x25519_public_of(inputs.x_secret)
                &&& r.nonce == inputs.nonce
                &&& r.ciphertext == aead_sealed(hkdf_of(secret, encode_utf8("oahd/pq/req/v1"@)), inputs.nonce, plaintext)
                &&& key == hkdf_of(secret, encode_utf8("oahd/pq/res/v1"@))
                &&& !sign ==> r.identity is None && r.signature is None
                &&& sign ==> r.identity is Some && identity_made(k, keypair) == Ok::<IdentityView, PqError>(r.identity->0)
                &&& sign ==> r.signature is Some && mldsa_signature(
                    k.sig_sk,
                    encode_utf8("oahd/pq/request/v1"@) + r.kem + r.nonce + r.ciphertext,
                ) == r.signature
            }
            &&& recipient.x25519_pub.len() != 32 ==> verdict == Err::<(RequestView, Seq<u8>), PqError>(PqError::InvalidKey)
            &&& recipient.x25519_pub.len() == 32 && !aead_takes(plaintext.len()) ==> verdict == Err::<
                (RequestView, Seq<u8>),
                PqError,
            >(PqError::Crypto)
            &&& recipient.x25519_pub.len() == 32 && aead_takes(plaintext.len()) && !sign ==> verdict is Ok
            &&& recipient.x25519_pub.len() == 32 && aead_takes(plaintext.len()) && sign && identity_made(k, keypair) is Ok
                && mldsa_signature(
                k.sig_sk,
                encode_utf8("oahd/pq/request/v1"@) + (inputs.kem_ct + x25519_public_of(inputs.x_secret)) + inputs.nonce
                    + aead_sealed(hkdf_of(secret, encode_utf8("oahd/pq/req/v1"@)), inputs.nonce, plaintext),
            ) is Some ==> verdict is Ok
        }),
{
}

/// The stored form of keys: the version 1, then each key with its length before it, in this order.
pub proof fn keys_are_stored_in_order(k: KeysView)
    ensures
        stored_keys(k) == seq![1u8] + field(k.kem_dk) + field(k.kem_ek) + field(k.x_secret) + field(k.sig_sk) + field(k.sig_vk),
        field(k.kem_dk) == be32(k.kem_dk.len() as u32) + k.kem_dk,
{
}

/// Stored bytes hold keys exactly when they have the version 1 and five keys of the right form.
pub proof fn stored_keys_are_sound(b: Seq<u8>, k: KeysView)
    ensures
        keys_in(b) == Some(k) <==> b.len() > 0 && b[0] == 1 && stored_fields(b) == Some(k) && k.kem_dk.len() == 64 && mlkem_key(
            k.kem_ek,
        ) && k.x_secret.len() == 32 && k.sig_sk.len() == 32 && k.sig_vk.len() == 1952,
        sound_keys(k) <==> k.kem_dk.len() == 64 && k.kem_ek.len() == 1184 && mlkem_key(k.kem_ek) && k.x_secret.len() == 32
            && k.sig_sk.len() == 32 && k.sig_vk.len() == 1952,
{
}

/// A field is read where its length and all of its bytes are there, and the next one starts after it.
pub proof fn fields_follow_each_other(buf: Seq<u8>, pos: int, f: Seq<u8>, next: int)
    requires
        0 <= pos,
    ensures
        field_at(buf, pos) == Some((f, next)) <==> pos + 4 <= buf.len() && next == pos + 4 + be32_value(
            buf.subrange(pos, pos + 4),
        ) && next <= buf.len() && f == buf.subrange(pos + 4, next),
        ({
            let f1 = field_at(buf, 1);
            let f2 = field_at(buf, (f1->0).1);
            let f3 = field_at(buf, (f2->0).1);
            let f4 = field_at(buf, (f3->0).1);
            let f5 = field_at(buf, (f4->0).1);
            &&& stored_fields(buf) is Some <==> f1 is Some && f2 is Some && f3 is Some && f4 is Some && f5 is Some
            &&& stored_fields(buf) matches Some(k) ==> k.kem_dk == (f1->0).0 && k.kem_ek == (f2->0).0 && k.x_secret == (f3->0).0
                && k.sig_sk == (f4->0).0 && k.sig_vk == (f5->0).0
        }),
{
    reveal(field_at);
}

/// A sealed request has its form; and whose keys it is sealed for.
pub proof fn sealed_forms(r: RequestView, n: nat, sign: bool, receiver: KeysView, recipient: IdentityView, inputs: InputsView)
    ensures
        request_formed(r, n, sign) <==> r.version == 1 && r.kem.len() == 1120 && r.nonce.len() == 12 && r.ciphertext.len() == n
            + 16 && r.identity is Some == sign && r.signature is Some == sign,
        sealed_for(receiver, recipient, inputs) <==> receiver.x_secret.len() == 32 && recipient.x25519_pub == x25519_public_of(
            receiver.x_secret,
        ) && mlkem_decapsulated(receiver.kem_dk, inputs.kem_ct) == inputs.kem_secret,
{
}

/// What the errors say.
pub proof fn pq_errors_say_why()
    ensures
        pq_error_text(PqError::InvalidIdentity) == "pq identity proof invalid"@,
        pq_error_text(PqError::InvalidKey) == "pq key material invalid"@,
        pq_error_text(PqError::InvalidEnvelope) == "pq envelope malformed"@,
        pq_error_text(PqError::Crypto) == "pq crypto failure"@,
{
}

/// What a sealed request comes from: random values of their sizes, of which the ML-KEM part is an
/// encapsulation to the recipient's key. Whoever it is sealed for opens it to the plaintext.
pub proof fn sealing_encapsulates_to_the_recipient(
    k: KeysView,
    recipient: IdentityView,
    plaintext: Seq<u8>,
    sign: bool,
    keypair: Seq<u8>,
    inputs: InputsView,
    random: Seq<u8>,
    r: Result<PqOutbound, PqError>,
    receiver: KeysView,
)
    requires
        sealed_as(k, recipient, plaintext, sign, keypair, inputs, random, r),
    ensures
        inputs.kem_ct.len() == 1088 && inputs.x_secret.len() == 32 && inputs.nonce.len() == 12 && random.len() == 32,
        (inputs.kem_ct, inputs.kem_secret) == mlkem_encapsulated(recipient.kem_pub, random),
        r matches Ok(o) ==> seal_verdict(k, recipient, plaintext, sign, keypair, inputs) == Ok::<
            (RequestView, Seq<u8>),
            PqError,
        >((o.request@, o.res_key@)),
        r matches Err(e) ==> seal_verdict(k, recipient, plaintext, sign, keypair, inputs) == Err::<
            (RequestView, Seq<u8>),
            PqError,
        >(e),
        r matches Ok(o) ==> (sealed_for(receiver, recipient, inputs) && plaintext.len() + 16 <= 1_048_576 && (sign ==> k.sig_vk
            == mldsa_public(k.sig_sk)) ==> open_verdict(receiver, o.request@) == Ok::<(Seq<u8>, Seq<u8>), PqError>(
            (plaintext, o.res_key@),
        )),
{
}

/// What keys, identities, requests and random values say is what their fields hold.
pub proof fn parts_say_their_fields(k: PqKeys, id: PqIdentity, r: PqRequest, s: SealingInputs, sent: PqOutbound, received: PqInbound)
    ensures
        id@.ed25519_pub == id.ed25519_pub@ && id@.kem_pub == id.kem_pub@ && id@.x25519_pub == id.x25519_pub@ && id@.sig_pub
            == id.sig_pub@ && id@.proof_sig == id.proof_sig@,
        r@.version == r.version && r@.kem == r.kem@ && r@.nonce == r.nonce@ && r@.ciphertext == r.ciphertext@,
        r.identity matches Some(i) ==> r@.identity == Some(i@),
        r.identity is None ==> r@.identity is None,
        r.signature matches Some(b) ==> r@.signature == Some(b@),
        r.signature is None ==> r@.signature is None,
        s@.kem_ct == s.kem_ct@ && s@.kem_secret == s.kem_secret@ && s@.x_secret == s.x_secret@ && s@.nonce == s.nonce@,
        sent.response_key() == sent.res_key@,
        received.response_key() == received.res_key@,
{
}

} // verus!
