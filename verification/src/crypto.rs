//! Hashes, text encodings, signatures and the signed envelope, as plain bytes.

use crate::bytes::optional_bytes_view;
use crate::cbor::{cbor_decoding, decode_item, element_views, member_views, record_view, Cbor, Item};
use vstd::prelude::*;
use coset::iana::EnumI64;
use coset::CborSerializable;
use base64::Engine;
use sha2::Digest;

verus! {

/// The SHA-256 digest of some bytes.
pub uninterp spec fn sha256_of(data: Seq<u8>) -> Seq<u8>;

/// `sha2::Sha256::digest`: the digest depends on the bytes alone and has 32 bytes.
#[verifier::external_body]
pub(crate) fn sha256(data: &[u8]) -> (r: Vec<u8>)
    ensures
        r@ == sha256_of(data@),
        r@.len() == 32,
{
    sha2::Sha256::digest(data).to_vec()
}

/// The URL-safe base64 text of some bytes, without padding.
pub uninterp spec fn base64url_of(data: Seq<u8>) -> Seq<char>;

/// Whether a character is a letter or digit of ASCII, `_` or `-`.
pub open spec fn name_char(c: char) -> bool {
    ('a' <= c <= 'z') || ('A' <= c <= 'Z') || ('0' <= c <= '9') || c == '_' || c == '-'
}

/// `base64::engine::general_purpose::URL_SAFE_NO_PAD.encode`: the text depends on the bytes
/// alone, has four characters for three bytes and as many as needed for what is left, and every
/// character of it is a letter, a digit, `_` or `-`.
#[verifier::external_body]
pub(crate) fn base64url(data: &[u8]) -> (r: String)
    ensures
        r@ == base64url_of(data@),
        r@.len() == (data@.len() * 4 + 2) / 3,
        forall|i: int| 0 <= i < r@.len() ==> name_char(#[trigger] r@[i]),
{
    base64::engine::general_purpose::URL_SAFE_NO_PAD.encode(data)
}

/// The bytes that a standard base64 text stands for, or the text of the error that refuses it.
pub uninterp spec fn base64_decoding(text: Seq<char>) -> Result<Seq<u8>, Seq<char>>;

/// `base64::engine::general_purpose::STANDARD.decode`: bytes or refusal depend on the text alone.
#[verifier::external_body]
pub(crate) fn base64_decode(text: &str) -> (r: Result<Vec<u8>, String>)
    ensures
        match r {
            Ok(b) => base64_decoding(text@) == Ok::<Seq<u8>, Seq<char>>(b@),
            Err(e) => base64_decoding(text@) == Err::<Seq<u8>, Seq<char>>(e@),
        },
{
    base64::engine::general_purpose::STANDARD.decode(text).map_err(|e| e.to_string())
}

/// The standard base64 text of some bytes.
pub uninterp spec fn base64_of(data: Seq<u8>) -> Seq<char>;

/// `base64::engine::general_purpose::STANDARD.encode`: the text depends on the bytes alone, and
/// decoding it gives the bytes back.
#[verifier::external_body]
pub(crate) fn base64_encode(data: &[u8]) -> (r: String)
    ensures
        r@ == base64_of(data@),
        base64_decoding(r@) is Ok,
        base64_decoding(r@)->Ok_0 == data@,
{
    base64::engine::general_purpose::STANDARD.encode(data)
}

/// Whether some bytes are an ed25519 public key.
pub uninterp spec fn ed25519_key(bytes: Seq<u8>) -> bool;

/// `libp2p::identity::ed25519::PublicKey::try_from_bytes`: whether it takes the bytes. It takes
/// none but 32 bytes, and the key that it makes has those bytes.
#[verifier::external_body]
pub(crate) fn is_ed25519_key(bytes: &[u8]) -> (r: bool)
    ensures
        r == ed25519_key(bytes@),
        r ==> bytes@.len() == 32,
{
    libp2p::identity::ed25519::PublicKey::try_from_bytes(bytes).is_ok()
}

/// Whether `sig` is a signature of the ed25519 key `key` on `data`.
pub uninterp spec fn ed25519_signed(key: Seq<u8>, data: Seq<u8>, sig: Seq<u8>) -> bool;

/// `libp2p::identity::ed25519::PublicKey::verify` with the key of the given bytes; false where
/// the bytes are no key.
#[verifier::external_body]
pub(crate) fn ed25519_verify(key: &[u8], data: &[u8], sig: &[u8]) -> (r: bool)
    ensures
        r == ed25519_signed(key@, data@, sig@),
        r ==> ed25519_key(key@),
{
    libp2p::identity::ed25519::PublicKey::try_from_bytes(key).is_ok_and(|k| k.verify(data, sig))
}

/// The bytes of the ed25519 public key of a node's key pair, given in its protobuf encoding.
pub uninterp spec fn identity_public(keypair: Seq<u8>) -> Option<Seq<u8>>;

/// `libp2p::identity::Keypair::public` on a key pair in its protobuf encoding, as the bytes of
/// an ed25519 key; nothing where the bytes are no key pair or the key is of another kind. What
/// it gives is a public key.
#[verifier::external_body]
pub(crate) fn keypair_public(keypair: &[u8]) -> (r: Option<Vec<u8>>)
    ensures
        optional_bytes_view(r) == identity_public(keypair@),
        r is Some ==> ed25519_key(r->0@),
        r is Some ==> r->0@.len() == 32,
{
    let keypair = libp2p::identity::Keypair::from_protobuf_encoding(keypair).ok()?;
    let key = keypair.public().try_into_ed25519().ok()?;
    Some(key.to_bytes().to_vec())
}

/// The signature of a key pair, in its protobuf encoding, on some bytes.
pub uninterp spec fn identity_signature(keypair: Seq<u8>, data: Seq<u8>) -> Option<Seq<u8>>;

/// `libp2p::identity::Keypair::sign` with a key pair in its protobuf encoding; nothing where the
/// bytes are no key pair or signing fails. A pair with an ed25519 key always signs, the same bytes
/// in the same way, and its public key accepts the signature.
#[verifier::external_body]
pub(crate) fn keypair_sign(keypair: &[u8], data: &[u8]) -> (r: Option<Vec<u8>>)
    ensures
        optional_bytes_view(r) == identity_signature(keypair@, data@),
        identity_public(keypair@) is Some ==> r is Some,
        identity_public(keypair@) is Some ==> ed25519_signed(
            identity_public(keypair@)->0,
            data@,
            r->0@,
        ),
{
    let keypair = libp2p::identity::Keypair::from_protobuf_encoding(keypair).ok()?;
    keypair.sign(data).ok()
}

/// The parts of a COSE_Sign1 envelope.
pub struct Envelope {
    /// The algorithm that the protected header names, where it names a registered one.
    pub alg: Option<i64>,
    /// The bytes that the signature covers.
    pub signed: Vec<u8>,
    pub signature: Vec<u8>,
    pub payload: Option<Vec<u8>>,
}

/// What an envelope holds.
pub struct EnvelopeView {
    pub alg: Option<i64>,
    pub signed: Seq<u8>,
    pub signature: Seq<u8>,
    pub payload: Option<Seq<u8>>,
}

impl Envelope {
    pub open spec fn view(&self) -> EnvelopeView {
        EnvelopeView {
            alg: self.alg,
            signed: self.signed@,
            signature: self.signature@,
            payload: optional_bytes_view(self.payload),
        }
    }
}

/// COSE's number for the EdDSA signature algorithm.
pub const EDDSA: i64 = -8;

/// The envelope in some bytes; what its signature covers depends on the external data too.
pub uninterp spec fn cose_opened(value: Seq<u8>, aad: Seq<u8>) -> Option<EnvelopeView>;

/// Whether an envelope opens for external data, and for no other data its signature covers the
/// same bytes.
pub open spec fn bound_to(value: Seq<u8>, aad: Seq<u8>) -> bool {
    &&& cose_opened(value, aad) is Some
    &&& forall|other: Seq<u8>|
        other != aad ==> (#[trigger] cose_opened(value, other))->0.signed != cose_opened(value, aad)->0.signed
}

/// The label under which a header holds counter signatures, which have headers of their own.
pub const COUNTER_SIGNATURE: i128 = 7;

/// How deep counter signatures may stand in the headers of others.
pub const MAX_COUNTER_DEPTH: usize = 8;

/// Whether counter signatures in a header are nested at most so deep.
pub open spec fn header_within(m: Seq<(Item, Item)>, depth: nat) -> bool
    decreases depth, 1int,
{
    forall|i: int|
        0 <= i < m.len() && (#[trigger] m[i]).0 == Item::Int(COUNTER_SIGNATURE as int) ==> signatures_within(
            m[i].1,
            depth,
        )
}

/// Whether an item is a counter signature, or a list of them, nested at most so deep.
pub open spec fn signatures_within(item: Item, depth: nat) -> bool
    decreases depth, 0int,
{
    depth > 0 && match item {
        Item::Array(a) => signature_within(item, (depth - 1) as nat) || forall|i: int|
            0 <= i < a.len() ==> signature_within(#[trigger] a[i], (depth - 1) as nat),
        _ => false,
    }
}

/// Whether an item is a counter signature in whose headers others are nested at most so deep: an
/// array of the protected header's bytes, the unprotected header, and one more item.
pub open spec fn signature_within(item: Item, depth: nat) -> bool
    decreases depth, 3int,
{
    item matches Item::Array(a) && a.len() == 3 && headers_within(a[0], a[1], depth)
}

/// Whether counter signatures in a protected and an unprotected header are nested at most so deep.
/// The bytes of the protected header are none, or a map.
pub open spec fn headers_within(protected: Item, unprotected: Item, depth: nat) -> bool
    decreases depth, 2int,
{
    &&& protected matches Item::Bytes(b) && (b.len() == 0 || (cbor_decoding(b) matches Some(Item::Record(m))
        && header_within(m, depth)))
    &&& unprotected matches Item::Record(m) && header_within(m, depth)
}

/// Whether an item is an envelope in whose headers counter signatures are not nested too deep: an
/// array of the protected header's bytes, the unprotected header, and two more items.
pub open spec fn shallow_envelope(item: Item) -> bool {
    item matches Item::Array(a) && a.len() == 4 && headers_within(a[0], a[1], MAX_COUNTER_DEPTH as nat)
}

/// Whether some bytes are an envelope in whose headers counter signatures are not nested too deep.
pub open spec fn shallow_value(value: Seq<u8>) -> bool {
    cbor_decoding(value) matches Some(item) && shallow_envelope(item)
}

fn is_header_within(m: &Vec<(Cbor, Cbor)>, depth: usize) -> (r: bool)
    ensures
        r == header_within(member_views(m@), depth as nat),
    decreases depth, 1int,
{
    let ghost all = member_views(m@);
    let mut i: usize = 0;
    while i < m.len()
        invariant
            i <= m@.len(),
            all == member_views(m@),
            forall|j: int|
                0 <= j < i && (#[trigger] all[j]).0 == Item::Int(COUNTER_SIGNATURE as int) ==> signatures_within(
                    all[j].1,
                    depth as nat,
                ),
        decreases m@.len() - i,
    {
        assert(all[i as int] == (m@[i as int].0@, m@[i as int].1@));
        match &m[i].0 {
            Cbor::Int(n) => if *n == COUNTER_SIGNATURE && !are_signatures_within(&m[i].1, depth) {
                return false;
            },
            _ => {},
        }
        i += 1;
    }
    true
}

fn are_signatures_within(item: &Cbor, depth: usize) -> (r: bool)
    ensures
        r == signatures_within(item@, depth as nat),
    decreases depth, 0int,
{
    if depth == 0 {
        return false;
    }
    proof {
        record_view(*item);
    }
    match item {
        Cbor::Array(a) => {
            if is_signature_within(item, depth - 1) {
                return true;
            }
            let ghost all = element_views(a@);
            let mut i: usize = 0;
            while i < a.len()
                invariant
                    i <= a@.len(),
                    all == element_views(a@),
                    item@ == Item::Array(all),
                    depth > 0,
                    !signature_within(item@, (depth - 1) as nat),
                    forall|j: int| 0 <= j < i ==> signature_within(#[trigger] all[j], (depth - 1) as nat),
                decreases a@.len() - i,
            {
                assert(all[i as int] == a@[i as int]@);
                if !is_signature_within(&a[i], depth - 1) {
                    return false;
                }
                i += 1;
            }
            true
        },
        _ => false,
    }
}

fn is_signature_within(item: &Cbor, depth: usize) -> (r: bool)
    ensures
        r == signature_within(item@, depth as nat),
    decreases depth, 3int,
{
    proof {
        record_view(*item);
    }
    match item {
        Cbor::Array(a) => a.len() == 3 && are_headers_within(&a[0], &a[1], depth),
        _ => false,
    }
}

fn are_headers_within(protected: &Cbor, unprotected: &Cbor, depth: usize) -> (r: bool)
    ensures
        r == headers_within(protected@, unprotected@, depth as nat),
    decreases depth, 2int,
{
    proof {
        record_view(*unprotected);
    }
    let rest = match unprotected {
        Cbor::Record(m) => is_header_within(m, depth),
        _ => false,
    };
    match protected {
        Cbor::Bytes(b) => {
            if b.len() == 0 {
                return rest;
            }
            match decode_item(b.as_slice()) {
                Ok(header) => {
                    proof {
                        record_view(header);
                    }
                    match &header {
                        Cbor::Record(m) => is_header_within(m, depth) && rest,
                        _ => false,
                    }
                },
                Err(_) => false,
            }
        },
        _ => false,
    }
}

/// Whether some bytes are an envelope in whose headers counter signatures are not nested too deep,
/// so that reading it goes down no further than that, however long the value is.
pub fn is_shallow(value: &[u8]) -> (r: bool)
    ensures
        r == shallow_value(value@),
{
    match decode_item(value) {
        Ok(item) => {
            proof {
                record_view(item);
            }
            match &item {
                Cbor::Array(a) => a.len() == 4 && are_headers_within(&a[0], &a[1], MAX_COUNTER_DEPTH),
                _ => false,
            }
        },
        Err(_) => false,
    }
}

/// `coset::CoseSign1::from_slice`, with the bytes that `tbs_data` gives for the external data.
/// These bytes hold the external data, so that they differ for different data. Counter signatures
/// that are nested too deep are left out: `from_slice` goes down into them without a bound.
#[verifier::external_body]
pub(crate) fn cose_open(value: &[u8], aad: &[u8]) -> (r: Option<Envelope>)
    requires
        shallow_value(value@),
    ensures
        match r {
            Some(e) => cose_opened(value@, aad@) == Some(e@),
            None => cose_opened(value@, aad@) is None,
        },
        r is Some ==> bound_to(value@, aad@),
{
    let sign1 = coset::CoseSign1::from_slice(value).ok()?;
    let signed = sign1.tbs_data(aad);
    let alg = match sign1.protected.header.alg {
        Some(coset::RegisteredLabelWithPrivate::Assigned(a)) => Some(a.to_i64()),
        _ => None,
    };
    Some(Envelope { alg, signed, signature: sign1.signature, payload: sign1.payload })
}

/// The bytes that the signature of an envelope with this algorithm and payload covers.
pub uninterp spec fn cose_signed_data(alg: i64, aad: Seq<u8>, payload: Seq<u8>) -> Option<Seq<u8>>;

/// `coset::CoseSign1::tbs_data` of an envelope with only a protected algorithm and a payload;
/// nothing where the number is no registered algorithm. EdDSA is one.
#[verifier::external_body]
pub(crate) fn cose_to_be_signed(alg: i64, aad: &[u8], payload: &[u8]) -> (r: Option<Vec<u8>>)
    ensures
        optional_bytes_view(r) == cose_signed_data(alg, aad@, payload@),
        alg == EDDSA ==> r is Some,
{
    let alg = coset::iana::Algorithm::from_i64(alg)?;
    let header = coset::HeaderBuilder::new().algorithm(alg).build();
    let sign1 = coset::CoseSign1Builder::new().protected(header).payload(payload.to_vec()).build();
    Some(sign1.tbs_data(aad))
}

/// The bytes of an envelope with this algorithm, payload and signature.
pub uninterp spec fn cose_sealed(alg: i64, payload: Seq<u8>, signature: Seq<u8>) -> Option<Seq<u8>>;

/// `coset::CoseSign1::to_vec` of an envelope with only a protected algorithm, a payload and a
/// signature; nothing where the number is no registered algorithm. With EdDSA it succeeds, the
/// headers hold nothing but the algorithm, and `from_slice` reads the same parts back.
#[verifier::external_body]
pub(crate) fn cose_seal(alg: i64, payload: &[u8], signature: &[u8]) -> (r: Option<Vec<u8>>)
    ensures
        optional_bytes_view(r) == cose_sealed(alg, payload@, signature@),
        alg == EDDSA ==> r is Some,
        alg == EDDSA ==> shallow_value(r->0@),
        alg == EDDSA ==> forall|aad: Seq<u8>| #[trigger] cose_opened(r->0@, aad) == Some(
            (EnvelopeView {
                alg: Some(EDDSA),
                signed: cose_signed_data(EDDSA, aad, payload@)->0,
                signature: signature@,
                payload: Some(payload@),
            }),
        ),
{
    let alg = coset::iana::Algorithm::from_i64(alg)?;
    let header = coset::HeaderBuilder::new().algorithm(alg).build();
    let builder = coset::CoseSign1Builder::new().protected(header).payload(payload.to_vec());
    builder.signature(signature.to_vec()).build().to_vec().ok()
}

/// A peer's id in its base58 text form. Two ids are the same exactly when their texts are.
pub type PeerId = String;

/// The peer id that a text is, in its own text form, or the text of the error that refuses it.
pub uninterp spec fn peer_id_of_text(text: Seq<char>) -> Result<Seq<char>, Seq<char>>;

/// `libp2p::PeerId::from_str`, the id given as its text: id or refusal depend on the text alone.
#[verifier::external_body]
pub(crate) fn parse_peer_id(text: &str) -> (r: Result<PeerId, String>)
    ensures
        match r {
            Ok(p) => peer_id_of_text(text@) == Ok::<Seq<char>, Seq<char>>(p@),
            Err(e) => peer_id_of_text(text@) == Err::<Seq<char>, Seq<char>>(e@),
        },
{
    match text.parse::<libp2p::PeerId>() {
        Ok(p) => Ok(p.to_string()),
        Err(e) => Err(e.to_string()),
    }
}

/// An envelope without counter signatures in its headers is not refused for its depth.
pub proof fn plain_envelope_is_shallow(value: Seq<u8>, protected: Seq<u8>, header: Seq<(Item, Item)>, other: Seq<(Item, Item)>, payload: Item, signature: Item)
    requires
        cbor_decoding(value) == Some(
            Item::Array(seq![Item::Bytes(protected), Item::Record(other), payload, signature]),
        ),
        protected.len() == 0 || cbor_decoding(protected) == Some(Item::Record(header)),
        forall|i: int| 0 <= i < header.len() ==> (#[trigger] header[i]).0 != Item::Int(7),
        forall|i: int| 0 <= i < other.len() ==> (#[trigger] other[i]).0 != Item::Int(7),
    ensures
        shallow_value(value),
{
    let a = seq![Item::Bytes(protected), Item::Record(other), payload, signature];
    assert(a[0] == Item::Bytes(protected));
    assert(a[1] == Item::Record(other));
    assert(header_within(other, MAX_COUNTER_DEPTH as nat));
    if protected.len() > 0 {
        assert(header_within(header, MAX_COUNTER_DEPTH as nat));
    }
    assert(headers_within(a[0], a[1], MAX_COUNTER_DEPTH as nat));
}

/// Which bytes are taken for an envelope: an array of four, of the protected header's bytes, the
/// unprotected header, and two more, in whose headers counter signatures stand at most eight deep.
pub proof fn envelopes_are_arrays_of_four(value: Seq<u8>, item: Item, depth: nat, m: Seq<(Item, Item)>)
    ensures
        shallow_value(value) <==> (cbor_decoding(value) matches Some(Item::Array(a)) && a.len() == 4 && headers_within(
            a[0],
            a[1],
            8,
        )),
        header_within(m, depth) <==> forall|i: int|
            0 <= i < m.len() && (#[trigger] m[i]).0 == Item::Int(7) ==> signatures_within(m[i].1, depth),
        !signatures_within(item, 0),
        signatures_within(item, depth + 1) <==> (item matches Item::Array(a) && (signature_within(item, depth) || forall|i: int|
            0 <= i < a.len() ==> signature_within(#[trigger] a[i], depth))),
        signature_within(item, depth) <==> (item matches Item::Array(a) && a.len() == 3 && headers_within(a[0], a[1], depth)),
{
}

/// The headers of an envelope: bytes that are none or a map, and a map.
pub proof fn headers_are_maps(protected: Item, unprotected: Item, depth: nat)
    ensures
        headers_within(protected, unprotected, depth) <==> {
            &&& (protected matches Item::Bytes(b) && (b.len() == 0 || (cbor_decoding(b) matches Some(Item::Record(m))
                && header_within(m, depth))))
            &&& (unprotected matches Item::Record(m) && header_within(m, depth))
        },
        EDDSA == -8,
{
}

} // verus!
