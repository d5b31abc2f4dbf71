//! Authorization records: signed documents kept in an untrusted, overwritable, replayable store.
//!
//! This module only judges the bytes that were fetched; it touches no network.
//!
//! - Origin: a record is a COSE_Sign1 envelope, checked against the configured ed25519 authority.
//! - Freeze: an index carries `expires_at` and is refused after it.
//! - Rollback: index and whitelists carry a `version`; the cache refuses a lower one.
//! - Mix-and-match: the index holds the hash and length of each service's whitelist record.
//! - Replay elsewhere: the signature covers the key under which the record is stored.
//!
//! ```text
//! key:   /oahd/auth/<net_hash>/service     index
//! key:   /oahd/auth/<net_hash>/<service>   whitelist
//! value: COSE_Sign1(payload = CBOR(document), external data = the bytes of the key)
//! ```

use crate::bytes::{copy_bytes, same_bytes};
use crate::cbor::{
    bare, bare_of, cbor_decoding, cbor_encoding, decode_item, element_views, encode_item, find,
    has_name_keys, lookup_at, member_views, name_key, name_keys, plain, record_view,
    short_text_is_key, writable, Cbor, Found, Item,
};
use crate::crypto::{
    base64_decode, base64_decoding, base64url, base64url_of, bound_to, cose_open, cose_opened,
    cose_seal, cose_sealed, cose_signed_data, cose_to_be_signed, ed25519_key, ed25519_signed,
    ed25519_verify, shallow_value, identity_public, identity_signature, is_ed25519_key, is_shallow,
    keypair_sign, name_char,
    parse_peer_id, peer_id_of_text, sha256, sha256_of, EnvelopeView, EDDSA,
};
use crate::name_map::NameMap;
use crate::record::{
    as_text, bytes_field, list_field, member, octet_items, read_bytes, read_text, read_uint,
    text_field, text_item, text_of, uint_field,
};
use crate::text::{chars_of, same_text, text_views};
use vstd::prelude::*;
use vstd::string::*;
use vstd::utf8::{encode_utf8, encode_utf8_decode_utf8};

verus! {

/// The most bytes that one record may have.
pub const MAX_DOC_BYTES: usize = 1048576;

/// The most members that a whitelist may have.
pub const MAX_MEMBERS: usize = 100000;

/// The most services that an index may list.
pub const MAX_SERVICES: usize = 10000;

/// The last segment of the index's key, which no service may take as its name.
pub const RESERVED_SERVICE: &'static str = "service";

/// What every key of a record starts with.
pub const AUTH_PREFIX: &'static str = "/oahd/auth";

/// Why a record, a name or an authority was refused.
#[derive(Debug, Clone, Copy, PartialEq, Eq, Structural)]
pub enum AuthError {
    /// The envelope could not be read or made.
    Cose,
    /// The document lacks a field or has a wrong one.
    Malformed,
    /// The configured authority is no public key.
    InvalidAuthority,
    /// The signature is not the authority's on these bytes at this key.
    InvalidSignature,
    /// The index is past its time.
    Expired,
    /// The version is lower than one already seen.
    Rollback,
    /// The whitelist is not the one that the index names.
    HashMismatch,
    /// The index does not list the service.
    NotInIndex,
    /// The record has too many bytes or entries.
    TooLarge,
    /// The name of a network or service is not allowed.
    InvalidName,
}

/// The text of an error.
pub open spec fn auth_error_text(e: AuthError) -> Seq<char> {
    match e {
        AuthError::Cose => "cose envelope error"@,
        AuthError::Malformed => "malformed auth document"@,
        AuthError::InvalidAuthority => "invalid authority public key"@,
        AuthError::InvalidSignature => "signature verification failed"@,
        AuthError::Expired => "auth document expired"@,
        AuthError::Rollback => "auth document version rollback"@,
        AuthError::HashMismatch => "whitelist hash/length mismatch"@,
        AuthError::NotInIndex => "service not listed in auth index"@,
        AuthError::TooLarge => "auth document too large"@,
        AuthError::InvalidName => "invalid network or service name"@,
    }
}

impl AuthError {
    /// The text of the error.
    pub fn text(&self) -> (r: String)
        ensures
            r@ == auth_error_text(*self),
    {
        let t = match self {
            AuthError::Cose => "cose envelope error",
            AuthError::Malformed => "malformed auth document",
            AuthError::InvalidAuthority => "invalid authority public key",
            AuthError::InvalidSignature => "signature verification failed",
            AuthError::Expired => "auth document expired",
            AuthError::Rollback => "auth document version rollback",
            AuthError::HashMismatch => "whitelist hash/length mismatch",
            AuthError::NotInIndex => "service not listed in auth index",
            AuthError::TooLarge => "auth document too large",
            AuthError::InvalidName => "invalid network or service name",
        };
        t.to_owned()
    }
}

/// A network's name: 1 to 64 letters, digits, `_` and `-`.
pub open spec fn network_name(s: Seq<char>) -> bool {
    &&& 1 <= s.len() <= 64
    &&& forall|i: int| 0 <= i < s.len() ==> name_char(#[trigger] s[i])
}

/// A service's name: like a network's, and not the reserved one.
pub open spec fn service_name(s: Seq<char>) -> bool {
    network_name(s) && s != RESERVED_SERVICE@
}

fn is_name_char(c: char) -> (r: bool)
    ensures
        r == name_char(c),
{
    ('a' <= c && c <= 'z') || ('A' <= c && c <= 'Z') || ('0' <= c && c <= '9') || c == '_' || c == '-'
}

/// Whether a text is the name of a network.
pub fn is_valid_network_name(s: &str) -> (r: bool)
    ensures
        r == network_name(s@),
{
    let chars = chars_of(s);
    if chars.len() == 0 || chars.len() > 64 {
        return false;
    }
    let mut i: usize = 0;
    while i < chars.len()
        invariant
            i <= chars@.len(),
            chars@ == s@,
            forall|j: int| 0 <= j < i ==> name_char(#[trigger] s@[j]),
        decreases chars@.len() - i,
    {
        if !is_name_char(chars[i]) {
            assert(!name_char(s@[i as int]));
            return false;
        }
        i += 1;
    }
    true
}

/// Whether a text is the name of a service.
pub fn is_valid_service_name(s: &str) -> (r: bool)
    ensures
        r == service_name(s@),
{
    is_valid_network_name(s) && !same_text(s, RESERVED_SERVICE)
}

/// The hash of a network's name, as a segment of a key.
pub open spec fn net_hash_of(name: Seq<char>) -> Seq<char> {
    base64url_of(sha256_of(encode_utf8(name)))
}

/// The hash of a network's name. It has no `/` in it.
pub fn net_hash(name: &str) -> (r: String)
    ensures
        r@ == net_hash_of(name@),
        r@.len() == 43,
        forall|i: int| 0 <= i < r@.len() ==> name_char(#[trigger] r@[i]),
{
    let digest = sha256(name.as_bytes());
    base64url(digest.as_slice())
}

/// The SHA-256 of a record's bytes.
pub fn content_hash(value: &[u8]) -> (r: Vec<u8>)
    ensures
        r@ == sha256_of(value@),
        r@.len() == 32,
{
    sha256(value)
}

/// The authority's key in a base64 text.
pub open spec fn authority_of(b64: Seq<char>) -> Option<Seq<u8>> {
    match base64_decoding(b64) {
        Ok(bytes) => if ed25519_key(bytes) {
            Some(bytes)
        } else {
            None
        },
        Err(_) => None,
    }
}

/// Reads an authority's ed25519 public key from its base64 text.
pub fn parse_authority(b64: &str) -> (r: Result<Vec<u8>, AuthError>)
    ensures
        match r {
            Ok(key) => authority_of(b64@) == Some(key@) && key@.len() == 32,
            Err(e) => authority_of(b64@) is None && e == AuthError::InvalidAuthority,
        },
{
    match base64_decode(b64) {
        Err(_) => Err(AuthError::InvalidAuthority),
        Ok(bytes) => if is_ed25519_key(bytes.as_slice()) {
            Ok(bytes)
        } else {
            Err(AuthError::InvalidAuthority)
        },
    }
}

/// Reads the system clock through `std::time::SystemTime`, in whole seconds since the Unix epoch;
/// nothing where the clock stands before it. Nothing is claimed of the reading.
#[verifier::external_body]
fn unix_clock() -> (r: Option<u64>) {
    std::time::SystemTime::now().duration_since(std::time::UNIX_EPOCH).ok().map(|d| d.as_secs())
}

/// The Unix time that a reading of the clock stands for; 0 where the clock stands before the epoch.
pub fn unix_seconds(reading: Option<u64>) -> (r: u64)
    ensures
        r == (match reading {
            Some(secs) => secs,
            None => 0,
        }),
{
    match reading {
        Some(secs) => secs,
        None => 0,
    }
}

/// The current Unix time in seconds, as `unix_seconds` takes it from the system clock. Nothing is
/// promised of what the clock shows.
pub fn now_unix() -> u64 {
    unix_seconds(unix_clock())
}

/// A network with authorization: its name, the hash of the name, and the authority's key.
#[derive(Debug, Clone)]
pub struct AuthNetwork {
    pub name: String,
    /// The hash of the name, which has no `/` in it.
    pub net_hash: String,
    /// The authority's ed25519 public key.
    pub authority: Vec<u8>,
}

/// What the key of a record under a network's hash is.
pub open spec fn record_key(net_hash: Seq<char>, last: Seq<char>) -> Seq<char> {
    AUTH_PREFIX@ + "/"@ + net_hash + "/"@ + last
}

impl AuthNetwork {
    /// A network of that name, with the authority whose base64 text is given.
    pub fn new(name: &str, authority_b64: &str) -> (r: Result<Self, AuthError>)
        ensures
            match r {
                Ok(net) => network_name(name@) && authority_of(authority_b64@) == Some(net.authority@)
                    && net.name@ == name@ && net.net_hash@ == net_hash_of(name@)
                    && net.net_hash_is_segment(),
                Err(AuthError::InvalidName) => !network_name(name@),
                Err(AuthError::InvalidAuthority) => network_name(name@) && authority_of(authority_b64@) is None,
                Err(_) => false,
            },
    {
        if !is_valid_network_name(name) {
            return Err(AuthError::InvalidName);
        }
        match parse_authority(authority_b64) {
            Ok(authority) => Ok(AuthNetwork { name: name.to_owned(), net_hash: net_hash(name), authority }),
            Err(e) => Err(e),
        }
    }

    /// Whether the hash is one segment of a key.
    pub open spec fn net_hash_is_segment(&self) -> bool {
        forall|i: int| 0 <= i < self.net_hash@.len() ==> name_char(#[trigger] self.net_hash@[i])
    }

    fn key(&self, last: &str) -> (r: String)
        ensures
            r@ == record_key(self.net_hash@, last@),
    {
        let mut s = AUTH_PREFIX.to_owned();
        s.append("/");
        s.append(self.net_hash.as_str());
        s.append("/");
        s.append(last);
        s
    }

    /// The key of the index: `/oahd/auth/<net_hash>/service`.
    pub fn index_key(&self) -> (r: String)
        ensures
            r@ == record_key(self.net_hash@, RESERVED_SERVICE@),
    {
        self.key(RESERVED_SERVICE)
    }

    /// The key of a service's whitelist: `/oahd/auth/<net_hash>/<service>`.
    pub fn service_key(&self, service: &str) -> (r: Result<String, AuthError>)
        ensures
            match r {
                Ok(key) => service_name(service@) && key@ == record_key(self.net_hash@, service@),
                Err(e) => !service_name(service@) && e == AuthError::InvalidName,
            },
    {
        if !is_valid_service_name(service) {
            return Err(AuthError::InvalidName);
        }
        Ok(self.key(service))
    }
}

/// One service of an index, bound to the bytes of its whitelist record.
#[derive(Debug, Clone, PartialEq, Eq)]
pub struct ServiceEntry {
    pub name: String,
    /// The SHA-256 of the whitelist record's bytes.
    pub hash: Vec<u8>,
    /// The number of the whitelist record's bytes.
    pub length: u64,
}

/// What an entry says.
pub struct EntryView {
    pub name: Seq<char>,
    pub hash: Seq<u8>,
    pub length: u64,
}

impl ServiceEntry {
    pub open spec fn view(&self) -> EntryView {
        EntryView { name: self.name@, hash: self.hash@, length: self.length }
    }
}

/// The index of a network's services.
#[derive(Debug, Clone, PartialEq, Eq)]
pub struct IndexDoc {
    pub version: u64,
    pub expires_at: u64,
    pub services: Vec<ServiceEntry>,
}

/// What an index says.
pub struct IndexView {
    pub version: u64,
    pub expires_at: u64,
    pub services: Seq<EntryView>,
}

/// What entries say.
pub open spec fn entry_views(s: Seq<ServiceEntry>) -> Seq<EntryView> {
    s.map_values(|e: ServiceEntry| e@)
}

impl IndexDoc {
    pub open spec fn view(&self) -> IndexView {
        IndexView {
            version: self.version,
            expires_at: self.expires_at,
            services: entry_views(self.services@),
        }
    }
}

/// The members of one service.
#[derive(Debug, Clone, PartialEq, Eq)]
pub struct WhitelistDoc {
    pub version: u64,
    pub members: Vec<String>,
}

/// What a whitelist says.
pub struct WhitelistView {
    pub version: u64,
    pub members: Seq<Seq<char>>,
}

impl WhitelistDoc {
    pub open spec fn view(&self) -> WhitelistView {
        WhitelistView { version: self.version, members: text_views(self.members@) }
    }
}

/// The record that an entry is written as.
pub open spec fn entry_item(e: EntryView) -> Item {
    Item::Record(entry_members(e))
}

/// The members of an entry's record.
pub open spec fn entry_members(e: EntryView) -> Seq<(Item, Item)> {
    seq![
        (Item::Text("name"@), Item::Text(e.name)),
        (Item::Text("hash"@), Item::Bytes(e.hash)),
        (Item::Text("length"@), Item::Int(e.length as int)),
    ]
}

/// The members of an index's record.
pub open spec fn index_members(v: IndexView) -> Seq<(Item, Item)> {
    seq![
        (Item::Text("version"@), Item::Int(v.version as int)),
        (Item::Text("expires_at"@), Item::Int(v.expires_at as int)),
        (Item::Text("services"@), Item::Array(v.services.map_values(|e: EntryView| entry_item(e)))),
    ]
}

/// The members of a whitelist's record.
pub open spec fn whitelist_members(v: WhitelistView) -> Seq<(Item, Item)> {
    seq![
        (Item::Text("version"@), Item::Int(v.version as int)),
        (Item::Text("members"@), Item::Array(v.members.map_values(|t: Seq<char>| Item::Text(t)))),
    ]
}

/// The entry that an item says, if it says one.
pub open spec fn entry_of(item: Item) -> Option<EntryView> {
    match bare(item) {
        Item::Record(m) => if name_keys(m) {
            match (text_field(m, "name"@), bytes_field(m, "hash"@), uint_field(m, "length"@)) {
                (Some(name), Some(hash), Some(length)) => Some(EntryView { name, hash, length }),
                _ => None,
            }
        } else {
            None
        },
        _ => None,
    }
}

/// The entries that items say, if each says one.
pub open spec fn entries_of(s: Seq<Item>) -> Option<Seq<EntryView>> {
    if forall|i: int| 0 <= i < s.len() ==> entry_of(#[trigger] s[i]) is Some {
        Some(s.map_values(|i: Item| entry_of(i)->0))
    } else {
        None
    }
}

/// The index that an item says, if it says one.
pub open spec fn index_of(item: Item) -> Option<IndexView> {
    match bare(item) {
        Item::Record(m) => if name_keys(m) {
            match (uint_field(m, "version"@), uint_field(m, "expires_at"@), list_field(m, "services"@)) {
                (Some(version), Some(expires_at), Some(s)) => match entries_of(s) {
                    Some(services) => Some(IndexView { version, expires_at, services }),
                    None => None,
                },
                _ => None,
            }
        } else {
            None
        },
        _ => None,
    }
}

/// The texts that items are, if each is one.
pub open spec fn texts_of(s: Seq<Item>) -> Option<Seq<Seq<char>>> {
    if forall|i: int| 0 <= i < s.len() ==> as_text(#[trigger] s[i]) is Some {
        Some(s.map_values(|i: Item| as_text(i)->0))
    } else {
        None
    }
}

/// The whitelist that an item says, if it says one.
pub open spec fn whitelist_of(item: Item) -> Option<WhitelistView> {
    match bare(item) {
        Item::Record(m) => if name_keys(m) {
            match (uint_field(m, "version"@), list_field(m, "members"@)) {
                (Some(version), Some(s)) => match texts_of(s) {
                    Some(members) => Some(WhitelistView { version, members }),
                    None => None,
                },
                _ => None,
            }
        } else {
            None
        },
        _ => None,
    }
}

fn entry_to_item(e: &ServiceEntry) -> (r: Cbor)
    ensures
        r@ == entry_item(e@),
{
    let mut m: Vec<(Cbor, Cbor)> = Vec::new();
    m.push(member("name", text_item(e.name.as_str())));
    m.push(member("hash", Cbor::Bytes(copy_bytes(e.hash.as_slice()))));
    m.push(member("length", Cbor::Int(e.length as i128)));
    let r = Cbor::Record(m);
    proof {
        record_view(r);
        assert(member_views(m@) =~= entry_members(e@));
    }
    r
}

fn index_to_item(doc: &IndexDoc) -> (r: Cbor)
    ensures
        r@ == Item::Record(index_members(doc@)),
{
    let mut entries: Vec<Cbor> = Vec::new();
    let mut i: usize = 0;
    while i < doc.services.len()
        invariant
            i <= doc.services@.len(),
            entries@.len() == i,
            forall|j: int| 0 <= j < i ==> (#[trigger] entries@[j])@ == entry_item(doc.services@[j]@),
        decreases doc.services@.len() - i,
    {
        entries.push(entry_to_item(&doc.services[i]));
        i += 1;
    }
    let list = Cbor::Array(entries);
    proof {
        record_view(list);
        assert(element_views(entries@) =~= doc@.services.map_values(|e: EntryView| entry_item(e)));
    }
    let mut m: Vec<(Cbor, Cbor)> = Vec::new();
    m.push(member("version", Cbor::Int(doc.version as i128)));
    m.push(member("expires_at", Cbor::Int(doc.expires_at as i128)));
    m.push(member("services", list));
    let r = Cbor::Record(m);
    proof {
        record_view(r);
        assert(member_views(m@) =~= index_members(doc@));
    }
    r
}

fn whitelist_to_item(doc: &WhitelistDoc) -> (r: Cbor)
    ensures
        r@ == Item::Record(whitelist_members(doc@)),
{
    let mut texts: Vec<Cbor> = Vec::new();
    let mut i: usize = 0;
    while i < doc.members.len()
        invariant
            i <= doc.members@.len(),
            texts@.len() == i,
            forall|j: int| 0 <= j < i ==> (#[trigger] texts@[j])@ == Item::Text(doc.members@[j]@),
        decreases doc.members@.len() - i,
    {
        texts.push(text_item(doc.members[i].as_str()));
        i += 1;
    }
    let list = Cbor::Array(texts);
    proof {
        record_view(list);
        assert(element_views(texts@) =~= doc@.members.map_values(|t: Seq<char>| Item::Text(t)));
    }
    let mut m: Vec<(Cbor, Cbor)> = Vec::new();
    m.push(member("version", Cbor::Int(doc.version as i128)));
    m.push(member("members", list));
    let r = Cbor::Record(m);
    proof {
        record_view(r);
        assert(member_views(m@) =~= whitelist_members(doc@));
    }
    r
}

fn entry_from(c: &Cbor) -> (r: Option<ServiceEntry>)
    ensures
        match r {
            Some(e) => entry_of(c@) == Some(e@),
            None => entry_of(c@) is None,
        },
{
    let bared = bare_of(c);
    proof {
        record_view(*bared);
    }
    match bared {
        Cbor::Record(m) => if has_name_keys(m) {
            match (read_text(m, "name"), read_bytes(m, "hash"), read_uint(m, "length")) {
                (Some(name), Some(hash), Some(length)) => Some(ServiceEntry { name, hash, length }),
                _ => None,
            }
        } else {
            None
        },
        _ => None,
    }
}

fn entries_from(v: &Vec<Cbor>) -> (r: Option<Vec<ServiceEntry>>)
    ensures
        match r {
            Some(e) => entries_of(element_views(v@)) == Some(entry_views(e@)),
            None => entries_of(element_views(v@)) is None,
        },
{
    let ghost s = element_views(v@);
    let mut out: Vec<ServiceEntry> = Vec::new();
    let mut i: usize = 0;
    while i < v.len()
        invariant
            i <= v@.len(),
            s == element_views(v@),
            out@.len() == i,
            forall|j: int| 0 <= j < i ==> entry_of(#[trigger] s[j]) == Some(out@[j]@),
        decreases v@.len() - i,
    {
        match entry_from(&v[i]) {
            Some(e) => out.push(e),
            None => {
                assert(entry_of(s[i as int]) is None);
                return None;
            },
        }
        i += 1;
    }
    assert(entry_views(out@) =~= s.map_values(|i: Item| entry_of(i)->0));
    Some(out)
}

/// Reads the entries under a name.
fn read_entries(m: &Vec<(Cbor, Cbor)>, name: &str) -> (r: Option<Vec<ServiceEntry>>)
    ensures
        match list_field(member_views(m@), name@) {
            Some(s) => match r {
                Some(e) => entries_of(s) == Some(entry_views(e@)),
                None => entries_of(s) is None,
            },
            None => r is None,
        },
{
    match find(m, name) {
        Found::One(c) => {
            let bared = bare_of(c);
            proof {
                record_view(*bared);
            }
            match bared {
                Cbor::Array(v) => entries_from(v),
                Cbor::Bytes(b) => {
                    let none: Vec<ServiceEntry> = Vec::new();
                    proof {
                        let s = octet_items(b@);
                        if b@.len() > 0 {
                            assert(entry_of(s[0]) is None);
                        } else {
                            assert(s.map_values(|i: Item| entry_of(i)->0) =~= entry_views(none@));
                        }
                    }
                    if b.len() == 0 {
                        Some(none)
                    } else {
                        None
                    }
                },
                _ => None,
            }
        },
        _ => None,
    }
}

fn index_from(c: &Cbor) -> (r: Option<IndexDoc>)
    ensures
        match r {
            Some(d) => index_of(c@) == Some(d@),
            None => index_of(c@) is None,
        },
{
    let bared = bare_of(c);
    proof {
        record_view(*bared);
    }
    match bared {
        Cbor::Record(m) => if has_name_keys(m) {
            match (read_uint(m, "version"), read_uint(m, "expires_at"), read_entries(m, "services")) {
                (Some(version), Some(expires_at), Some(services)) => Some(IndexDoc { version, expires_at, services }),
                _ => None,
            }
        } else {
            None
        },
        _ => None,
    }
}

fn texts_from(v: &Vec<Cbor>) -> (r: Option<Vec<String>>)
    ensures
        match r {
            Some(t) => texts_of(element_views(v@)) == Some(text_views(t@)),
            None => texts_of(element_views(v@)) is None,
        },
{
    let ghost s = element_views(v@);
    let mut out: Vec<String> = Vec::new();
    let mut i: usize = 0;
    while i < v.len()
        invariant
            i <= v@.len(),
            s == element_views(v@),
            out@.len() == i,
            forall|j: int| 0 <= j < i ==> as_text(#[trigger] s[j]) == Some(out@[j]@),
        decreases v@.len() - i,
    {
        assert(s[i as int] == v@[i as int]@);
        match text_of(&v[i]) {
            Some(t) => out.push(t),
            None => {
                assert(as_text(s[i as int]) is None);
                return None;
            },
        }
        i += 1;
    }
    assert(text_views(out@) =~= s.map_values(|i: Item| as_text(i)->0));
    Some(out)
}

/// Reads the texts under a name.
fn read_texts(m: &Vec<(Cbor, Cbor)>, name: &str) -> (r: Option<Vec<String>>)
    ensures
        match list_field(member_views(m@), name@) {
            Some(s) => match r {
                Some(t) => texts_of(s) == Some(text_views(t@)),
                None => texts_of(s) is None,
            },
            None => r is None,
        },
{
    match find(m, name) {
        Found::One(c) => {
            let bared = bare_of(c);
            proof {
                record_view(*bared);
            }
            match bared {
                Cbor::Array(v) => texts_from(v),
                Cbor::Bytes(b) => {
                    let none: Vec<String> = Vec::new();
                    proof {
                        let s = octet_items(b@);
                        if b@.len() > 0 {
                            assert(as_text(s[0]) is None);
                        } else {
                            assert(s.map_values(|i: Item| as_text(i)->0) =~= text_views(none@));
                        }
                    }
                    if b.len() == 0 {
                        Some(none)
                    } else {
                        None
                    }
                },
                _ => None,
            }
        },
        _ => None,
    }
}

fn whitelist_from(c: &Cbor) -> (r: Option<WhitelistDoc>)
    ensures
        match r {
            Some(d) => whitelist_of(c@) == Some(d@),
            None => whitelist_of(c@) is None,
        },
{
    let bared = bare_of(c);
    proof {
        record_view(*bared);
    }
    match bared {
        Cbor::Record(m) => if has_name_keys(m) {
            match (read_uint(m, "version"), read_texts(m, "members")) {
                (Some(version), Some(members)) => Some(WhitelistDoc { version, members }),
                _ => None,
            }
        } else {
            None
        },
        _ => None,
    }
}

/// The envelope that a key pair makes around a payload, signing for the external data `aad`.
pub open spec fn sealed_payload(keypair: Seq<u8>, aad: Seq<u8>, payload: Seq<u8>) -> Option<Seq<u8>> {
    match identity_signature(keypair, cose_signed_data(EDDSA, aad, payload)->0) {
        Some(sig) => cose_sealed(EDDSA, payload, sig),
        None => None,
    }
}

/// What a record's bytes are worth under an authority and a key: the payload, or why not.
pub open spec fn payload_verdict(authority: Seq<u8>, aad: Seq<u8>, value: Seq<u8>) -> Result<
    Seq<u8>,
    AuthError,
> {
    if value.len() > MAX_DOC_BYTES {
        Err(AuthError::TooLarge)
    } else if !shallow_value(value) {
        Err(AuthError::Cose)
    } else {
        match cose_opened(value, aad) {
            None => Err(AuthError::Cose),
            Some(e) => if e.alg != Some(EDDSA) || !ed25519_signed(authority, e.signed, e.signature) {
                Err(AuthError::InvalidSignature)
            } else {
                match e.payload {
                    Some(p) => Ok(p),
                    None => Err(AuthError::Malformed),
                }
            },
        }
    }
}

/// Whether the signature that a key pair makes on a payload for the external data `aad` is one of
/// `authority` on the same payload for the external data `other`.
pub open spec fn signature_holds(
    keypair: Seq<u8>,
    aad: Seq<u8>,
    payload: Seq<u8>,
    authority: Seq<u8>,
    other: Seq<u8>,
) -> bool {
    ed25519_signed(
        authority,
        cose_signed_data(EDDSA, other, payload)->0,
        identity_signature(keypair, cose_signed_data(EDDSA, aad, payload)->0)->0,
    )
}

/// Signs a payload with a key pair (in its protobuf encoding), bound to the external data `aad`.
/// With an ed25519 key pair it succeeds, and the key accepts what comes out. Whoever checks it, for
/// whatever external data, gets the payload where the signature holds for that, and is told that the
/// signature is invalid where it does not.
pub fn sign_payload(keypair: &[u8], aad: &[u8], payload: &[u8]) -> (r: Result<Vec<u8>, AuthError>)
    ensures
        match r {
            Ok(v) => sealed_payload(keypair@, aad@, payload@) == Some(v@),
            Err(e) => sealed_payload(keypair@, aad@, payload@) is None && e == AuthError::Cose,
        },
        identity_public(keypair@) matches Some(key) ==> r is Ok && signature_holds(
            keypair@,
            aad@,
            payload@,
            key,
            aad@,
        ),
        r is Ok && r->Ok_0@.len() <= MAX_DOC_BYTES ==> forall|authority: Seq<u8>, other: Seq<u8>| #[trigger]
            payload_verdict(authority, other, r->Ok_0@) == (if signature_holds(
                keypair@,
                aad@,
                payload@,
                authority,
                other,
            ) {
                Ok::<Seq<u8>, AuthError>(payload@)
            } else {
                Err(AuthError::InvalidSignature)
            }),
{
    let signed = match cose_to_be_signed(EDDSA, aad, payload) {
        Some(s) => s,
        None => {
            return Err(AuthError::Cose);
        },
    };
    match keypair_sign(keypair, signed.as_slice()) {
        Some(sig) => match cose_seal(EDDSA, payload, sig.as_slice()) {
            Some(v) => {
                proof {
                    assert forall|authority: Seq<u8>, other: Seq<u8>| v@.len() <= MAX_DOC_BYTES implies #[trigger] payload_verdict(
                        authority,
                        other,
                        v@,
                    ) == (if signature_holds(keypair@, aad@, payload@, authority, other) {
                        Ok::<Seq<u8>, AuthError>(payload@)
                    } else {
                        Err(AuthError::InvalidSignature)
                    }) by {
                        assert(cose_opened(v@, other) is Some);
                    }
                }
                Ok(v)
            },
            None => Err(AuthError::Cose),
        },
        None => Err(AuthError::Cose),
    }
}

/// Checks the signature of a record and gives its payload, which the signature covers. The
/// signature covers `aad` too: for other external data the bytes that it would have to cover differ.
pub fn verify_payload(authority: &[u8], aad: &[u8], value: &[u8]) -> (r: Result<Vec<u8>, AuthError>)
    ensures
        match r {
            Ok(p) => payload_verdict(authority@, aad@, value@) == Ok::<Seq<u8>, AuthError>(p@),
            Err(e) => payload_verdict(authority@, aad@, value@) == Err::<Seq<u8>, AuthError>(e),
        },
        r is Ok ==> bound_to(value@, aad@),
{
    if value.len() > MAX_DOC_BYTES {
        return Err(AuthError::TooLarge);
    }
    if !is_shallow(value) {
        return Err(AuthError::Cose);
    }
    let envelope = match cose_open(value, aad) {
        Some(e) => e,
        None => {
            return Err(AuthError::Cose);
        },
    };
    let eddsa = match envelope.alg {
        Some(n) => n == EDDSA,
        None => false,
    };
    if !eddsa {
        return Err(AuthError::InvalidSignature);
    }
    if !ed25519_verify(authority, envelope.signed.as_slice(), envelope.signature.as_slice()) {
        return Err(AuthError::InvalidSignature);
    }
    match envelope.payload {
        Some(p) => Ok(p),
        None => Err(AuthError::Malformed),
    }
}

/// The bytes of the key of the index.
pub open spec fn index_aad(net: AuthNetwork) -> Seq<u8> {
    encode_utf8(record_key(net.net_hash@, RESERVED_SERVICE@))
}

/// The bytes of the key of a service's whitelist.
pub open spec fn service_aad(net: AuthNetwork, service: Seq<char>) -> Seq<u8> {
    encode_utf8(record_key(net.net_hash@, service))
}

/// The payload that an index is written as.
pub open spec fn index_payload(v: IndexView) -> Seq<u8> {
    cbor_encoding(Item::Record(index_members(v)))
}

/// The payload that a whitelist is written as.
pub open spec fn whitelist_payload(v: WhitelistView) -> Seq<u8> {
    cbor_encoding(Item::Record(whitelist_members(v)))
}

/// The index that a payload holds, if it holds one.
pub open spec fn index_in(payload: Seq<u8>) -> Option<IndexView> {
    match cbor_decoding(payload) {
        Some(item) => index_of(item),
        None => None,
    }
}

/// The whitelist that a payload holds, if it holds one.
pub open spec fn whitelist_in(payload: Seq<u8>) -> Option<WhitelistView> {
    match cbor_decoding(payload) {
        Some(item) => whitelist_of(item),
        None => None,
    }
}

/// What is wrong with the first entry that is wrong.
pub open spec fn entries_fault(s: Seq<EntryView>) -> Option<AuthError>
    decreases s.len(),
{
    if s.len() == 0 {
        None
    } else if !service_name(s[0].name) {
        Some(AuthError::InvalidName)
    } else if s[0].hash.len() != 32 {
        Some(AuthError::Malformed)
    } else {
        entries_fault(s.drop_first())
    }
}

/// What is wrong with an index at a time: too many services, a bad entry, or past its time.
pub open spec fn index_fault(v: IndexView, now: u64) -> Option<AuthError> {
    if v.services.len() > MAX_SERVICES {
        Some(AuthError::TooLarge)
    } else if entries_fault(v.services) is Some {
        entries_fault(v.services)
    } else if now > v.expires_at {
        Some(AuthError::Expired)
    } else {
        None
    }
}

/// What the bytes of an index record are worth at a time.
pub open spec fn index_verdict(net: AuthNetwork, value: Seq<u8>, now: u64) -> Result<IndexView, AuthError> {
    match payload_verdict(net.authority@, index_aad(net), value) {
        Err(e) => Err(e),
        Ok(payload) => match index_in(payload) {
            None => Err(AuthError::Malformed),
            Some(v) => match index_fault(v, now) {
                Some(e) => Err(e),
                None => Ok(v),
            },
        },
    }
}

/// What the bytes of a whitelist record are worth against the entry of the index.
pub open spec fn whitelist_verdict(
    net: AuthNetwork,
    service: Seq<char>,
    value: Seq<u8>,
    entry: EntryView,
) -> Result<WhitelistView, AuthError> {
    if value.len() != entry.length || sha256_of(value) != entry.hash {
        Err(AuthError::HashMismatch)
    } else if !service_name(service) {
        Err(AuthError::InvalidName)
    } else {
        match payload_verdict(net.authority@, service_aad(net, service), value) {
            Err(e) => Err(e),
            Ok(payload) => match whitelist_in(payload) {
                None => Err(AuthError::Malformed),
                Some(v) => if v.members.len() > MAX_MEMBERS {
                    Err(AuthError::TooLarge)
                } else {
                    Ok(v)
                },
            },
        }
    }
}

/// Whether the signature that a key pair makes on an index of a network is one of `authority` on that
/// index of the network with the given hash.
pub open spec fn index_signature_holds(
    keypair: Seq<u8>,
    net: AuthNetwork,
    doc: IndexView,
    authority: Seq<u8>,
    net_hash: Seq<char>,
) -> bool {
    signature_holds(
        keypair,
        index_aad(net),
        index_payload(doc),
        authority,
        encode_utf8(record_key(net_hash, RESERVED_SERVICE@)),
    )
}

/// Whether the signature that a key pair makes on a service's whitelist is one of `authority` on that
/// whitelist of the service `other` in the network with the given hash.
pub open spec fn whitelist_signature_holds(
    keypair: Seq<u8>,
    net: AuthNetwork,
    service: Seq<char>,
    doc: WhitelistView,
    authority: Seq<u8>,
    net_hash: Seq<char>,
    other: Seq<char>,
) -> bool {
    signature_holds(
        keypair,
        service_aad(net, service),
        whitelist_payload(doc),
        authority,
        encode_utf8(record_key(net_hash, other)),
    )
}

/// Writes and signs an index: the bytes to store under its key. With an ed25519 key pair it succeeds,
/// and a network of the same name whose authority is that key accepts it until it expires. Any
/// network for which the signature does not hold refuses it as not signed.
pub fn sign_index(keypair: &[u8], net: &AuthNetwork, doc: &IndexDoc) -> (r: Result<Vec<u8>, AuthError>)
    ensures
        match r {
            Ok(v) => sealed_payload(keypair@, index_aad(*net), index_payload(doc@)) == Some(v@),
            Err(e) => sealed_payload(keypair@, index_aad(*net), index_payload(doc@)) is None && e
                == AuthError::Cose,
        },
        identity_public(keypair@) matches Some(key) ==> r is Ok && index_signature_holds(
            keypair@,
            *net,
            doc@,
            key,
            net.net_hash@,
        ),
        r is Ok && r->Ok_0@.len() <= MAX_DOC_BYTES ==> forall|m: AuthNetwork, now: u64| #[trigger]
            index_verdict(m, r->Ok_0@, now) == (if !index_signature_holds(
                keypair@,
                *net,
                doc@,
                m.authority@,
                m.net_hash@,
            ) {
                Err::<IndexView, AuthError>(AuthError::InvalidSignature)
            } else {
                match index_fault(doc@, now) {
                    Some(e) => Err(e),
                    None => Ok(doc@),
                }
            }),
{
    let item = index_to_item(doc);
    proof {
        index_writable(doc@);
        index_read_back(doc@);
    }
    let payload = encode_item(&item);
    sign_payload(keypair, net.index_key().as_str().as_bytes(), payload.as_slice())
}

/// Writes and signs a service's whitelist: the bytes to store under its key. With an ed25519 key pair
/// it succeeds, and a network of the same name whose authority is that key accepts it for that
/// service, by an entry that names its bytes. Any network and service for which the signature does
/// not hold refuse it as not signed.
pub fn sign_whitelist(keypair: &[u8], net: &AuthNetwork, service: &str, doc: &WhitelistDoc) -> (r: Result<
    Vec<u8>,
    AuthError,
>)
    ensures
        match r {
            Ok(v) => service_name(service@) && sealed_payload(
                keypair@,
                service_aad(*net, service@),
                whitelist_payload(doc@),
            ) == Some(v@),
            Err(AuthError::InvalidName) => !service_name(service@),
            Err(e) => service_name(service@) && sealed_payload(
                keypair@,
                service_aad(*net, service@),
                whitelist_payload(doc@),
            ) is None && e == AuthError::Cose,
        },
        identity_public(keypair@) matches Some(key) && service_name(service@) ==> r is Ok && whitelist_signature_holds(
            keypair@,
            *net,
            service@,
            doc@,
            identity_public(keypair@)->0,
            net.net_hash@,
            service@,
        ),
        r is Ok && r->Ok_0@.len() <= MAX_DOC_BYTES ==> forall|m: AuthNetwork, other: Seq<char>, entry: EntryView|
            entry.length == r->Ok_0@.len() && entry.hash == sha256_of(r->Ok_0@) && service_name(other)
                ==> #[trigger] whitelist_verdict(m, other, r->Ok_0@, entry) == (if !whitelist_signature_holds(
                keypair@,
                *net,
                service@,
                doc@,
                m.authority@,
                m.net_hash@,
                other,
            ) {
                Err::<WhitelistView, AuthError>(AuthError::InvalidSignature)
            } else if doc@.members.len() > MAX_MEMBERS {
                Err(AuthError::TooLarge)
            } else {
                Ok(doc@)
            }),
{
    let key = match net.service_key(service) {
        Ok(k) => k,
        Err(e) => {
            return Err(e);
        },
    };
    let item = whitelist_to_item(doc);
    proof {
        whitelist_writable(doc@);
        whitelist_read_back(doc@);
    }
    let payload = encode_item(&item);
    sign_payload(keypair, key.as_str().as_bytes(), payload.as_slice())
}

/// Checks a decoded index: its size, its entries in order, and its time.
pub fn check_index(doc: &IndexDoc, now: u64) -> (r: Option<AuthError>)
    ensures
        r == index_fault(doc@, now),
{
    if doc.services.len() > MAX_SERVICES {
        return Some(AuthError::TooLarge);
    }
    let ghost all = doc@.services;
    let mut i: usize = 0;
    assert(all.subrange(0, all.len() as int) =~= all);
    while i < doc.services.len()
        invariant
            i <= doc.services@.len(),
            all == doc@.services,
            all.len() == doc.services@.len(),
            all.len() <= MAX_SERVICES,
            entries_fault(all) == entries_fault(all.subrange(i as int, all.len() as int)),
        decreases doc.services@.len() - i,
    {
        let ghost rest = all.subrange(i as int, all.len() as int);
        proof {
            assert(rest[0] == doc.services@[i as int]@);
            assert(rest.drop_first() =~= all.subrange(i + 1, all.len() as int));
        }
        if !is_valid_service_name(doc.services[i].name.as_str()) {
            return Some(AuthError::InvalidName);
        }
        if doc.services[i].hash.len() != 32 {
            return Some(AuthError::Malformed);
        }
        i += 1;
    }
    if now > doc.expires_at {
        return Some(AuthError::Expired);
    }
    None
}

/// Checks the bytes of an index record: signature, structure, names, and time. What is accepted was
/// signed for the key of the index.
pub fn verify_index(net: &AuthNetwork, value: &[u8], now: u64) -> (r: Result<IndexDoc, AuthError>)
    ensures
        match r {
            Ok(doc) => index_verdict(*net, value@, now) == Ok::<IndexView, AuthError>(doc@),
            Err(e) => index_verdict(*net, value@, now) == Err::<IndexView, AuthError>(e),
        },
        r is Ok ==> bound_to(value@, index_aad(*net)),
{
    let payload = match verify_payload(net.authority.as_slice(), net.index_key().as_str().as_bytes(), value) {
        Ok(p) => p,
        Err(e) => {
            return Err(e);
        },
    };
    let item = match decode_item(payload.as_slice()) {
        Ok(i) => i,
        Err(_) => {
            return Err(AuthError::Malformed);
        },
    };
    let doc = match index_from(&item) {
        Some(d) => d,
        None => {
            return Err(AuthError::Malformed);
        },
    };
    match check_index(&doc, now) {
        Some(e) => Err(e),
        None => Ok(doc),
    }
}

/// Checks the bytes of a whitelist record: first that they are those that the index names, then
/// the signature and the structure. What is accepted was signed for the key of the service.
pub fn verify_whitelist(net: &AuthNetwork, service: &str, value: &[u8], entry: &ServiceEntry) -> (r: Result<
    WhitelistDoc,
    AuthError,
>)
    ensures
        match r {
            Ok(doc) => whitelist_verdict(*net, service@, value@, entry@) == Ok::<
                WhitelistView,
                AuthError,
            >(doc@),
            Err(e) => whitelist_verdict(*net, service@, value@, entry@) == Err::<
                WhitelistView,
                AuthError,
            >(e),
        },
        r is Ok ==> bound_to(value@, service_aad(*net, service@)),
{
    if value.len() as u64 != entry.length {
        return Err(AuthError::HashMismatch);
    }
    let digest = content_hash(value);
    if !same_bytes(digest.as_slice(), entry.hash.as_slice()) {
        return Err(AuthError::HashMismatch);
    }
    let key = match net.service_key(service) {
        Ok(k) => k,
        Err(e) => {
            return Err(e);
        },
    };
    let payload = match verify_payload(net.authority.as_slice(), key.as_str().as_bytes(), value) {
        Ok(p) => p,
        Err(e) => {
            return Err(e);
        },
    };
    let item = match decode_item(payload.as_slice()) {
        Ok(i) => i,
        Err(_) => {
            return Err(AuthError::Malformed);
        },
    };
    let doc = match whitelist_from(&item) {
        Some(d) => d,
        None => {
            return Err(AuthError::Malformed);
        },
    };
    if doc.members.len() > MAX_MEMBERS {
        return Err(AuthError::TooLarge);
    }
    Ok(doc)
}

proof fn field_names()
    ensures
        "name"@.len() == 4,
        "hash"@.len() == 4,
        "name"@ != "hash"@,
        "length"@.len() == 6,
        "version"@.len() == 7,
        "expires_at"@.len() == 10,
        "services"@.len() == 8,
        "members"@.len() == 7,
        "version"@ != "members"@,
{
    reveal_strlit("name");
    reveal_strlit("hash");
    reveal_strlit("length");
    reveal_strlit("version");
    reveal_strlit("expires_at");
    reveal_strlit("services");
    reveal_strlit("members");
    assert("name"@[0] != "hash"@[0]);
    assert("version"@[0] != "members"@[0]);
}

proof fn entry_read_back(e: EntryView)
    ensures
        entry_of(entry_item(e)) == Some(e),
        plain(entry_item(e), 6),
{
    let m = entry_members(e);
    field_names();
    assert forall|i: int| 0 <= i < m.len() implies name_key((#[trigger] m[i]).0) by {
        short_text_is_key(m[i].0->Text_0);
    }
    lookup_at(m, 0, "name"@);
    lookup_at(m, 1, "hash"@);
    lookup_at(m, 2, "length"@);
    assert forall|i: int| 0 <= i < m.len() implies plain((#[trigger] m[i]).0, 5) && plain(m[i].1, 5) by {}
}

proof fn index_writable(v: IndexView)
    ensures
        writable(Item::Record(index_members(v))),
{
    let m = index_members(v);
    let s = v.services.map_values(|e: EntryView| entry_item(e));
    assert forall|i: int| 0 <= i < s.len() implies plain(#[trigger] s[i], 6) by {
        entry_read_back(v.services[i]);
    }
    assert(plain(Item::Array(s), 7));
    assert forall|i: int| 0 <= i < m.len() implies plain((#[trigger] m[i]).0, 7) && plain(m[i].1, 7) by {}
}

/// The record of an index says that index.
pub proof fn index_read_back(v: IndexView)
    ensures
        index_of(Item::Record(index_members(v))) == Some(v),
{
    let m = index_members(v);
    field_names();
    assert forall|i: int| 0 <= i < m.len() implies name_key((#[trigger] m[i]).0) by {
        short_text_is_key(m[i].0->Text_0);
    }
    lookup_at(m, 0, "version"@);
    lookup_at(m, 1, "expires_at"@);
    lookup_at(m, 2, "services"@);
    let s = v.services.map_values(|e: EntryView| entry_item(e));
    assert forall|i: int| 0 <= i < s.len() implies entry_of(#[trigger] s[i]) == Some(v.services[i]) by {
        entry_read_back(v.services[i]);
    }
    assert(s.map_values(|i: Item| entry_of(i)->0) =~= v.services);
}

proof fn whitelist_writable(v: WhitelistView)
    ensures
        writable(Item::Record(whitelist_members(v))),
{
    let m = whitelist_members(v);
    let s = v.members.map_values(|t: Seq<char>| Item::Text(t));
    assert forall|i: int| 0 <= i < s.len() implies plain(#[trigger] s[i], 6) by {}
    assert(plain(Item::Array(s), 7));
    assert forall|i: int| 0 <= i < m.len() implies plain((#[trigger] m[i]).0, 7) && plain(m[i].1, 7) by {}
}

/// The record of a whitelist says that whitelist.
pub proof fn whitelist_read_back(v: WhitelistView)
    ensures
        whitelist_of(Item::Record(whitelist_members(v))) == Some(v),
{
    let m = whitelist_members(v);
    field_names();
    assert forall|i: int| 0 <= i < m.len() implies name_key((#[trigger] m[i]).0) by {
        short_text_is_key(m[i].0->Text_0);
    }
    lookup_at(m, 0, "version"@);
    lookup_at(m, 1, "members"@);
    let s = v.members.map_values(|t: Seq<char>| Item::Text(t));
    assert(s.map_values(|i: Item| as_text(i)->0) =~= v.members);
}

/// Whether less than `ttl_secs` seconds lie between two readings, in nanoseconds, of a clock that
/// does not run backwards.
pub open spec fn younger(fetched_at: u64, clock: u64, ttl_secs: u64) -> bool {
    (if clock > fetched_at {
        clock - fetched_at
    } else {
        0
    }) < ttl_secs * 1_000_000_000
}

fn is_younger(fetched_at: u64, clock: u64, ttl_secs: u64) -> (r: bool)
    ensures
        r == younger(fetched_at, clock, ttl_secs),
{
    let age: u64 = clock.saturating_sub(fetched_at);
    (age as u128) < ttl_secs as u128 * 1_000_000_000
}

/// An index that was checked and kept.
#[derive(Debug)]
pub struct CachedIndex {
    /// The entries by name.
    pub services: NameMap<ServiceEntry>,
    pub version: u64,
    pub expires_at: u64,
    /// When it was kept, in nanoseconds of a clock that does not run backwards.
    pub fetched_at: u64,
}

impl CachedIndex {
    /// Fresh: not past its time, and kept for less than the given seconds.
    pub open spec fn fresh(&self, now: u64, ttl_secs: u64, clock: u64) -> bool {
        now <= self.expires_at && younger(self.fetched_at, clock, ttl_secs)
    }

    /// Whether the index is fresh at the Unix time `now` and the clock reading `clock`.
    pub fn is_fresh(&self, now: u64, ttl_secs: u64, clock: u64) -> (r: bool)
        ensures
            r == self.fresh(now, ttl_secs, clock),
    {
        now <= self.expires_at && is_younger(self.fetched_at, clock, ttl_secs)
    }
}

/// A whitelist that was checked and kept.
#[derive(Debug)]
pub struct CachedWhitelist {
    /// The members' peer ids.
    pub members: NameMap<()>,
    pub version: u64,
    /// When it was kept, in nanoseconds of a clock that does not run backwards.
    pub fetched_at: u64,
}

impl CachedWhitelist {
    /// Whether it was kept for less than the given seconds. A whitelist has no time of its own.
    pub fn is_fresh(&self, ttl_secs: u64, clock: u64) -> (r: bool)
        ensures
            r == younger(self.fetched_at, clock, ttl_secs),
    {
        is_younger(self.fetched_at, clock, ttl_secs)
    }

    /// Whether a peer is a member.
    pub fn is_member(&self, peer: &str) -> (r: bool)
        ensures
            r == self.members@.dom().contains(peer@),
    {
        self.members.contains(peer)
    }
}

/// Entries by name; of two with one name the later counts.
pub open spec fn entry_map(s: Seq<ServiceEntry>) -> Map<Seq<char>, ServiceEntry>
    decreases s.len(),
{
    if s.len() == 0 {
        Map::empty()
    } else {
        entry_map(s.drop_last()).insert(s.last().name@, s.last())
    }
}

/// Whether every member is a peer id.
pub open spec fn members_parse(members: Seq<Seq<char>>) -> bool {
    forall|i: int| 0 <= i < members.len() ==> peer_id_of_text(#[trigger] members[i]) is Ok
}

/// Whether a peer id is that of some member.
pub open spec fn lists(members: Seq<Seq<char>>, peer: Seq<char>) -> bool {
    exists|i: int|
        0 <= i < members.len() && peer_id_of_text(#[trigger] members[i]) == Ok::<Seq<char>, Seq<char>>(
            peer,
        )
}

/// What was checked and kept. The protection against rollback lasts as long as the process.
#[derive(Debug)]
pub struct AuthCache {
    index: Option<CachedIndex>,
    whitelists: NameMap<CachedWhitelist>,
}

/// Whether nothing that is kept was replaced by a lower version, or lost.
pub open spec fn not_rolled_back(before: AuthCache, after: AuthCache) -> bool {
    &&& before.kept_index() matches Some(old) ==> (after.kept_index() matches Some(new) && new.version >= old.version)
    &&& forall|k: Seq<char>| #[trigger]
        before.kept_whitelists().dom().contains(k) ==> after.kept_whitelists().dom().contains(k)
            && after.kept_whitelists()[k].version >= before.kept_whitelists()[k].version
}

impl Default for AuthCache {
    /// The empty cache.
    fn default() -> (r: Self)
        ensures
            r.kept_index() is None,
            r.kept_whitelists() == Map::<Seq<char>, CachedWhitelist>::empty(),
    {
        AuthCache { index: None, whitelists: NameMap::new() }
    }
}

impl AuthCache {
    /// The index that is kept.
    pub closed spec fn kept_index(&self) -> Option<CachedIndex> {
        self.index
    }

    /// The whitelists that are kept, by service.
    pub closed spec fn kept_whitelists(&self) -> Map<Seq<char>, CachedWhitelist> {
        self.whitelists@
    }

    /// Keeps an index, unless its version is lower than that of the one that is kept.
    pub fn insert_index(&mut self, doc: IndexDoc, clock: u64) -> (r: Result<(), AuthError>)
        ensures
            match r {
                Ok(_) => (old(self).kept_index() matches Some(cur) ==> doc.version >= cur.version)
                    && final(self).kept_whitelists() == old(self).kept_whitelists()
                    && (final(self).kept_index() matches Some(new) && new.version == doc.version
                    && new.expires_at == doc.expires_at && new.fetched_at == clock
                    && new.services@ == entry_map(doc.services@)),
                Err(e) => e == AuthError::Rollback && (old(self).kept_index() matches Some(cur)
                    && doc.version < cur.version) && *final(self) == *old(self),
            },
            not_rolled_back(*old(self), *final(self)),
    {
        match &self.index {
            Some(cur) => if doc.version < cur.version {
                return Err(AuthError::Rollback);
            },
            None => {},
        }
        let mut services: NameMap<ServiceEntry> = NameMap::new();
        let ghost all = doc.services@;
        assert(all.subrange(0, 0) =~= Seq::<ServiceEntry>::empty());
        for e in it: doc.services
            invariant
                it.seq() == all,
                services@ == entry_map(all.subrange(0, it.index())),
        {
            proof {
                let upto = all.subrange(0, it.index() + 1);
                assert(upto.drop_last() =~= all.subrange(0, it.index()));
                assert(upto.last() == e);
            }
            services.insert(e.name.clone(), e);
        }
        assert(all.subrange(0, all.len() as int) =~= all);
        self.index = Some(
            CachedIndex {
                services,
                version: doc.version,
                expires_at: doc.expires_at,
                fetched_at: clock,
            },
        );
        Ok(())
    }

    /// Keeps a service's whitelist, unless the name is not allowed, the version is lower than that
    /// of the one that is kept, or a member is no peer id.
    pub fn insert_whitelist(&mut self, service: &str, doc: WhitelistDoc, clock: u64) -> (r: Result<(), AuthError>)
        ensures
            final(self).kept_index() == old(self).kept_index(),
            ({
                let kept = old(self).kept_whitelists();
                let lower = kept.dom().contains(service@) && doc.version < kept[service@].version;
                match r {
                    Ok(_) => service_name(service@) && !lower && members_parse(doc@.members) && ({
                        let new = final(self).kept_whitelists();
                        &&& new.dom().contains(service@)
                        &&& new == kept.insert(service@, new[service@])
                        &&& new[service@].version == doc.version
                        &&& new[service@].fetched_at == clock
                        &&& forall|p: Seq<char>| #[trigger] new[service@].members@.dom().contains(p) <==> lists(doc@.members, p)
                    }),
                    Err(e) => *final(self) == *old(self) && e == (if !service_name(service@) {
                        AuthError::InvalidName
                    } else if lower {
                        AuthError::Rollback
                    } else {
                        AuthError::Malformed
                    }) && (service_name(service@) && !lower ==> !members_parse(doc@.members)),
                }
            }),
            not_rolled_back(*old(self), *final(self)),
    {
        if !is_valid_service_name(service) {
            return Err(AuthError::InvalidName);
        }
        match self.whitelists.get(service) {
            Some(cur) => if doc.version < cur.version {
                return Err(AuthError::Rollback);
            },
            None => {},
        }
        let mut members: NameMap<()> = NameMap::new();
        let ghost all = doc@.members;
        let mut i: usize = 0;
        while i < doc.members.len()
            invariant
                i <= doc.members@.len(),
                all == doc@.members,
                all.len() == doc.members@.len(),
                *self == *old(self),
                service_name(service@),
                self.whitelists@.dom().contains(service@) ==> doc.version >= self.whitelists@[service@].version,
                forall|j: int| 0 <= j < i ==> peer_id_of_text(#[trigger] all[j]) is Ok,
                forall|p: Seq<char>| #[trigger] members@.dom().contains(p) <==> lists(all.subrange(0, i as int), p),
            decreases doc.members@.len() - i,
        {
            let ghost before = all.subrange(0, i as int);
            let ghost after = all.subrange(0, i + 1);
            assert(all[i as int] == doc.members@[i as int]@);
            match parse_peer_id(doc.members[i].as_str()) {
                Err(_) => {
                    assert(!(peer_id_of_text(all[i as int]) is Ok));
                    return Err(AuthError::Malformed);
                },
                Ok(p) => {
                    let ghost had = members@;
                    let ghost pv = p@;
                    members.insert(p, ());
                    proof {
                        assert forall|q: Seq<char>| #[trigger] members@.dom().contains(q) <==> lists(after, q) by {
                            if lists(before, q) {
                                let k = choose|k: int| 0 <= k < before.len() && peer_id_of_text(#[trigger] before[k]) == Ok::<Seq<char>, Seq<char>>(q);
                                assert(after[k] == before[k]);
                            }
                            if q == pv {
                                assert(after[i as int] == all[i as int]);
                            }
                            if lists(after, q) && q != pv {
                                let k = choose|k: int| 0 <= k < after.len() && peer_id_of_text(#[trigger] after[k]) == Ok::<Seq<char>, Seq<char>>(q);
                                assert(before[k] == after[k]);
                            }
                        }
                    }
                },
            }
            i += 1;
        }
        assert(all.subrange(0, all.len() as int) =~= all);
        self.whitelists.insert(
            service.to_owned(),
            CachedWhitelist { members, version: doc.version, fetched_at: clock },
        );
        assert(self.whitelists@ =~= old(self).whitelists@.insert(service@, self.whitelists@[service@]));
        Ok(())
    }

    /// The index that is kept, if it is fresh.
    pub fn fresh_index(&self, now: u64, ttl_secs: u64, clock: u64) -> (r: Option<&CachedIndex>)
        ensures
            r == (match self.kept_index() {
                Some(i) => if i.fresh(now, ttl_secs, clock) {
                    Some(&i)
                } else {
                    None
                },
                None => None,
            }),
    {
        match &self.index {
            Some(i) => if i.is_fresh(now, ttl_secs, clock) {
                Some(i)
            } else {
                None
            },
            None => None,
        }
    }

    /// A service's whitelist that is kept, if it is fresh.
    pub fn fresh_whitelist(&self, service: &str, ttl_secs: u64, clock: u64) -> (r: Option<&CachedWhitelist>)
        ensures
            r == (if self.kept_whitelists().dom().contains(service@) && younger(
                self.kept_whitelists()[service@].fetched_at,
                clock,
                ttl_secs,
            ) {
                Some(&self.kept_whitelists()[service@])
            } else {
                None
            }),
    {
        match self.whitelists.get(service) {
            Some(w) => if w.is_fresh(ttl_secs, clock) {
                Some(w)
            } else {
                None
            },
            None => None,
        }
    }

    /// The index that is kept, fresh or not.
    pub fn index(&self) -> (r: Option<&CachedIndex>)
        ensures
            r == (match self.kept_index() {
                Some(i) => Some(&i),
                None => None,
            }),
    {
        self.index.as_ref()
    }

    /// A service's whitelist that is kept, fresh or not.
    pub fn whitelist(&self, service: &str) -> (r: Option<&CachedWhitelist>)
        ensures
            r == (if self.kept_whitelists().dom().contains(service@) {
                Some(&self.kept_whitelists()[service@])
            } else {
                None
            }),
    {
        self.whitelists.get(service)
    }

    /// Forgets everything.
    pub fn clear(&mut self)
        ensures
            final(self).kept_index() is None,
            final(self).kept_whitelists() == Map::<Seq<char>, CachedWhitelist>::empty(),
    {
        self.index = None;
        self.whitelists.clear();
    }
}

/// The position of the last `/` of a key is the one before its last segment, so that a key of a
/// record tells the network's hash and the last segment.
proof fn key_parts(hash: Seq<char>, last: Seq<char>)
    requires
        forall|i: int| 0 <= i < hash.len() ==> name_char(#[trigger] hash[i]),
        forall|i: int| 0 <= i < last.len() ==> name_char(#[trigger] last[i]),
    ensures
        ({
            let k = record_key(hash, last);
            &&& k.len() == 11 + hash.len() + 1 + last.len()
            &&& k.subrange(11, 11 + hash.len() as int) == hash
            &&& k[11 + hash.len() as int] == '/'
            &&& k.subrange(12 + hash.len() as int, k.len() as int) == last
            &&& forall|i: int| 11 <= i < 11 + hash.len() ==> #[trigger] k[i] != '/'
        }),
{
    reveal_strlit("/oahd/auth");
    reveal_strlit("/");
    let k = record_key(hash, last);
    assert(k.subrange(11, 11 + hash.len() as int) =~= hash);
    assert(k.subrange(12 + hash.len() as int, k.len() as int) =~= last);
    assert forall|i: int| 11 <= i < 11 + hash.len() implies #[trigger] k[i] != '/' by {
        assert(k[i] == hash[i - 11]);
        assert(name_char(hash[i - 11]));
    }
}

/// Two records of one or two networks are stored under one key only if both the hash of the
/// network's name and the last segment are the same.
pub proof fn record_keys_differ(hash1: Seq<char>, last1: Seq<char>, hash2: Seq<char>, last2: Seq<char>)
    requires
        forall|i: int| 0 <= i < hash1.len() ==> name_char(#[trigger] hash1[i]),
        forall|i: int| 0 <= i < hash2.len() ==> name_char(#[trigger] hash2[i]),
        network_name(last1),
        network_name(last2),
        record_key(hash1, last1) == record_key(hash2, last2),
    ensures
        hash1 == hash2,
        last1 == last2,
{
    key_parts(hash1, last1);
    key_parts(hash2, last2);
    let k = record_key(hash1, last1);
    if hash1.len() < hash2.len() {
        assert(k[11 + hash1.len() as int] != '/');
    } else if hash2.len() < hash1.len() {
        assert(k[11 + hash2.len() as int] != '/');
    }
}

/// No service's whitelist is stored under the key of an index.
pub proof fn index_key_is_no_service_key(net: AuthNetwork, other: AuthNetwork, service: Seq<char>)
    requires
        net.net_hash_is_segment(),
        other.net_hash_is_segment(),
        service_name(service),
    ensures
        record_key(net.net_hash@, RESERVED_SERVICE@) != record_key(other.net_hash@, service),
{
    reveal_strlit("service");
    assert(network_name(RESERVED_SERVICE@));
    if record_key(net.net_hash@, RESERVED_SERVICE@) == record_key(other.net_hash@, service) {
        record_keys_differ(net.net_hash@, RESERVED_SERVICE@, other.net_hash@, service);
    }
}

/// The bytes of the keys to which signatures are bound differ for two records, unless both the hash
/// of the network's name and the last segment are the same.
pub proof fn bound_keys_differ(hash1: Seq<char>, last1: Seq<char>, hash2: Seq<char>, last2: Seq<char>)
    requires
        forall|i: int| 0 <= i < hash1.len() ==> name_char(#[trigger] hash1[i]),
        forall|i: int| 0 <= i < hash2.len() ==> name_char(#[trigger] hash2[i]),
        network_name(last1),
        network_name(last2),
        encode_utf8(record_key(hash1, last1)) == encode_utf8(record_key(hash2, last2)),
    ensures
        hash1 == hash2,
        last1 == last2,
{
    encode_utf8_decode_utf8(record_key(hash1, last1));
    encode_utf8_decode_utf8(record_key(hash2, last2));
    record_keys_differ(hash1, last1, hash2, last2);
}

/// An index that is past its time is neither accepted nor fresh, whatever its signature says and
/// however short it was kept.
pub proof fn expired_index_is_refused(net: AuthNetwork, value: Seq<u8>, now: u64, kept: CachedIndex, ttl_secs: u64, clock: u64)
    ensures
        index_verdict(net, value, now) matches Ok(v) ==> now <= v.expires_at,
        now > kept.expires_at ==> !kept.fresh(now, ttl_secs, clock),
{
}

/// A whitelist is accepted only if its bytes are those that the index names by hash and length,
/// and the authority signed them for the key of that service.
pub proof fn accepted_whitelist_is_the_indexed_one(net: AuthNetwork, service: Seq<char>, value: Seq<u8>, entry: EntryView)
    requires
        whitelist_verdict(net, service, value, entry) is Ok,
    ensures
        sha256_of(value) == entry.hash,
        value.len() == entry.length,
        service_name(service),
        cose_opened(value, service_aad(net, service)) matches Some(e) && ed25519_signed(net.authority@, e.signed, e.signature),
{
}

/// An index is accepted only if the authority signed it for the key of the index, every service
/// in it has an allowed name, and every hash in it has 32 bytes.
pub proof fn accepted_index_is_signed_and_sound(net: AuthNetwork, value: Seq<u8>, now: u64)
    requires
        index_verdict(net, value, now) is Ok,
    ensures
        value.len() <= MAX_DOC_BYTES,
        cose_opened(value, index_aad(net)) matches Some(e) && ed25519_signed(net.authority@, e.signed, e.signature),
        index_verdict(net, value, now)->Ok_0.services.len() <= MAX_SERVICES,
        forall|i: int| 0 <= i < index_verdict(net, value, now)->Ok_0.services.len() ==> service_name(
            (#[trigger] index_verdict(net, value, now)->Ok_0.services[i]).name,
        ) && index_verdict(net, value, now)->Ok_0.services[i].hash.len() == 32,
{
    let s = index_verdict(net, value, now)->Ok_0.services;
    assert forall|i: int| 0 <= i < s.len() implies service_name((#[trigger] s[i]).name) && s[i].hash.len() == 32 by {
        sound_entries(s, i);
    }
}

proof fn sound_entries(s: Seq<EntryView>, i: int)
    requires
        entries_fault(s) is None,
        0 <= i < s.len(),
    ensures
        service_name(s[i].name),
        s[i].hash.len() == 32,
    decreases s.len(),
{
    if i > 0 {
        sound_entries(s.drop_first(), i - 1);
        assert(s.drop_first()[i - 1] == s[i]);
    }
}

/// Names: a network's has 1 to 64 letters, digits, `_` and `-` of ASCII, and every such text is one; a
/// service's is any of these but "service".
pub proof fn names_are_short_and_plain(s: Seq<char>)
    ensures
        network_name(s) <==> 1 <= s.len() <= 64 && forall|i: int|
            0 <= i < s.len() ==> ('a' <= #[trigger] s[i] <= 'z' || 'A' <= s[i] <= 'Z' || '0' <= s[i] <= '9' || s[i] == '_'
                || s[i] == '-'),
        service_name(s) <==> network_name(s) && s != "service"@,
{
    if network_name(s) {
        assert forall|i: int| 0 <= i < s.len() implies ('a' <= #[trigger] s[i] <= 'z' || 'A' <= s[i] <= 'Z' || '0' <= s[i]
            <= '9' || s[i] == '_' || s[i] == '-') by {
            assert(name_char(s[i]));
        }
    }
}

proof fn first_fault(s: Seq<EntryView>)
    ensures
        entries_fault(s) is None <==> forall|i: int|
            0 <= i < s.len() ==> service_name((#[trigger] s[i]).name) && s[i].hash.len() == 32,
        forall|k: int|
            0 <= k < s.len() && (forall|i: int| 0 <= i < k ==> service_name((#[trigger] s[i]).name) && s[i].hash.len() == 32)
                ==> (!service_name((#[trigger] s[k]).name) ==> entries_fault(s) == Some(AuthError::InvalidName)) && (
            service_name(s[k].name) && s[k].hash.len() != 32 ==> entries_fault(s) == Some(AuthError::Malformed)),
        entries_fault(s) is None || entries_fault(s) == Some(AuthError::InvalidName) || entries_fault(s) == Some(
            AuthError::Malformed,
        ),
    decreases s.len(),
{
    if s.len() > 0 {
        let rest = s.drop_first();
        first_fault(rest);
        assert forall|i: int| 0 <= i < rest.len() implies #[trigger] rest[i] == s[i + 1] by {}
        if forall|i: int| 0 <= i < s.len() ==> service_name((#[trigger] s[i]).name) && s[i].hash.len() == 32 {
            assert(service_name(s[0].name) && s[0].hash.len() == 32);
            assert forall|i: int| 0 <= i < rest.len() implies service_name((#[trigger] rest[i]).name) && rest[i].hash.len()
                == 32 by {
                assert(service_name(s[i + 1].name));
            }
        }
        if entries_fault(s) is None {
            assert forall|i: int| 0 <= i < s.len() implies service_name((#[trigger] s[i]).name) && s[i].hash.len() == 32 by {
                if i > 0 {
                    assert(rest[i - 1] == s[i]);
                }
            }
        }
        assert forall|k: int|
            0 <= k < s.len() && (forall|i: int| 0 <= i < k ==> service_name((#[trigger] s[i]).name) && s[i].hash.len() == 32) implies (
        !service_name((#[trigger] s[k]).name) ==> entries_fault(s) == Some(AuthError::InvalidName)) && (service_name(s[k].name)
            && s[k].hash.len() != 32 ==> entries_fault(s) == Some(AuthError::Malformed)) by {
            if k > 0 {
                assert(service_name(s[0].name) && s[0].hash.len() == 32);
                assert forall|i: int| 0 <= i < k - 1 implies service_name((#[trigger] rest[i]).name) && rest[i].hash.len() == 32 by {
                    assert(service_name(s[i + 1].name));
                }
                assert(rest[k - 1] == s[k]);
            }
        }
    }
}

/// An index has no fault exactly when it lists at most 10000 services, each with an allowed name and a
/// hash of 32 bytes, and its time has not passed. It is too large exactly when it lists more; the first
/// entry that is wrong decides how it is refused otherwise; and only a sound one is refused as expired.
pub proof fn index_is_sound_or_says_why(v: IndexView, now: u64)
    ensures
        ({
            let sound = forall|i: int|
                0 <= i < v.services.len() ==> service_name((#[trigger] v.services[i]).name) && v.services[i].hash.len() == 32;
            &&& index_fault(v, now) is None <==> v.services.len() <= 10_000 && sound && now <= v.expires_at
            &&& index_fault(v, now) == Some(AuthError::TooLarge) <==> v.services.len() > 10_000
            &&& index_fault(v, now) == Some(AuthError::Expired) <==> v.services.len() <= 10_000 && sound && now > v.expires_at
        }),
        forall|k: int|
            v.services.len() <= 10_000 && 0 <= k < v.services.len() && (forall|i: int|
                0 <= i < k ==> service_name((#[trigger] v.services[i]).name) && v.services[i].hash.len() == 32) ==> (
            !service_name((#[trigger] v.services[k]).name) ==> index_fault(v, now) == Some(AuthError::InvalidName)) && (
            service_name(v.services[k].name) && v.services[k].hash.len() != 32 ==> index_fault(v, now) == Some(
                AuthError::Malformed,
            )),
{
    first_fault(v.services);
}

/// A record's payload is handed out exactly when the record has at most 1048576 bytes and is an envelope
/// that names EdDSA, that the authority signed for the record's key, and that holds the payload. More
/// bytes are too large, and an envelope with another algorithm or without such a signature is not signed.
pub proof fn payload_is_given_exactly_when_signed(authority: Seq<u8>, aad: Seq<u8>, value: Seq<u8>, e: EnvelopeView)
    ensures
        payload_verdict(authority, aad, value) == Err::<Seq<u8>, AuthError>(AuthError::TooLarge) <==> value.len() > 1_048_576,
        value.len() <= 1_048_576 && !shallow_value(value) ==> payload_verdict(authority, aad, value) == Err::<
            Seq<u8>,
            AuthError,
        >(AuthError::Cose),
        value.len() <= 1_048_576 && shallow_value(value) && cose_opened(value, aad) is None ==> payload_verdict(
            authority,
            aad,
            value,
        ) == Err::<Seq<u8>, AuthError>(AuthError::Cose),
        value.len() <= 1_048_576 && shallow_value(value) && cose_opened(value, aad) == Some(e) ==> {
            &&& payload_verdict(authority, aad, value) == Err::<Seq<u8>, AuthError>(AuthError::InvalidSignature) <==> !(
            e.alg == Some(-8i64) && ed25519_signed(authority, e.signed, e.signature))
            &&& e.alg == Some(-8i64) && ed25519_signed(authority, e.signed, e.signature) ==> (e.payload matches Some(p)
                ==> payload_verdict(authority, aad, value) == Ok::<Seq<u8>, AuthError>(p)) && (e.payload is None
                ==> payload_verdict(authority, aad, value) == Err::<Seq<u8>, AuthError>(AuthError::Malformed))
        },
{
}

/// The key of a record is `/oahd/auth/<hash of the network's name>/<last>`, with `service` as the last
/// segment of the index's.
pub proof fn keys_are_paths(net: AuthNetwork, service: Seq<char>)
    ensures
        record_key(net.net_hash@, service) == "/oahd/auth/"@ + net.net_hash@ + "/"@ + service,
        index_aad(net) == encode_utf8("/oahd/auth/"@ + net.net_hash@ + "/service"@),
        service_aad(net, service) == encode_utf8("/oahd/auth/"@ + net.net_hash@ + "/"@ + service),
{
    reveal_strlit("/oahd/auth");
    reveal_strlit("/oahd/auth/");
    reveal_strlit("/");
    reveal_strlit("service");
    reveal_strlit("/service");
    assert(record_key(net.net_hash@, service) =~= "/oahd/auth/"@ + net.net_hash@ + "/"@ + service);
    assert(record_key(net.net_hash@, "service"@) =~= "/oahd/auth/"@ + net.net_hash@ + "/service"@);
}

/// An index that the authority signed for the key of the index is accepted, and accepted as what it
/// says, when it lists at most 10000 services with allowed names and hashes of 32 bytes and its time has
/// not passed.
pub proof fn signed_index_is_accepted(net: AuthNetwork, value: Seq<u8>, e: EnvelopeView, payload: Seq<u8>, v: IndexView, now: u64)
    requires
        value.len() <= 1_048_576,
        shallow_value(value),
        cose_opened(value, encode_utf8("/oahd/auth/"@ + net.net_hash@ + "/service"@)) == Some(e),
        e.alg == Some(-8i64),
        ed25519_signed(net.authority@, e.signed, e.signature),
        e.payload == Some(payload),
        cbor_decoding(payload) == Some(
            Item::Record(
                seq![
                    (Item::Text("version"@), Item::Int(v.version as int)),
                    (Item::Text("expires_at"@), Item::Int(v.expires_at as int)),
                    (
                        Item::Text("services"@),
                        Item::Array(
                            v.services.map_values(
                                |s: EntryView|
                                    Item::Record(
                                        seq![
                                            (Item::Text("name"@), Item::Text(s.name)),
                                            (Item::Text("hash"@), Item::Bytes(s.hash)),
                                            (Item::Text("length"@), Item::Int(s.length as int)),
                                        ],
                                    ),
                            ),
                        ),
                    ),
                ],
            ),
        ),
        v.services.len() <= 10_000,
        forall|i: int| 0 <= i < v.services.len() ==> service_name((#[trigger] v.services[i]).name) && v.services[i].hash.len() == 32,
        now <= v.expires_at,
    ensures
        index_verdict(net, value, now) == Ok::<IndexView, AuthError>(v),
{
    keys_are_paths(net, Seq::empty());
    payload_is_given_exactly_when_signed(net.authority@, index_aad(net), value, e);
    index_is_sound_or_says_why(v, now);
    index_read_back(v);
    let a = v.services.map_values(|s: EntryView| entry_item(s));
    let b = v.services.map_values(
        |s: EntryView|
            Item::Record(
                seq![
                    (Item::Text("name"@), Item::Text(s.name)),
                    (Item::Text("hash"@), Item::Bytes(s.hash)),
                    (Item::Text("length"@), Item::Int(s.length as int)),
                ],
            ),
    );
    assert(a =~= b);
}

/// A whitelist of at most 100000 members that the authority signed for the key of a service, and whose
/// bytes the entry names by length and hash, is accepted for that service as what it says. Other bytes
/// than the named ones are refused as such, whoever signed them.
pub proof fn signed_whitelist_is_accepted(
    net: AuthNetwork,
    service: Seq<char>,
    value: Seq<u8>,
    entry: EntryView,
    e: EnvelopeView,
    payload: Seq<u8>,
    v: WhitelistView,
)
    ensures
        whitelist_verdict(net, service, value, entry) == Err::<WhitelistView, AuthError>(AuthError::HashMismatch) <==> (
        value.len() != entry.length || sha256_of(value) != entry.hash),
        value.len() == entry.length && sha256_of(value) == entry.hash && !service_name(service) ==> whitelist_verdict(
            net,
            service,
            value,
            entry,
        ) == Err::<WhitelistView, AuthError>(AuthError::InvalidName),
        value.len() == entry.length && sha256_of(value) == entry.hash && service_name(service) && value.len() <= 1_048_576
            && shallow_value(value) && cose_opened(value, encode_utf8("/oahd/auth/"@ + net.net_hash@ + "/"@ + service))
            == Some(e) ==> {
            &&& e.alg != Some(-8i64) || !ed25519_signed(net.authority@, e.signed, e.signature) ==> whitelist_verdict(
                net,
                service,
                value,
                entry,
            ) == Err::<WhitelistView, AuthError>(AuthError::InvalidSignature)
            &&& e.alg == Some(-8i64) && ed25519_signed(net.authority@, e.signed, e.signature) && e.payload == Some(payload)
                && cbor_decoding(payload) == Some(
                Item::Record(
                    seq![
                        (Item::Text("version"@), Item::Int(v.version as int)),
                        (
                            Item::Text("members"@),
                            Item::Array(v.members.map_values(|t: Seq<char>| Item::Text(t))),
                        ),
                    ],
                ),
            ) ==> {
                &&& v.members.len() <= 100_000 ==> whitelist_verdict(net, service, value, entry) == Ok::<
                    WhitelistView,
                    AuthError,
                >(v)
                &&& v.members.len() > 100_000 ==> whitelist_verdict(net, service, value, entry) == Err::<
                    WhitelistView,
                    AuthError,
                >(AuthError::TooLarge)
            }
        },
{
    keys_are_paths(net, service);
    payload_is_given_exactly_when_signed(net.authority@, service_aad(net, service), value, e);
    whitelist_read_back(v);
}

/// What was kept at a reading of the clock counts for less than the given seconds from then on, and an
/// index only until its time has passed too.
pub proof fn kept_counts_for_its_seconds(index: CachedIndex, fetched_at: u64, now: u64, ttl_secs: u64, clock: u64)
    ensures
        younger(fetched_at, clock, ttl_secs) <==> ttl_secs > 0 && clock < fetched_at + ttl_secs * 1_000_000_000,
        index.fresh(now, ttl_secs, clock) <==> now <= index.expires_at && ttl_secs > 0 && clock < index.fetched_at + ttl_secs
            * 1_000_000_000,
{
}

/// The entries of an index by name are exactly its entries; of several with one name the last counts.
pub proof fn entries_are_kept_by_name(s: Seq<ServiceEntry>)
    ensures
        forall|k: Seq<char>| #[trigger] entry_map(s).dom().contains(k) <==> exists|i: int|
            0 <= i < s.len() && (#[trigger] s[i]).name@ == k,
        forall|i: int|
            0 <= i < s.len() && (forall|j: int| i < j < s.len() ==> (#[trigger] s[j]).name@ != s[i].name@) ==> entry_map(
                s,
            )[(#[trigger] s[i]).name@] == s[i],
    decreases s.len(),
{
    if s.len() > 0 {
        let rest = s.drop_last();
        entries_are_kept_by_name(rest);
        assert forall|k: Seq<char>| #[trigger] entry_map(s).dom().contains(k) <==> exists|i: int|
            0 <= i < s.len() && (#[trigger] s[i]).name@ == k by {
            if entry_map(rest).dom().contains(k) {
                let i = choose|i: int| 0 <= i < rest.len() && (#[trigger] rest[i]).name@ == k;
                assert(s[i].name@ == k);
            }
            if exists|i: int| 0 <= i < s.len() && (#[trigger] s[i]).name@ == k {
                let i = choose|i: int| 0 <= i < s.len() && (#[trigger] s[i]).name@ == k;
                if i < rest.len() {
                    assert(rest[i].name@ == k);
                }
            }
            assert(s[s.len() - 1] == s.last());
        }
        assert forall|i: int|
            0 <= i < s.len() && (forall|j: int| i < j < s.len() ==> (#[trigger] s[j]).name@ != s[i].name@) implies entry_map(
            s,
        )[(#[trigger] s[i]).name@] == s[i] by {
            if i < rest.len() {
                assert(s[s.len() - 1].name@ != s[i].name@);
                assert(rest[i] == s[i]);
                assert forall|j: int| i < j < rest.len() implies (#[trigger] rest[j]).name@ != rest[i].name@ by {
                    assert(s[j].name@ != s[i].name@);
                }
            }
        }
    }
}

/// A whitelist has a peer exactly when one of its texts reads as that peer, and it can be kept exactly
/// when each of its texts reads as some peer.
pub proof fn members_are_peers(members: Seq<Seq<char>>, peer: Seq<char>)
    ensures
        lists(members, peer) <==> exists|i: int|
            0 <= i < members.len() && peer_id_of_text(#[trigger] members[i]) == Ok::<Seq<char>, Seq<char>>(peer),
        members_parse(members) <==> !exists|i: int| 0 <= i < members.len() && peer_id_of_text(#[trigger] members[i]) is Err,
{
    if members_parse(members) {
        assert forall|i: int| 0 <= i < members.len() implies !(peer_id_of_text(#[trigger] members[i]) is Err) by {}
    } else {
        let i = choose|i: int| 0 <= i < members.len() && !(peer_id_of_text(#[trigger] members[i]) is Ok);
        assert(peer_id_of_text(members[i]) is Err);
    }
}

/// An authority is the bytes of a base64 text that are an ed25519 key, and a network's hash is the
/// URL-safe base64 of the SHA-256 of its name.
pub proof fn authority_is_a_key(b64: Seq<char>, key: Seq<u8>, name: Seq<char>)
    ensures
        authority_of(b64) == Some(key) <==> base64_decoding(b64) == Ok::<Seq<u8>, Seq<char>>(key) && ed25519_key(key),
        net_hash_of(name) == base64url_of(sha256_of(encode_utf8(name))),
{
}

/// Which items are documents: a record with names for keys, tags around it or not, in which an entry has
/// a name, a hash and a length, an index a version, an end and entries, and a whitelist a version and
/// texts for members. Each says just that.
pub proof fn documents_say_their_members(
    item: Item,
    m: Seq<(Item, Item)>,
    e: EntryView,
    v: IndexView,
    w: WhitelistView,
)
    ensures
        !(bare(item) is Record) ==> entry_of(item) is None && index_of(item) is None && whitelist_of(item) is None,
        bare(item) == Item::Record(m) ==> {
            &&& entry_of(item) == Some(e) <==> name_keys(m) && text_field(m, "name"@) == Some(e.name) && bytes_field(m, "hash"@)
                == Some(e.hash) && uint_field(m, "length"@) == Some(e.length)
            &&& index_of(item) == Some(v) <==> name_keys(m) && uint_field(m, "version"@) == Some(v.version) && uint_field(
                m,
                "expires_at"@,
            ) == Some(v.expires_at) && (list_field(m, "services"@) matches Some(s) && s.len() == v.services.len() && forall|
                i: int,
            |
                0 <= i < s.len() ==> entry_of(#[trigger] s[i]) == Some(v.services[i]))
            &&& whitelist_of(item) == Some(w) <==> name_keys(m) && uint_field(m, "version"@) == Some(w.version) && (list_field(
                m,
                "members"@,
            ) matches Some(s) && s.len() == w.members.len() && forall|i: int|
                0 <= i < s.len() ==> as_text(#[trigger] s[i]) == Some(w.members[i]))
        },
{
    if bare(item) == Item::Record(m) {
        if let Some(s) = list_field(m, "services"@) {
            let all = s.map_values(|i: Item| entry_of(i)->0);
            if s.len() == v.services.len() && forall|i: int| 0 <= i < s.len() ==> entry_of(#[trigger] s[i]) == Some(v.services[i]) {
                assert(all =~= v.services);
            }
            if entries_of(s) == Some(v.services) {
                assert forall|i: int| 0 <= i < s.len() implies entry_of(#[trigger] s[i]) == Some(v.services[i]) by {
                    assert(all[i] == v.services[i]);
                }
            }
        }
        if let Some(s) = list_field(m, "members"@) {
            let all = s.map_values(|i: Item| as_text(i)->0);
            if s.len() == w.members.len() && forall|i: int| 0 <= i < s.len() ==> as_text(#[trigger] s[i]) == Some(w.members[i]) {
                assert(all =~= w.members);
            }
            if texts_of(s) == Some(w.members) {
                assert forall|i: int| 0 <= i < s.len() implies as_text(#[trigger] s[i]) == Some(w.members[i]) by {
                    assert(all[i] == w.members[i]);
                }
            }
        }
    }
}

/// What decides on a record: first whether its payload was signed for its key, then whether that is a
/// document, then whether the document is sound.
pub proof fn verdicts_follow_the_record(net: AuthNetwork, service: Seq<char>, value: Seq<u8>, entry: EntryView, now: u64, p: Seq<u8>)
    ensures
        payload_verdict(net.authority@, encode_utf8("/oahd/auth/"@ + net.net_hash@ + "/service"@), value) matches Err(e)
            ==> index_verdict(net, value, now) == Err::<IndexView, AuthError>(e),
        payload_verdict(net.authority@, encode_utf8("/oahd/auth/"@ + net.net_hash@ + "/service"@), value) == Ok::<
            Seq<u8>,
            AuthError,
        >(p) ==> {
            &&& cbor_decoding(p) is None ==> index_verdict(net, value, now) == Err::<IndexView, AuthError>(AuthError::Malformed)
            &&& (cbor_decoding(p) matches Some(item) ==> (index_of(item) is None ==> index_verdict(net, value, now) == Err::<
                IndexView,
                AuthError,
            >(AuthError::Malformed)) && (index_of(item) matches Some(v) ==> (index_fault(v, now) is None ==> index_verdict(
                net,
                value,
                now,
            ) == Ok::<IndexView, AuthError>(v)) && (index_fault(v, now) matches Some(e) ==> index_verdict(net, value, now)
                == Err::<IndexView, AuthError>(e))))
        },
        value.len() == entry.length && sha256_of(value) == entry.hash && service_name(service) ==> {
            let verdict = payload_verdict(
                net.authority@,
                encode_utf8("/oahd/auth/"@ + net.net_hash@ + "/"@ + service),
                value,
            );
            &&& (verdict matches Err(e) ==> whitelist_verdict(net, service, value, entry) == Err::<WhitelistView, AuthError>(e))
            &&& (verdict == Ok::<Seq<u8>, AuthError>(p) && cbor_decoding(p) is None ==> whitelist_verdict(
                net,
                service,
                value,
                entry,
            ) == Err::<WhitelistView, AuthError>(AuthError::Malformed))
            &&& (verdict == Ok::<Seq<u8>, AuthError>(p) ==> (cbor_decoding(p) matches Some(item) ==> (whitelist_of(item) is None
                ==> whitelist_verdict(net, service, value, entry) == Err::<WhitelistView, AuthError>(AuthError::Malformed)) && (
            whitelist_of(item) matches Some(v) ==> whitelist_verdict(net, service, value, entry) == (if v.members.len()
                <= 100_000 {
                Ok::<WhitelistView, AuthError>(v)
            } else {
                Err(AuthError::TooLarge)
            }))))
        },
{
    keys_are_paths(net, service);
}

/// A payload is sealed as an EdDSA envelope with the signature of the key pair on it; and documents are
/// written with these members, in this order.
pub proof fn documents_are_sealed(keypair: Seq<u8>, aad: Seq<u8>, payload: Seq<u8>, v: IndexView, w: WhitelistView, i: int)
    ensures
        sealed_payload(keypair, aad, payload) == (match identity_signature(keypair, cose_signed_data(-8i64, aad, payload)->0) {
            Some(sig) => cose_sealed(-8i64, payload, sig),
            None => None,
        }),
        index_payload(v) == cbor_encoding(
            Item::Record(
                seq![
                    (Item::Text("version"@), Item::Int(v.version as int)),
                    (Item::Text("expires_at"@), Item::Int(v.expires_at as int)),
                    (Item::Text("services"@), Item::Array(v.services.map_values(|e: EntryView| entry_item(e)))),
                ],
            ),
        ),
        0 <= i < v.services.len() ==> entry_item(v.services[i]) == Item::Record(
            seq![
                (Item::Text("name"@), Item::Text(v.services[i].name)),
                (Item::Text("hash"@), Item::Bytes(v.services[i].hash)),
                (Item::Text("length"@), Item::Int(v.services[i].length as int)),
            ],
        ),
        whitelist_payload(w) == cbor_encoding(
            Item::Record(
                seq![
                    (Item::Text("version"@), Item::Int(w.version as int)),
                    (Item::Text("members"@), Item::Array(w.members.map_values(|t: Seq<char>| Item::Text(t)))),
                ],
            ),
        ),
{
}

/// What the errors say.
pub proof fn auth_errors_say_why()
    ensures
        auth_error_text(AuthError::Cose) == "cose envelope error"@,
        auth_error_text(AuthError::Malformed) == "malformed auth document"@,
        auth_error_text(AuthError::InvalidAuthority) == "invalid authority public key"@,
        auth_error_text(AuthError::InvalidSignature) == "signature verification failed"@,
        auth_error_text(AuthError::Expired) == "auth document expired"@,
        auth_error_text(AuthError::Rollback) == "auth document version rollback"@,
        auth_error_text(AuthError::HashMismatch) == "whitelist hash/length mismatch"@,
        auth_error_text(AuthError::NotInIndex) == "service not listed in auth index"@,
        auth_error_text(AuthError::TooLarge) == "auth document too large"@,
        auth_error_text(AuthError::InvalidName) == "invalid network or service name"@,
{
}

/// A signature of a key pair holds for an authority and a key exactly when the authority's key accepts it
/// on what it covers there.
pub proof fn signatures_hold_for_their_key(
    keypair: Seq<u8>,
    net: AuthNetwork,
    service: Seq<char>,
    v: IndexView,
    w: WhitelistView,
    authority: Seq<u8>,
    net_hash: Seq<char>,
    other: Seq<char>,
)
    ensures
        index_signature_holds(keypair, net, v, authority, net_hash) <==> ed25519_signed(
            authority,
            cose_signed_data(-8i64, encode_utf8(record_key(net_hash, "service"@)), index_payload(v))->0,
            identity_signature(
                keypair,
                cose_signed_data(-8i64, encode_utf8(record_key(net.net_hash@, "service"@)), index_payload(v))->0,
            )->0,
        ),
        whitelist_signature_holds(keypair, net, service, w, authority, net_hash, other) <==> ed25519_signed(
            authority,
            cose_signed_data(-8i64, encode_utf8(record_key(net_hash, other)), whitelist_payload(w))->0,
            identity_signature(
                keypair,
                cose_signed_data(-8i64, encode_utf8(record_key(net.net_hash@, service)), whitelist_payload(w))->0,
            )->0,
        ),
{
}

/// What is not rolled back: whatever was kept is still there, in the same version or a later one.
pub proof fn versions_do_not_fall(before: AuthCache, after: AuthCache, k: Seq<char>)
    requires
        not_rolled_back(before, after),
    ensures
        before.kept_index() is Some ==> after.kept_index() is Some && after.kept_index()->0.version
            >= before.kept_index()->0.version,
        before.kept_whitelists().dom().contains(k) ==> after.kept_whitelists().dom().contains(k)
            && after.kept_whitelists()[k].version >= before.kept_whitelists()[k].version,
{
}

/// What documents say is what their fields hold, entry by entry and member by member.
pub proof fn documents_say_their_fields(e: ServiceEntry, d: IndexDoc, w: WhitelistDoc)
    ensures
        e@ == (EntryView { name: e.name@, hash: e.hash@, length: e.length }),
        d@.version == d.version && d@.expires_at == d.expires_at && d@.services.len() == d.services@.len(),
        forall|i: int| 0 <= i < d.services@.len() ==> #[trigger] d@.services[i] == d.services@[i]@,
        w@.version == w.version && w@.members.len() == w.members@.len(),
        forall|i: int| 0 <= i < w.members@.len() ==> #[trigger] w@.members[i] == w.members@[i]@,
{
}

} // verus!
