//! CBOR items as plain data, and their encoding.
//!
//! Bytes are turned into items and back by `ciborium`; this module holds the items, and reads
//! records (maps whose keys are names) out of them.

use crate::bytes::same_bytes;
use crate::text::same_text;
use ciborium::Value;
use vstd::prelude::*;
use vstd::string::*;
use vstd::utf8::encode_utf8;

verus! {

/// What a CBOR item says.
pub enum Item {
    Int(int),
    Bytes(Seq<u8>),
    Text(Seq<char>),
    Bool(bool),
    Null,
    Array(Seq<Item>),
    Record(Seq<(Item, Item)>),
    /// An item with a tag.
    Tagged(u64, Box<Item>),
    /// A floating-point number: no record of this project holds one.
    Other,
}

/// A CBOR item.
#[derive(Debug)]
pub enum Cbor {
    Int(i128),
    Bytes(Vec<u8>),
    Text(String),
    Bool(bool),
    Null,
    Array(Vec<Cbor>),
    Record(Vec<(Cbor, Cbor)>),
    Tagged(u64, Box<Cbor>),
    Other,
}

impl Cbor {
    pub open spec fn view(&self) -> Item
        decreases self,
    {
        match self {
            Cbor::Int(n) => Item::Int(*n as int),
            Cbor::Bytes(b) => Item::Bytes(b@),
            Cbor::Text(t) => Item::Text(t@),
            Cbor::Bool(b) => Item::Bool(*b),
            Cbor::Null => Item::Null,
            Cbor::Array(v) => Item::Array(
                Seq::new(
                    v@.len(),
                    |i: int|
                        if 0 <= i < v@.len() {
                            v@[i].view()
                        } else {
                            Item::Null
                        },
                ),
            ),
            Cbor::Record(v) => Item::Record(
                Seq::new(
                    v@.len(),
                    |i: int|
                        if 0 <= i < v@.len() {
                            (v@[i].0.view(), v@[i].1.view())
                        } else {
                            (Item::Null, Item::Null)
                        },
                ),
            ),
            Cbor::Tagged(tag, c) => Item::Tagged(*tag, Box::new(c.view())),
            Cbor::Other => Item::Other,
        }
    }
}

/// An item without its tags.
pub open spec fn bare(item: Item) -> Item
    decreases item,
{
    match item {
        Item::Tagged(_, inner) => bare(*inner),
        _ => item,
    }
}

/// An item without its tags.
pub fn bare_of<'a>(c: &'a Cbor) -> (r: &'a Cbor)
    ensures
        r@ == bare(c@),
        !(r is Tagged),
    decreases c,
{
    match c {
        Cbor::Tagged(_, inner) => bare_of(inner),
        _ => c,
    }
}

/// Whether no tag stands in an item.
pub open spec fn untagged(item: Item) -> bool
    decreases item,
{
    match item {
        Item::Tagged(_, _) => false,
        Item::Array(s) => forall|i: int| 0 <= i < s.len() ==> untagged(#[trigger] s[i]),
        Item::Record(s) => forall|i: int|
            0 <= i < s.len() ==> untagged((#[trigger] s[i]).0) && untagged(s[i].1),
        _ => true,
    }
}

/// Where no tag stands in an item, none stands in its parts.
proof fn part_untagged(item: Item, i: int)
    requires
        untagged(item),
    ensures
        item matches Item::Array(s) ==> (0 <= i < s.len() ==> untagged(s[i])),
        item matches Item::Record(s) ==> (0 <= i < s.len() ==> untagged(s[i].0) && untagged(s[i].1)),
{
}

/// Whether no tag stands in an item.
pub fn is_untagged(c: &Cbor) -> (r: bool)
    ensures
        r == untagged(c@),
    decreases c,
{
    proof {
        record_view(*c);
    }
    match c {
        Cbor::Tagged(_, _) => false,
        Cbor::Array(v) => are_untagged(v),
        Cbor::Record(v) => members_untagged(v),
        _ => true,
    }
}

fn are_untagged(v: &Vec<Cbor>) -> (r: bool)
    ensures
        r == untagged(Item::Array(element_views(v@))),
    decreases v,
{
    let ghost all = element_views(v@);
    let mut i: usize = 0;
    while i < v.len()
        invariant
            i <= v@.len(),
            all == element_views(v@),
            forall|j: int| 0 <= j < i ==> untagged(#[trigger] all[j]),
        decreases v@.len() - i,
    {
        assert(all[i as int] == v@[i as int]@);
        if !is_untagged(&v[i]) {
            proof {
                if untagged(Item::Array(all)) {
                    part_untagged(Item::Array(all), i as int);
                }
            }
            return false;
        }
        i += 1;
    }
    true
}

fn members_untagged(v: &Vec<(Cbor, Cbor)>) -> (r: bool)
    ensures
        r == untagged(Item::Record(member_views(v@))),
    decreases v,
{
    let ghost all = member_views(v@);
    let mut i: usize = 0;
    while i < v.len()
        invariant
            i <= v@.len(),
            all == member_views(v@),
            forall|j: int| 0 <= j < i ==> untagged((#[trigger] all[j]).0) && untagged(all[j].1),
        decreases v@.len() - i,
    {
        assert(all[i as int] == (v@[i as int].0@, v@[i as int].1@));
        if !is_untagged(&v[i].0) || !is_untagged(&v[i].1) {
            proof {
                if untagged(Item::Record(all)) {
                    part_untagged(Item::Record(all), i as int);
                }
            }
            return false;
        }
        i += 1;
    }
    true
}

/// What can be written has no tag.
pub proof fn plain_is_untagged(item: Item, depth: nat)
    requires
        plain(item, depth),
    ensures
        untagged(item),
    decreases depth,
{
    match item {
        Item::Array(s) => {
            assert forall|i: int| 0 <= i < s.len() implies untagged(#[trigger] s[i]) by {
                plain_is_untagged(s[i], (depth - 1) as nat);
            }
        },
        Item::Record(s) => {
            assert forall|i: int| 0 <= i < s.len() implies untagged((#[trigger] s[i]).0) && untagged(s[i].1) by {
                plain_is_untagged(s[i].0, (depth - 1) as nat);
                plain_is_untagged(s[i].1, (depth - 1) as nat);
            }
        },
        _ => {},
    }
}

/// Whether an item is made of the kinds that records here use (unsigned 64-bit numbers, byte
/// strings, texts, truth values, null, arrays and maps), nested at most `depth` deep.
pub open spec fn plain(item: Item, depth: nat) -> bool
    decreases depth,
{
    match item {
        Item::Int(n) => 0 <= n <= u64::MAX,
        Item::Bytes(_) | Item::Text(_) | Item::Bool(_) | Item::Null => true,
        Item::Array(s) => depth > 0 && forall|i: int|
            0 <= i < s.len() ==> plain(#[trigger] s[i], (depth - 1) as nat),
        Item::Record(s) => depth > 0 && forall|i: int|
            0 <= i < s.len() ==> plain((#[trigger] s[i]).0, (depth - 1) as nat) && plain(
                s[i].1,
                (depth - 1) as nat,
            ),
        Item::Tagged(_, _) | Item::Other => false,
    }
}

/// Whether an item can be written: it is plain, and nested at most eight deep.
pub open spec fn writable(item: Item) -> bool {
    plain(item, 8)
}

/// `ciborium::Value`, a CBOR item as `ciborium` holds it.
#[verifier::external_type_specification]
#[verifier::external_body]
pub struct ExCborValue(ciborium::Value);

/// What a `ciborium::Value` holds.
pub uninterp spec fn cbor_content(v: ciborium::Value) -> Item;

/// The bytes that `ciborium::ser::into_writer` writes for an item.
pub uninterp spec fn cbor_encoding(item: Item) -> Seq<u8>;

/// The item that `ciborium::de::from_reader` reads from bytes, if it reads one.
pub uninterp spec fn cbor_decoding(bytes: Seq<u8>) -> Option<Item>;

/// The text of the error with which `ciborium::de::from_reader` refuses bytes.
pub uninterp spec fn cbor_refusal(bytes: Seq<u8>) -> Seq<char>;

/// Takes a `ciborium::Value` apart, variant by variant. Its content is what the item says.
#[verifier::external_body]
fn cbor_from_value(v: ciborium::Value) -> (r: Cbor)
    ensures
        r@ == cbor_content(v),
{
    match v {
        Value::Integer(n) => Cbor::Int(n.into()),
        Value::Bytes(b) => Cbor::Bytes(b),
        Value::Text(t) => Cbor::Text(t),
        Value::Bool(b) => Cbor::Bool(b),
        Value::Null => Cbor::Null,
        Value::Array(s) => Cbor::Array(s.into_iter().map(cbor_from_value).collect()),
        Value::Map(s) => Cbor::Record(
            s.into_iter().map(|(k, v)| (cbor_from_value(k), cbor_from_value(v))).collect(),
        ),
        Value::Tag(tag, v) => Cbor::Tagged(tag, Box::new(cbor_from_value(*v))),
        _ => Cbor::Other,
    }
}

/// Builds the `ciborium::Value` of an item, variant by variant. The value's content is the item,
/// for items that can be written.
#[verifier::external_body]
fn cbor_to_value(item: &Cbor) -> (r: ciborium::Value)
    ensures
        writable(item@) ==> cbor_content(r) == item@,
{
    match item {
        Cbor::Int(n) => ciborium::value::Integer::try_from(*n).map_or(Value::Null, |n| n.into()),
        Cbor::Bytes(b) => Value::Bytes(b.clone()),
        Cbor::Text(t) => Value::Text(t.clone()),
        Cbor::Bool(b) => Value::Bool(*b),
        Cbor::Null | Cbor::Tagged(_, _) | Cbor::Other => Value::Null,
        Cbor::Array(s) => Value::Array(s.iter().map(cbor_to_value).collect()),
        Cbor::Record(s) => Value::Map(
            s.iter().map(|(k, v)| (cbor_to_value(k), cbor_to_value(v))).collect(),
        ),
    }
}

/// `ciborium::ser::into_writer` into a byte vector. It writes a value that can be written
/// without fail, the bytes depend on the content alone, and `from_reader` reads the same
/// content back from them.
#[verifier::external_body]
fn cbor_write(v: &ciborium::Value) -> (r: Result<Vec<u8>, String>)
    ensures
        writable(cbor_content(*v)) ==> r is Ok,
        writable(cbor_content(*v)) ==> r->Ok_0@ == cbor_encoding(cbor_content(*v)),
        writable(cbor_content(*v)) ==> cbor_decoding(r->Ok_0@) == Some(cbor_content(*v)),
{
    let mut out = Vec::new();
    match ciborium::ser::into_writer(v, &mut out) {
        Ok(()) => Ok(out),
        Err(e) => Err(e.to_string()),
    }
}

/// `ciborium::de::from_reader` on a byte slice, reading a `ciborium::Value`.
#[verifier::external_body]
fn cbor_read(bytes: &[u8]) -> (r: Result<ciborium::Value, String>)
    ensures
        match r {
            Ok(v) => cbor_decoding(bytes@) == Some(cbor_content(v)),
            Err(e) => cbor_decoding(bytes@) is None && e@ == cbor_refusal(bytes@),
        },
{
    ciborium::de::from_reader::<ciborium::Value, &[u8]>(bytes).map_err(|e| e.to_string())
}

/// Writes an item.
pub fn encode_item(item: &Cbor) -> (r: Vec<u8>)
    requires
        writable(item@),
    ensures
        r@ == cbor_encoding(item@),
        cbor_decoding(r@) == Some(item@),
{
    let v = cbor_to_value(item);
    match cbor_write(&v) {
        Ok(b) => b,
        Err(_) => {
            assert(false);
            Vec::new()
        },
    }
}

/// Reads an item; the error is the text with which the bytes are refused.
pub fn decode_item(bytes: &[u8]) -> (r: Result<Cbor, String>)
    ensures
        match r {
            Ok(item) => cbor_decoding(bytes@) == Some(item@),
            Err(e) => cbor_decoding(bytes@) is None && e@ == cbor_refusal(bytes@),
        },
{
    match cbor_read(bytes) {
        Ok(v) => Ok(cbor_from_value(v)),
        Err(e) => Err(e),
    }
}

/// What a record holds under a name.
pub enum Lookup {
    Missing,
    /// The name occurs more than once.
    Repeated,
    Found(Item),
}

/// Whether a key is a name: its text, or the bytes of its text.
pub open spec fn names(key: Item, name: Seq<char>) -> bool {
    match bare(key) {
        Item::Text(t) => t == name,
        Item::Bytes(b) => b == encode_utf8(name),
        _ => false,
    }
}

/// What the members of a record hold under a name.
pub open spec fn lookup(members: Seq<(Item, Item)>, name: Seq<char>) -> Lookup
    decreases members.len(),
{
    if members.len() == 0 {
        Lookup::Missing
    } else {
        let before = lookup(members.drop_last(), name);
        if names(members.last().0, name) {
            if before is Missing {
                Lookup::Found(members.last().1)
            } else {
                Lookup::Repeated
            }
        } else {
            before
        }
    }
}

/// In a record whose keys differ, a name that is a key is found with its value.
pub proof fn lookup_at(m: Seq<(Item, Item)>, i: int, name: Seq<char>)
    requires
        0 <= i < m.len(),
        m[i].0 == Item::Text(name),
        forall|j: int| 0 <= j < m.len() && j != i ==> (#[trigger] m[j]).0 is Text && m[j].0 != Item::Text(name),
    ensures
        lookup(m, name) == Lookup::Found(m[i].1),
    decreases m.len(),
{
    let rest = m.drop_last();
    if i == m.len() - 1 {
        lookup_absent(rest, name);
    } else {
        lookup_at(rest, i, name);
    }
}

/// A name that is no key of a record is missing from it.
pub proof fn lookup_absent(m: Seq<(Item, Item)>, name: Seq<char>)
    requires
        forall|j: int| 0 <= j < m.len() ==> (#[trigger] m[j]).0 is Text && m[j].0 != Item::Text(name),
    ensures
        lookup(m, name) is Missing,
    decreases m.len(),
{
    if m.len() > 0 {
        lookup_absent(m.drop_last(), name);
    }
}

/// Whether every key of a record is a text.
pub open spec fn text_keys(members: Seq<(Item, Item)>) -> bool {
    forall|i: int| 0 <= i < members.len() ==> (#[trigger] members[i]).0 is Text
}

/// The most bytes that a key of a document may have.
pub const MAX_KEY: usize = 4096;

/// Whether an item can be a key of a document: a text or a byte string that is not too long.
pub open spec fn name_key(key: Item) -> bool {
    match bare(key) {
        Item::Text(t) => encode_utf8(t).len() <= MAX_KEY,
        Item::Bytes(b) => b.len() <= MAX_KEY,
        _ => false,
    }
}

/// Whether every key of a record can be one of a document.
pub open spec fn name_keys(members: Seq<(Item, Item)>) -> bool {
    forall|i: int| 0 <= i < members.len() ==> name_key((#[trigger] members[i]).0)
}

/// A short text can be a key of a document.
pub proof fn short_text_is_key(t: Seq<char>)
    requires
        t.len() <= 100,
    ensures
        name_key(Item::Text(t)),
{
    encoding_is_short(t);
}

proof fn encoding_is_short(t: Seq<char>)
    ensures
        encode_utf8(t).len() <= 4 * t.len(),
    decreases t.len(),
{
    if t.len() > 0 {
        encoding_is_short(t.drop_first());
    }
}

/// The members of a record, as what they say.
pub open spec fn member_views(members: Seq<(Cbor, Cbor)>) -> Seq<(Item, Item)> {
    members.map_values(|p: (Cbor, Cbor)| (p.0@, p.1@))
}

/// The elements of an array, as what they say.
pub open spec fn element_views(elements: Seq<Cbor>) -> Seq<Item> {
    elements.map_values(|c: Cbor| c@)
}

/// A record says what its members say.
pub proof fn record_view(c: Cbor)
    ensures
        c matches Cbor::Record(v) ==> c@ == Item::Record(member_views(v@)),
        c matches Cbor::Array(v) ==> c@ == Item::Array(element_views(v@)),
{
    if let Cbor::Record(v) = c {
        assert(c@->Record_0 =~= member_views(v@));
    }
    if let Cbor::Array(v) = c {
        assert(c@->Array_0 =~= element_views(v@));
    }
}

/// What looking up a name found.
pub enum Found<'a> {
    Missing,
    Repeated,
    One(&'a Cbor),
}

impl<'a> Found<'a> {
    pub open spec fn view(&self) -> Lookup {
        match self {
            Found::Missing => Lookup::Missing,
            Found::Repeated => Lookup::Repeated,
            Found::One(c) => Lookup::Found(c@),
        }
    }
}

/// Looks a name up in a record.
pub fn find<'a>(members: &'a Vec<(Cbor, Cbor)>, name: &str) -> (r: Found<'a>)
    ensures
        r@ == lookup(member_views(members@), name@),
{
    let mut found = Found::Missing;
    let mut i: usize = 0;
    let ghost all = member_views(members@);
    assert(all.subrange(0, 0) =~= Seq::<(Item, Item)>::empty());
    while i < members.len()
        invariant
            i <= members@.len(),
            all == member_views(members@),
            found@ == lookup(all.subrange(0, i as int), name@),
        decreases members@.len() - i,
    {
        let ghost upto = all.subrange(0, i + 1);
        proof {
            assert(upto.drop_last() =~= all.subrange(0, i as int));
            assert(upto.last() == all[i as int]);
        }
        if is_named(&members[i].0, name) {
            found = match found {
                Found::Missing => Found::One(&members[i].1),
                _ => Found::Repeated,
            };
        }
        i += 1;
    }
    assert(all.subrange(0, members@.len() as int) =~= all);
    found
}

fn is_named(key: &Cbor, name: &str) -> (r: bool)
    ensures
        r == names(key@, name@),
{
    match bare_of(key) {
        Cbor::Text(t) => same_text(t.as_str(), name),
        Cbor::Bytes(b) => same_bytes(b.as_slice(), name.as_bytes()),
        _ => false,
    }
}

/// Whether every key of a record can be one of a document.
pub fn has_name_keys(members: &Vec<(Cbor, Cbor)>) -> (r: bool)
    ensures
        r == name_keys(member_views(members@)),
{
    let mut i: usize = 0;
    let ghost all = member_views(members@);
    while i < members.len()
        invariant
            i <= members@.len(),
            all == member_views(members@),
            forall|j: int| 0 <= j < i ==> name_key((#[trigger] all[j]).0),
        decreases members@.len() - i,
    {
        assert(all[i as int] == (members@[i as int].0@, members@[i as int].1@));
        let fits = match bare_of(&members[i].0) {
            Cbor::Text(t) => t.as_str().as_bytes().len() <= MAX_KEY,
            Cbor::Bytes(b) => b.len() <= MAX_KEY,
            _ => false,
        };
        if !fits {
            return false;
        }
        i += 1;
    }
    true
}

/// Whether every key of a record is a text.
pub fn has_text_keys(members: &Vec<(Cbor, Cbor)>) -> (r: bool)
    ensures
        r == text_keys(member_views(members@)),
{
    let mut i: usize = 0;
    let ghost all = member_views(members@);
    while i < members.len()
        invariant
            i <= members@.len(),
            all == member_views(members@),
            forall|j: int| 0 <= j < i ==> (#[trigger] all[j]).0 is Text,
        decreases members@.len() - i,
    {
        match &members[i].0 {
            Cbor::Text(_) => {},
            _ => {
                assert(!(all[i as int].0 is Text));
                return false;
            },
        }
        i += 1;
    }
    true
}

/// A name is found in a record exactly when one key, and one only, is that name: then its value is
/// found. A name that is no key is missing, and one that is a key twice is not found.
pub proof fn one_key_is_found(m: Seq<(Item, Item)>, name: Seq<char>)
    ensures
        lookup(m, name) is Missing <==> forall|i: int| 0 <= i < m.len() ==> !names((#[trigger] m[i]).0, name),
        lookup(m, name) is Repeated <==> exists|i: int, j: int|
            0 <= i < j < m.len() && names((#[trigger] m[i]).0, name) && names((#[trigger] m[j]).0, name),
        lookup(m, name) matches Lookup::Found(item) ==> exists|i: int|
            0 <= i < m.len() && names((#[trigger] m[i]).0, name) && item == m[i].1,
    decreases m.len(),
{
    if m.len() > 0 {
        let rest = m.drop_last();
        let last = m.len() - 1;
        one_key_is_found(rest, name);
        assert(m[last] == m.last());
        assert forall|i: int| 0 <= i < rest.len() implies #[trigger] rest[i] == m[i] by {}
        if lookup(rest, name) is Missing {
            assert forall|i: int| 0 <= i < last implies !names((#[trigger] m[i]).0, name) by {
                assert(!names(rest[i].0, name));
            }
        } else {
            let k = choose|k: int| 0 <= k < rest.len() && names((#[trigger] rest[k]).0, name);
            assert(names(m[k].0, name));
            if names(m.last().0, name) {
                assert(names(m[k].0, name) && names(m[last].0, name));
            }
        }
        if lookup(rest, name) is Repeated {
            let (i, j) = choose|i: int, j: int|
                0 <= i < j < rest.len() && names((#[trigger] rest[i]).0, name) && names((#[trigger] rest[j]).0, name);
            assert(names(m[i].0, name) && names(m[j].0, name));
        }
        if let Lookup::Found(item) = lookup(rest, name) {
            let i = choose|i: int| 0 <= i < rest.len() && names((#[trigger] rest[i]).0, name) && item == rest[i].1;
            assert(names(m[i].0, name) && item == m[i].1);
        }
        if exists|i: int, j: int|
            0 <= i < j < m.len() && names((#[trigger] m[i]).0, name) && names((#[trigger] m[j]).0, name) {
            let (i, j) = choose|i: int, j: int|
                0 <= i < j < m.len() && names((#[trigger] m[i]).0, name) && names((#[trigger] m[j]).0, name);
            assert(names(rest[i].0, name));
            if j < last {
                assert(names(rest[j].0, name));
            }
        }
    }
}

/// A key names what its text says, or what its bytes say as UTF-8; tags around it do not count. A key
/// of a document is a text or a byte string of at most 4096 bytes.
pub proof fn keys_are_names(t: Seq<char>, b: Seq<u8>, name: Seq<char>, tag: u64, inner: Item)
    ensures
        names(Item::Text(t), name) <==> t == name,
        names(Item::Bytes(b), name) <==> b == encode_utf8(name),
        names(Item::Tagged(tag, Box::new(inner)), name) <==> names(inner, name),
        name_key(Item::Text(t)) <==> encode_utf8(t).len() <= 4096,
        name_key(Item::Bytes(b)) <==> b.len() <= 4096,
        name_key(Item::Tagged(tag, Box::new(inner))) <==> name_key(inner),
        !names(Item::Null, name) && !name_key(Item::Null),
        bare(Item::Tagged(tag, Box::new(inner))) == bare(inner),
        inner is Tagged || bare(inner) == inner,
        !untagged(Item::Tagged(tag, Box::new(inner))),
{
    let item = Item::Tagged(tag, Box::new(inner));
    assert(bare(item) == bare(inner));
}

/// What an item says is what it holds, element by element and member by member.
pub proof fn items_say_what_they_hold(c: Cbor)
    ensures
        c matches Cbor::Int(n) ==> c@ == Item::Int(n as int),
        c matches Cbor::Bytes(b) ==> c@ == Item::Bytes(b@),
        c matches Cbor::Text(t) ==> c@ == Item::Text(t@),
        c matches Cbor::Bool(b) ==> c@ == Item::Bool(b),
        c is Null ==> c@ is Null,
        c matches Cbor::Array(v) ==> (c@ matches Item::Array(s) && s.len() == v@.len() && forall|i: int|
            0 <= i < v@.len() ==> #[trigger] s[i] == v@[i]@),
        c matches Cbor::Record(v) ==> (c@ matches Item::Record(s) && s.len() == v@.len() && forall|i: int|
            0 <= i < v@.len() ==> (#[trigger] s[i]).0 == v@[i].0@ && s[i].1 == v@[i].1@),
        c matches Cbor::Tagged(tag, inner) ==> c@ == Item::Tagged(tag, Box::new(inner@)),
{
}

} // verus!
