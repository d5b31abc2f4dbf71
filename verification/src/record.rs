//! Reading and writing the fields of CBOR records.

use crate::bytes::copy_bytes;
use crate::cbor::{
    bare, bare_of, element_views, find, lookup, member_views, record_view, Cbor, Found, Item, Lookup,
};
use vstd::prelude::*;
use vstd::string::*;

verus! {

/// The number that bytes are, the highest first.
pub open spec fn be_number(b: Seq<u8>) -> nat
    decreases b.len(),
{
    if b.len() == 0 {
        0
    } else {
        be_number(b.drop_last()) * 256 + b.last() as nat
    }
}

/// The tag of a byte string that stands for a number from zero on.
pub const POSITIVE_BIGNUM: u64 = 2;

/// The tag of a byte string that stands for a number below zero.
pub const NEGATIVE_BIGNUM: u64 = 3;

/// The number that an item is: a number, or the bytes of one under the tag for that. Other tags do not
/// count.
pub open spec fn as_uint(item: Item) -> Option<u64>
    decreases item,
{
    match item {
        Item::Int(n) => if 0 <= n <= u64::MAX {
            Some(n as u64)
        } else {
            None
        },
        Item::Tagged(tag, inner) => if tag == POSITIVE_BIGNUM {
            match *inner {
                Item::Bytes(b) => if be_number(b) <= u64::MAX {
                    Some(be_number(b) as u64)
                } else {
                    None
                },
                _ => None,
            }
        } else if tag == NEGATIVE_BIGNUM {
            None
        } else {
            as_uint(*inner)
        },
        _ => None,
    }
}

/// The text that an item is.
pub open spec fn as_text(item: Item) -> Option<Seq<char>> {
    match bare(item) {
        Item::Text(t) => Some(t),
        _ => None,
    }
}

/// The truth value that an item is.
pub open spec fn as_bool(item: Item) -> Option<bool> {
    match item {
        Item::Bool(b) => Some(b),
        _ => None,
    }
}

/// Whether every element is a number that fits a byte.
pub open spec fn all_octets(s: Seq<Item>) -> bool {
    forall|i: int| 0 <= i < s.len() ==> (as_uint(#[trigger] s[i]) matches Some(n) && n <= 255)
}

/// The array of numbers that stands for bytes.
pub open spec fn octet_items(b: Seq<u8>) -> Seq<Item> {
    b.map_values(|x: u8| Item::Int(x as int))
}

/// The bytes that an array of numbers stands for.
pub open spec fn as_octets(item: Item) -> Option<Seq<u8>> {
    match bare(item) {
        Item::Array(s) => if all_octets(s) {
            Some(s.map_values(|i: Item| as_uint(i)->0 as u8))
        } else {
            None
        },
        _ => None,
    }
}

/// The bytes that a byte string is, or that an array of numbers stands for.
pub open spec fn as_bytes(item: Item) -> Option<Seq<u8>> {
    match bare(item) {
        Item::Bytes(b) => Some(b),
        _ => as_octets(item),
    }
}

/// The elements of a list. A byte string is the list of its bytes, so that an empty one is an empty
/// list.
pub open spec fn as_list(item: Item) -> Option<Seq<Item>> {
    match bare(item) {
        Item::Array(s) => Some(s),
        Item::Bytes(b) => Some(octet_items(b)),
        _ => None,
    }
}

/// An array of numbers stands for the bytes it was made from.
pub proof fn octets_inverse(b: Seq<u8>)
    ensures
        as_octets(Item::Array(octet_items(b))) == Some(b),
{
    let s = octet_items(b);
    assert forall|i: int| 0 <= i < s.len() implies (as_uint(#[trigger] s[i]) matches Some(n) && n <= 255) by {
        assert(s[i] == Item::Int(b[i] as int));
    }
    assert(s.map_values(|i: Item| as_uint(i)->0 as u8) =~= b);
}

/// The number under a name.
pub open spec fn uint_field(m: Seq<(Item, Item)>, name: Seq<char>) -> Option<u64> {
    match lookup(m, name) {
        Lookup::Found(item) => as_uint(item),
        _ => None,
    }
}

/// The text under a name.
pub open spec fn text_field(m: Seq<(Item, Item)>, name: Seq<char>) -> Option<Seq<char>> {
    match lookup(m, name) {
        Lookup::Found(item) => as_text(item),
        _ => None,
    }
}

/// The truth value under a name.
pub open spec fn bool_field(m: Seq<(Item, Item)>, name: Seq<char>) -> Option<bool> {
    match lookup(m, name) {
        Lookup::Found(item) => as_bool(item),
        _ => None,
    }
}

/// The array of bytes under a name.
pub open spec fn octets_field(m: Seq<(Item, Item)>, name: Seq<char>) -> Option<Seq<u8>> {
    match lookup(m, name) {
        Lookup::Found(item) => as_octets(item),
        _ => None,
    }
}

/// The byte string, or array of bytes, under a name.
pub open spec fn bytes_field(m: Seq<(Item, Item)>, name: Seq<char>) -> Option<Seq<u8>> {
    match lookup(m, name) {
        Lookup::Found(item) => as_bytes(item),
        _ => None,
    }
}

/// The list under a name.
pub open spec fn list_field(m: Seq<(Item, Item)>, name: Seq<char>) -> Option<Seq<Item>> {
    match lookup(m, name) {
        Lookup::Found(item) => as_list(item),
        _ => None,
    }
}

proof fn number_grows(b: Seq<u8>, i: int)
    requires
        0 <= i <= b.len(),
    ensures
        be_number(b.subrange(0, i)) <= be_number(b),
    decreases b.len() - i,
{
    if i < b.len() {
        number_grows(b, i + 1);
        let next = b.subrange(0, i + 1);
        assert(next.drop_last() =~= b.subrange(0, i));
    } else {
        assert(b.subrange(0, i) =~= b);
    }
}

fn number_of_bytes(b: &[u8]) -> (r: Option<u64>)
    ensures
        r == (if be_number(b@) <= u64::MAX {
            Some(be_number(b@) as u64)
        } else {
            None
        }),
{
    let mut n: u64 = 0;
    let mut i: usize = 0;
    assert(b@.subrange(0, 0) =~= Seq::<u8>::empty());
    while i < b.len()
        invariant
            i <= b@.len(),
            n as nat == be_number(b@.subrange(0, i as int)),
        decreases b@.len() - i,
    {
        let next: u128 = n as u128 * 256 + b[i] as u128;
        proof {
            let upto = b@.subrange(0, i + 1);
            assert(upto.drop_last() =~= b@.subrange(0, i as int));
            assert(upto.last() == b@[i as int]);
            number_grows(b@, i + 1);
        }
        if next > u64::MAX as u128 {
            return None;
        }
        n = next as u64;
        i += 1;
    }
    assert(b@.subrange(0, b@.len() as int) =~= b@);
    Some(n)
}

/// Reads a number.
pub fn uint_of(c: &Cbor) -> (r: Option<u64>)
    ensures
        r == as_uint(c@),
    decreases c,
{
    match c {
        Cbor::Int(n) => {
            assert(c@ == Item::Int(*n as int));
            if 0 <= *n && *n <= u64::MAX as i128 {
                Some(*n as u64)
            } else {
                None
            }
        },
        Cbor::Tagged(tag, inner) => {
            assert(c@ == Item::Tagged(*tag, Box::new(inner@)));
            if *tag == POSITIVE_BIGNUM {
                match &**inner {
                    Cbor::Bytes(b) => {
                        assert(inner@ == Item::Bytes(b@));
                        number_of_bytes(b.as_slice())
                    },
                    _ => None,
                }
            } else if *tag == NEGATIVE_BIGNUM {
                None
            } else {
                uint_of(inner)
            }
        },
        _ => None,
    }
}

/// Reads a text.
pub fn text_of(c: &Cbor) -> (r: Option<String>)
    ensures
        r.deep_view() == as_text(c@),
{
    match bare_of(c) {
        Cbor::Text(t) => Some(t.clone()),
        _ => None,
    }
}

/// Reads the number under a name.
pub fn read_uint(m: &Vec<(Cbor, Cbor)>, name: &str) -> (r: Option<u64>)
    ensures
        r == uint_field(member_views(m@), name@),
{
    match find(m, name) {
        Found::One(c) => uint_of(c),
        _ => None,
    }
}

/// Reads the text under a name.
pub fn read_text(m: &Vec<(Cbor, Cbor)>, name: &str) -> (r: Option<String>)
    ensures
        r.deep_view() == text_field(member_views(m@), name@),
{
    match find(m, name) {
        Found::One(c) => text_of(c),
        _ => None,
    }
}

/// Reads the truth value under a name.
pub fn read_bool(m: &Vec<(Cbor, Cbor)>, name: &str) -> (r: Option<bool>)
    ensures
        r == bool_field(member_views(m@), name@),
{
    match find(m, name) {
        Found::One(Cbor::Bool(b)) => Some(*b),
        _ => None,
    }
}

/// Reads an array of numbers as the bytes it stands for.
pub fn octets_of(c: &Cbor) -> (r: Option<Vec<u8>>)
    ensures
        match r {
            Some(b) => as_octets(c@) == Some(b@),
            None => as_octets(c@) is None,
        },
{
    let bared = bare_of(c);
    match bared {
        Cbor::Array(v) => {
            proof {
                record_view(*bared);
            }
            let ghost s = element_views(v@);
            let mut out: Vec<u8> = Vec::new();
            let mut i: usize = 0;
            while i < v.len()
                invariant
                    i <= v@.len(),
                    s == element_views(v@),
                    bare(c@) == Item::Array(s),
                    out@.len() == i,
                    forall|j: int|
                        0 <= j < i ==> (as_uint(#[trigger] s[j]) matches Some(n) && n <= 255 && out@[j] == n as u8),
                decreases v@.len() - i,
            {
                assert(s[i as int] == v@[i as int]@);
                match uint_of(&v[i]) {
                    Some(n) => if n <= 255 {
                        out.push(n as u8);
                    } else {
                        assert(!all_octets(s));
                        return None;
                    },
                    None => {
                        assert(!all_octets(s));
                        return None;
                    },
                }
                i += 1;
            }
            assert(all_octets(s));
            assert(out@ =~= s.map_values(|i: Item| as_uint(i)->0 as u8));
            Some(out)
        },
        _ => None,
    }
}

/// Reads the array of bytes under a name.
pub fn read_octets(m: &Vec<(Cbor, Cbor)>, name: &str) -> (r: Option<Vec<u8>>)
    ensures
        match r {
            Some(b) => octets_field(member_views(m@), name@) == Some(b@),
            None => octets_field(member_views(m@), name@) is None,
        },
{
    match find(m, name) {
        Found::One(c) => octets_of(c),
        _ => None,
    }
}

/// Reads a byte string, or an array of numbers as the bytes it stands for.
pub fn bytes_of(c: &Cbor) -> (r: Option<Vec<u8>>)
    ensures
        match r {
            Some(b) => as_bytes(c@) == Some(b@),
            None => as_bytes(c@) is None,
        },
{
    match bare_of(c) {
        Cbor::Bytes(b) => Some(copy_bytes(b.as_slice())),
        _ => octets_of(c),
    }
}

/// Reads the bytes under a name.
pub fn read_bytes(m: &Vec<(Cbor, Cbor)>, name: &str) -> (r: Option<Vec<u8>>)
    ensures
        match r {
            Some(b) => bytes_field(member_views(m@), name@) == Some(b@),
            None => bytes_field(member_views(m@), name@) is None,
        },
{
    match find(m, name) {
        Found::One(c) => bytes_of(c),
        _ => None,
    }
}

/// A member of a record.
pub fn member(name: &str, value: Cbor) -> (r: (Cbor, Cbor))
    ensures
        (r.0@, r.1@) == (Item::Text(name@), value@),
{
    (Cbor::Text(name.to_owned()), value)
}

/// A text item.
pub fn text_item(t: &str) -> (r: Cbor)
    ensures
        r@ == Item::Text(t@),
{
    Cbor::Text(t.to_owned())
}

/// The array of numbers that stands for bytes.
pub fn octets_item(b: &[u8]) -> (r: Cbor)
    ensures
        r@ == Item::Array(octet_items(b@)),
{
    let mut v: Vec<Cbor> = Vec::new();
    let mut i: usize = 0;
    while i < b.len()
        invariant
            i <= b@.len(),
            v@.len() == i,
            forall|j: int| 0 <= j < i ==> (#[trigger] v@[j])@ == Item::Int(b@[j] as int),
        decreases b@.len() - i,
    {
        v.push(Cbor::Int(b[i] as i128));
        i += 1;
    }
    let r = Cbor::Array(v);
    proof {
        record_view(r);
        assert(element_views(v@) =~= octet_items(b@));
    }
    r
}

/// What items are: a number is one from zero on that fits 64 bits, also as bytes under the tag for that;
/// a text, a truth value, a list and bytes are themselves, and bytes may be an array of numbers below
/// 256. Nothing else is one of these.
pub proof fn items_are_what_they_say(item: Item, tag: u64, inner: Item, b: Seq<u8>)
    ensures
        item matches Item::Int(n) ==> (0 <= n <= u64::MAX ==> as_uint(item) == Some(n as u64)) && (n < 0 || n > u64::MAX
            ==> as_uint(item) is None),
        be_number(b) <= u64::MAX ==> as_uint(Item::Tagged(2, Box::new(Item::Bytes(b)))) == Some(be_number(b) as u64),
        be_number(b) > u64::MAX ==> as_uint(Item::Tagged(2, Box::new(Item::Bytes(b)))) is None,
        as_uint(Item::Tagged(3, Box::new(inner))) is None,
        tag != 2 && tag != 3 ==> as_uint(Item::Tagged(tag, Box::new(inner))) == as_uint(inner),
        !(item is Int) && !(item is Tagged) ==> as_uint(item) is None,
        item matches Item::Text(t) ==> as_text(item) == Some(t),
        !(item is Text) && !(item is Tagged) ==> as_text(item) is None,
        item matches Item::Bool(v) ==> as_bool(item) == Some(v),
        !(item is Bool) ==> as_bool(item) is None,
        item matches Item::Array(s) ==> as_list(item) == Some(s),
        as_list(Item::Bytes(b)) matches Some(s) && s.len() == b.len() && forall|i: int|
            0 <= i < s.len() ==> #[trigger] s[i] == Item::Int(b[i] as int),
        !(item is Array) && !(item is Bytes) && !(item is Tagged) ==> as_list(item) is None,
        as_bytes(Item::Bytes(b)) == Some(b),
        as_octets(Item::Bytes(b)) is None,
        !(item is Array) && !(item is Tagged) ==> as_octets(item) is None,
        item matches Item::Array(s) ==> as_bytes(item) == as_octets(item),
        item matches Item::Array(s) ==> (as_octets(item) is Some <==> forall|i: int|
            0 <= i < s.len() ==> (as_uint(#[trigger] s[i]) matches Some(n) && n < 256)),
        item matches Item::Array(s) ==> (as_octets(item) matches Some(o) ==> o.len() == s.len() && forall|i: int|
            0 <= i < s.len() ==> Some((#[trigger] o[i]) as u64) == as_uint(s[i])),
{
    if let Item::Array(s) = item {
        assert(bare(item) == item);
        if all_octets(s) {
            let o = as_octets(item)->0;
            assert forall|i: int| 0 <= i < s.len() implies Some((#[trigger] o[i]) as u64) == as_uint(s[i]) by {
                assert(as_uint(s[i]) matches Some(n) && n <= 255);
            }
        }
    }
    let big = Item::Tagged(2, Box::new(Item::Bytes(b)));
    assert(as_uint(big) == (if be_number(b) <= u64::MAX {
        Some(be_number(b) as u64)
    } else {
        None
    }));
}

/// What stands under a name is what the item found there is.
pub proof fn fields_are_what_is_found(m: Seq<(Item, Item)>, name: Seq<char>)
    ensures
        lookup(m, name) matches Lookup::Found(item) ==> uint_field(m, name) == as_uint(item) && text_field(m, name) == as_text(
            item,
        ) && bool_field(m, name) == as_bool(item) && octets_field(m, name) == as_octets(item) && bytes_field(m, name)
            == as_bytes(item) && list_field(m, name) == as_list(item),
        !(lookup(m, name) is Found) ==> uint_field(m, name) is None && text_field(m, name) is None && bool_field(m, name) is None
            && octets_field(m, name) is None && bytes_field(m, name) is None && list_field(m, name) is None,
{
}

/// The bytes of a number stand for it with the most significant first.
pub proof fn numbers_are_big_endian(b: Seq<u8>, last: u8)
    ensures
        be_number(Seq::empty()) == 0,
        be_number(b.push(last)) == be_number(b) * 256 + last,
{
    assert(b.push(last).drop_last() =~= b);
}

} // verus!
