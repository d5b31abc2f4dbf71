//! Byte sequences: comparison, copying and big-endian lengths.

use vstd::prelude::*;

verus! {

/// The four bytes of a 32-bit number, most significant first.
pub open spec fn be32(n: u32) -> Seq<u8> {
    seq![(n >> 24) as u8, (n >> 16) as u8, (n >> 8) as u8, n as u8]
}

/// The number that four big-endian bytes stand for.
pub open spec fn be32_value(b: Seq<u8>) -> nat {
    (b[0] as nat) * 0x1000000 + (b[1] as nat) * 0x10000 + (b[2] as nat) * 0x100 + (b[3] as nat)
}

/// Reading back the four bytes of a number gives the number.
pub proof fn be32_inverse(n: u32)
    ensures
        be32(n).len() == 4,
        be32_value(be32(n)) == n as nat,
{
    assert((n >> 24) as u8 as u32 * 0x1000000 + (n >> 16) as u8 as u32 * 0x10000
        + (n >> 8) as u8 as u32 * 0x100 + n as u8 as u32 == n) by (bit_vector);
}

/// What optional bytes hold.
pub open spec fn optional_bytes_view(b: Option<Vec<u8>>) -> Option<Seq<u8>> {
    match b {
        Some(b) => Some(b@),
        None => None,
    }
}

/// Whether two byte sequences are equal.
pub fn same_bytes(a: &[u8], b: &[u8]) -> (r: bool)
    ensures
        r == (a@ == b@),
{
    if a.len() != b.len() {
        return false;
    }
    let mut i: usize = 0;
    while i < a.len()
        invariant
            a@.len() == b@.len(),
            i <= a@.len(),
            forall|j: int| 0 <= j < i ==> a@[j] == b@[j],
        decreases a@.len() - i,
    {
        if a[i] != b[i] {
            return false;
        }
        i += 1;
    }
    assert(a@ =~= b@);
    true
}

/// A copy of a byte sequence.
pub fn copy_bytes(a: &[u8]) -> (r: Vec<u8>)
    ensures
        r@ == a@,
{
    vstd::slice::slice_to_vec(a)
}

/// Appends a byte sequence.
pub fn push_bytes(out: &mut Vec<u8>, more: &[u8])
    ensures
        final(out)@ == old(out)@ + more@,
{
    let mut i: usize = 0;
    while i < more.len()
        invariant
            i <= more@.len(),
            out@ == old(out)@ + more@.subrange(0, i as int),
        decreases more@.len() - i,
    {
        out.push(more[i]);
        assert(more@.subrange(0, i + 1) =~= more@.subrange(0, i as int).push(more@[i as int]));
        i += 1;
    }
    assert(more@.subrange(0, more@.len() as int) =~= more@);
}

/// The bytes `from..to` of a sequence.
pub fn slice_of(a: &[u8], from: usize, to: usize) -> (r: Vec<u8>)
    requires
        from <= to <= a@.len(),
    ensures
        r@ == a@.subrange(from as int, to as int),
{
    copy_bytes(vstd::slice::slice_subrange(a, from, to))
}

/// Appends a 32-bit number, most significant byte first.
pub fn push_be32(out: &mut Vec<u8>, n: u32)
    ensures
        final(out)@ == old(out)@ + be32(n),
{
    out.push((n >> 24) as u8);
    out.push((n >> 16) as u8);
    out.push((n >> 8) as u8);
    out.push(n as u8);
    assert(out@ =~= old(out)@ + be32(n));
}

/// Reads the big-endian number at `at`.
pub fn read_be32(a: &[u8], at: usize) -> (r: u32)
    requires
        at + 4 <= a@.len(),
    ensures
        r as nat == be32_value(a@.subrange(at as int, at + 4)),
{
    let b0: u32 = a[at] as u32;
    let b1: u32 = a[at + 1] as u32;
    let b2: u32 = a[at + 2] as u32;
    let b3: u32 = a[at + 3] as u32;
    b0 * 0x1000000 + b1 * 0x10000 + b2 * 0x100 + b3
}

/// The sixteen bytes of a 128-bit number, most significant first.
pub open spec fn be128(n: u128) -> Seq<u8> {
    vstd::bytes::spec_u128_to_le_bytes(n).reverse()
}

/// The number that sixteen big-endian bytes stand for.
pub open spec fn be128_value(b: Seq<u8>) -> u128 {
    vstd::bytes::spec_u128_from_le_bytes(b.reverse())
}

/// Reading back the sixteen bytes of a number gives the number.
pub proof fn be128_inverse(n: u128)
    ensures
        be128(n).len() == 16,
        be128_value(be128(n)) == n,
{
    vstd::bytes::lemma_auto_spec_u128_to_from_le_bytes();
    let le = vstd::bytes::spec_u128_to_le_bytes(n);
    assert(le.reverse().reverse() =~= le);
}

/// The bytes in the opposite order.
fn reversed(a: &[u8]) -> (r: Vec<u8>)
    ensures
        r@ == a@.reverse(),
{
    let mut out: Vec<u8> = Vec::new();
    let mut i: usize = a.len();
    while i > 0
        invariant
            i <= a@.len(),
            out@.len() == a@.len() - i,
            forall|j: int| 0 <= j < out@.len() ==> out@[j] == a@[a@.len() - 1 - j],
        decreases i,
    {
        i -= 1;
        out.push(a[i]);
    }
    assert(out@ =~= a@.reverse());
    out
}

/// The sixteen bytes of a 128-bit number, most significant first.
pub fn be128_bytes(n: u128) -> (r: Vec<u8>)
    ensures
        r@ == be128(n),
{
    let le = vstd::bytes::u128_to_le_bytes(n);
    reversed(le.as_slice())
}

/// The number that sixteen big-endian bytes stand for.
pub fn read_be128(a: &[u8]) -> (r: u128)
    requires
        a@.len() == 16,
    ensures
        r == be128_value(a@),
{
    let le = reversed(a);
    vstd::bytes::u128_from_le_bytes(le.as_slice())
}

/// A number is written with its most significant byte first.
pub proof fn big_endian(n: u32, m: u128, i: int, b: Seq<u8>)
    requires
        0 <= i < 16,
        b.len() == 16,
    ensures
        be32(n).len() == 4,
        be32(n)[0] == n / 0x1000000,
        be32(n)[1] == n / 0x10000 % 0x100,
        be32(n)[2] == n / 0x100 % 0x100,
        be32(n)[3] == n % 0x100,
        be128(m)[i] == vstd::bytes::spec_u128_to_le_bytes(m)[15 - i],
        be128_value(b) == vstd::bytes::spec_u128_from_le_bytes(Seq::new(16, |k: int| b[15 - k])),
{
    assert((n >> 24) as u8 == n / 0x1000000 && (n >> 16) as u8 == n / 0x10000 % 0x100 && (n >> 8) as u8 == n / 0x100 % 0x100
        && n as u8 == n % 0x100) by (bit_vector);
    vstd::bytes::lemma_auto_spec_u128_to_from_le_bytes();
    assert(b.reverse() =~= Seq::new(16, |k: int| b[15 - k]));
}

/// Optional bytes hold what the bytes hold, and nothing where there are none.
pub proof fn optional_bytes_hold_the_bytes(b: Option<Vec<u8>>)
    ensures
        b matches Some(v) ==> optional_bytes_view(b) == Some(v@),
        b is None ==> optional_bytes_view(b) is None,
{
}

} // verus!
