//! The file that keeps a pair of post-quantum keys beside the node's key pair.

use crate::bytes::{be32, be32_inverse, be32_value, push_be32, push_bytes, read_be32, slice_of};
use vstd::prelude::*;

verus! {

/// The form of the file: each key with its length in four bytes before it, the secret first.
pub open spec fn key_file(secret: Seq<u8>, public: Seq<u8>) -> Seq<u8> {
    be32(secret.len() as u32) + secret + be32(public.len() as u32) + public
}

/// The keys that a file holds, if it is long enough for them. What follows them is not looked at.
pub open spec fn keys_in_file(b: Seq<u8>) -> Option<(Seq<u8>, Seq<u8>)> {
    if b.len() < 8 {
        None
    } else {
        let n = be32_value(b.subrange(0, 4)) as int;
        if 4 + n + 4 > b.len() {
            None
        } else {
            let m = be32_value(b.subrange(4 + n, 8 + n)) as int;
            if 8 + n + m > b.len() {
                None
            } else {
                Some((b.subrange(4, 4 + n), b.subrange(8 + n, 8 + n + m)))
            }
        }
    }
}

/// A pair of post-quantum keys, as far as it is known.
#[derive(Debug)]
pub struct KeyManager {
    pub pq_secret_key: Option<Vec<u8>>,
    pub pq_public_key: Option<Vec<u8>>,
}

impl KeyManager {
    /// Reads the keys from the bytes of their file; without the file, or where it is too short,
    /// there are none.
    pub fn load_pq_keys(file: Option<Vec<u8>>) -> (r: Self)
        ensures
            ({
                let found = match file {
                    Some(b) => keys_in_file(b@),
                    None => None,
                };
                match found {
                    Some((secret, public)) => (r.pq_secret_key matches Some(s) && s@ == secret) && (r.pq_public_key matches Some(p)
                        && p@ == public),
                    None => r.pq_secret_key is None && r.pq_public_key is None,
                }
            }),
    {
        let none = KeyManager { pq_secret_key: None, pq_public_key: None };
        let bytes = match file {
            Some(b) => b,
            None => {
                return none;
            },
        };
        if bytes.len() < 8 {
            return none;
        }
        let n: usize = read_be32(bytes.as_slice(), 0) as usize;
        if bytes.len() - 8 < n {
            return none;
        }
        let m: usize = read_be32(bytes.as_slice(), 4 + n) as usize;
        if bytes.len() - 8 - n < m {
            return none;
        }
        let secret = slice_of(bytes.as_slice(), 4, 4 + n);
        let public = slice_of(bytes.as_slice(), 8 + n, 8 + n + m);
        KeyManager { pq_secret_key: Some(secret), pq_public_key: Some(public) }
    }

    /// Takes new keys, and gives the bytes to write to their file. Reading those gives the keys back.
    pub fn save_pq_keys(&mut self, secret: Vec<u8>, public: Vec<u8>) -> (r: Vec<u8>)
        requires
            secret@.len() <= u32::MAX,
            public@.len() <= u32::MAX,
        ensures
            r@ == key_file(secret@, public@),
            keys_in_file(r@) == Some((secret@, public@)),
            final(self).pq_secret_key == Some(secret),
            final(self).pq_public_key == Some(public),
    {
        let mut buf: Vec<u8> = Vec::new();
        push_be32(&mut buf, secret.len() as u32);
        push_bytes(&mut buf, secret.as_slice());
        push_be32(&mut buf, public.len() as u32);
        push_bytes(&mut buf, public.as_slice());
        proof {
            assert(buf@ =~= key_file(secret@, public@));
            key_file_read_back(secret@, public@, Seq::empty());
            assert(key_file(secret@, public@) + Seq::<u8>::empty() =~= buf@);
        }
        self.pq_secret_key = Some(secret);
        self.pq_public_key = Some(public);
        buf
    }

    /// Whether both keys are known.
    pub fn has_pq_keys(&self) -> (r: bool)
        ensures
            r == (self.pq_secret_key is Some && self.pq_public_key is Some),
    {
        self.pq_secret_key.is_some() && self.pq_public_key.is_some()
    }

    /// The public key.
    pub fn pq_public_key(&self) -> (r: Option<&Vec<u8>>)
        ensures
            r == (match self.pq_public_key {
                Some(k) => Some(&k),
                None => None,
            }),
    {
        self.pq_public_key.as_ref()
    }

    /// The secret key.
    pub fn pq_secret_key(&self) -> (r: Option<&Vec<u8>>)
        ensures
            r == (match self.pq_secret_key {
                Some(k) => Some(&k),
                None => None,
            }),
    {
        self.pq_secret_key.as_ref()
    }
}

/// Reading the file of two keys gives the keys back, whatever follows them.
pub proof fn key_file_read_back(secret: Seq<u8>, public: Seq<u8>, after: Seq<u8>)
    requires
        secret.len() <= u32::MAX,
        public.len() <= u32::MAX,
    ensures
        keys_in_file(key_file(secret, public) + after) == Some((secret, public)),
{
    let b = key_file(secret, public) + after;
    let n = secret.len() as int;
    let m = public.len() as int;
    be32_inverse(secret.len() as u32);
    be32_inverse(public.len() as u32);
    assert(b.subrange(0, 4) =~= be32(secret.len() as u32));
    assert(b.subrange(4 + n, 8 + n) =~= be32(public.len() as u32));
    assert(b.subrange(4, 4 + n) =~= secret);
    assert(b.subrange(8 + n, 8 + n + m) =~= public);
}

/// The form of the file: both keys, the secret one first, each with its length before it; and what is
/// read of any file that is long enough for both.
pub proof fn key_file_has_both_keys(secret: Seq<u8>, public: Seq<u8>, b: Seq<u8>)
    ensures
        key_file(secret, public) == be32(secret.len() as u32) + secret + be32(public.len() as u32) + public,
        keys_in_file(b) == Some((secret, public)) <==> {
            let n = be32_value(b.subrange(0, 4)) as int;
            let m = be32_value(b.subrange(4 + n, 8 + n)) as int;
            8 + n + m <= b.len() && secret == b.subrange(4, 4 + n) && public == b.subrange(8 + n, 8 + n + m)
        },
{
}

} // verus!
