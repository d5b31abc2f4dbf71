//! The node's identity: its ed25519 key pair, and its post-quantum keys if it has some.

use crate::crypto::{identity_public, keypair_public, PeerId};
use crate::network::pq::{keys_in, sound_keys, PqKeys};
use crate::network::primitives::{mldsa_public, mlkem_public, peer_id_of_key, peer_of_key};
use vstd::prelude::*;
use vstd::string::*;

verus! {

/// Why some bytes are no key pair in its protobuf encoding; nothing where they are one.
pub uninterp spec fn keypair_refusal(bytes: Seq<u8>) -> Option<Seq<char>>;

/// `libp2p::identity::Keypair::from_protobuf_encoding`: the text of the error, if it refuses the
/// bytes. What it refuses has no public key.
#[verifier::external_body]
fn refused_keypair(bytes: &[u8]) -> (r: Option<String>)
    ensures
        r.deep_view() == keypair_refusal(bytes@),
        r is Some ==> identity_public(bytes@) is None,
{
    libp2p::identity::Keypair::from_protobuf_encoding(bytes).err().map(|e| e.to_string())
}

/// `libp2p::identity::Keypair::generate_ed25519` in its protobuf encoding: a random key pair with
/// an ed25519 key, which the encoding allows.
#[verifier::external_body]
fn generate_keypair() -> (r: Vec<u8>)
    ensures
        identity_public(r@) is Some,
        keypair_refusal(r@) is None,
{
    let keypair = libp2p::identity::Keypair::generate_ed25519();
    keypair.to_protobuf_encoding().expect("an ed25519 key pair has a protobuf encoding")
}

/// What became of reading the key file.
pub enum KeyFile {
    Read(Vec<u8>),
    NotFound,
    /// It could not be read, with this text.
    Failed(String),
}

/// Why there is no key pair.
#[derive(Debug)]
pub enum KeyError {
    /// The file could not be read.
    Unreadable(String),
    /// The file holds no key pair.
    Unparsable(String),
    /// The key pair is not one of ed25519.
    WrongKind,
}

/// A node's key pair, and its post-quantum keys.
pub struct KeyManager {
    keypair: Vec<u8>,
    pq_keys: Option<PqKeys>,
}

/// A node's keys, and the bytes of a new key pair that are to be written to the key file.
pub struct LoadedKeys {
    pub manager: KeyManager,
    pub write: Option<Vec<u8>>,
}

impl KeyManager {
    #[verifier::type_invariant]
    spec fn has_ed25519(&self) -> bool {
        identity_public(self.keypair@) is Some
    }

    /// The key pair in its protobuf encoding.
    pub closed spec fn encoded(&self) -> Seq<u8> {
        self.keypair@
    }

    /// The post-quantum keys.
    pub closed spec fn pq(&self) -> Option<PqKeys> {
        self.pq_keys
    }

    /// Takes the key pair from the key file, or makes a new one where there is no file; and the
    /// post-quantum keys from theirs, if it holds some. The bytes to write for a new key pair are
    /// ones that are taken from the file the next time.
    pub fn load_or_create(file: KeyFile, pq_file: Option<Vec<u8>>) -> (r: Result<LoadedKeys, KeyError>)
        ensures
            match file {
                KeyFile::Failed(e) => r == Err::<LoadedKeys, KeyError>(KeyError::Unreadable(e)),
                KeyFile::Read(b) => match keypair_refusal(b@) {
                    Some(e) => r matches Err(KeyError::Unparsable(t)) && t@ == e,
                    None => if identity_public(b@) is Some {
                        r matches Ok(l) && l.manager.encoded() == b@ && l.write is None
                    } else {
                        r matches Err(KeyError::WrongKind)
                    },
                },
                KeyFile::NotFound => r matches Ok(l) && identity_public(l.manager.encoded()) is Some && keypair_refusal(
                    l.manager.encoded(),
                ) is None && (l.write matches Some(w) && w@ == l.manager.encoded()),
            },
            r matches Ok(l) ==> match pq_file {
                None => l.manager.pq() is None,
                Some(b) => match keys_in(b@) {
                    Some(k) => l.manager.pq() matches Some(keys) && keys@ == k,
                    None => l.manager.pq() is None,
                },
            },
    {
        let (keypair, write) = match file {
            KeyFile::Failed(e) => {
                return Err(KeyError::Unreadable(e));
            },
            KeyFile::Read(b) => {
                match refused_keypair(b.as_slice()) {
                    Some(e) => {
                        return Err(KeyError::Unparsable(e));
                    },
                    None => {},
                }
                match keypair_public(b.as_slice()) {
                    Some(_) => {},
                    None => {
                        return Err(KeyError::WrongKind);
                    },
                }
                (b, None)
            },
            KeyFile::NotFound => {
                let b = generate_keypair();
                let copy = crate::bytes::copy_bytes(b.as_slice());
                (b, Some(copy))
            },
        };
        let pq_keys = match pq_file {
            Some(b) => match PqKeys::from_bytes(b.as_slice()) {
                Ok(k) => Some(k),
                Err(_) => None,
            },
            None => None,
        };
        Ok(LoadedKeys { manager: KeyManager { keypair, pq_keys }, write })
    }

    /// The key pair in its protobuf encoding.
    pub fn keypair(&self) -> (r: &Vec<u8>)
        ensures
            r@ == self.encoded(),
            identity_public(r@) is Some,
    {
        proof {
            use_type_invariant(self);
        }
        &self.keypair
    }

    /// The node's peer id.
    pub fn peer_id(&self) -> (r: PeerId)
        ensures
            identity_public(self.encoded()) is Some,
            r@ == peer_of_key(identity_public(self.encoded())->0),
    {
        proof {
            use_type_invariant(self);
        }
        match keypair_public(self.keypair.as_slice()) {
            Some(key) => match peer_id_of_key(key.as_slice()) {
                Some(p) => p,
                None => {
                    assert(false);
                    String::new()
                },
            },
            None => {
                assert(false);
                String::new()
            },
        }
    }

    /// Whether there are post-quantum keys.
    pub fn has_pq_keys(&self) -> (r: bool)
        ensures
            r == (self.pq() is Some),
    {
        self.pq_keys.is_some()
    }

    /// New post-quantum keys, to be written to their file and then kept; nothing where there are some.
    pub fn missing_pq_keys(&self) -> (r: Option<PqKeys>)
        ensures
            r is Some <==> self.pq() is None,
            r matches Some(k) ==> sound_keys(k@) && k@.kem_ek == mlkem_public(k@.kem_dk) && k@.sig_vk == mldsa_public(
                k@.sig_sk,
            ),
    {
        if self.pq_keys.is_some() {
            None
        } else {
            Some(PqKeys::generate())
        }
    }

    /// The same key pair with these post-quantum keys.
    pub fn with_pq_keys(self, keys: PqKeys) -> (r: Self)
        ensures
            r.encoded() == self.encoded(),
            r.pq() == Some(keys),
    {
        proof {
            use_type_invariant(&self);
        }
        KeyManager { keypair: self.keypair, pq_keys: Some(keys) }
    }

    /// The post-quantum keys, which the key pair is parted from.
    pub fn take_pq_keys(self) -> (r: (Self, Option<PqKeys>))
        ensures
            r.0.encoded() == self.encoded(),
            r.0.pq() is None,
            r.1 == self.pq(),
    {
        proof {
            use_type_invariant(&self);
        }
        let KeyManager { keypair, pq_keys } = self;
        (KeyManager { keypair, pq_keys: None }, pq_keys)
    }
}

} // verus!
