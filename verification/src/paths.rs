//! Where the node keeps its files.
//!
//! A path that the environment gives outright counts first, then a file in the home directory that
//! the environment gives, then a file in the current directory. Paths are the bytes that the system
//! has for them.

use crate::bytes::{copy_bytes, push_bytes};
use vstd::prelude::*;
use vstd::string::*;
use vstd::utf8::encode_utf8;

verus! {

/// The home directory where the environment gives none.
pub const DEFAULT_HOME: &'static str = "/var/lib/nexusnet";

/// Whether the environment gives a value that is not empty.
pub open spec fn given(v: Option<&[u8]>) -> bool {
    v matches Some(b) && b@.len() > 0
}

fn is_given(v: Option<&[u8]>) -> (r: bool)
    ensures
        r == given(v),
{
    match v {
        Some(b) => b.len() > 0,
        None => false,
    }
}

/// A name in a directory.
pub open spec fn in_dir(dir: Seq<u8>, name: Seq<u8>) -> Seq<u8> {
    if dir.len() > 0 && dir.last() == 47 {
        dir + name
    } else {
        dir + seq![47u8] + name
    }
}

/// Where a file is kept.
pub open spec fn resolved(explicit: Option<&[u8]>, home: Option<&[u8]>, name: Seq<char>) -> Seq<u8> {
    if given(explicit) {
        explicit->0@
    } else if given(home) {
        in_dir(home->0@, encode_utf8(name))
    } else {
        encode_utf8("./"@) + encode_utf8(name)
    }
}

/// The directory of the node's data: the given one, or the default.
pub fn data_home(home: Option<&[u8]>) -> (r: Vec<u8>)
    ensures
        r@ == (if given(home) {
            home->0@
        } else {
            encode_utf8(DEFAULT_HOME@)
        }),
{
    match home {
        Some(dir) => if dir.len() > 0 {
            copy_bytes(dir)
        } else {
            copy_bytes(DEFAULT_HOME.as_bytes())
        },
        None => copy_bytes(DEFAULT_HOME.as_bytes()),
    }
}

fn resolve(explicit: Option<&[u8]>, home: Option<&[u8]>, name: &str) -> (r: Vec<u8>)
    ensures
        r@ == resolved(explicit, home, name@),
{
    match explicit {
        Some(path) => if path.len() > 0 {
            return copy_bytes(path);
        },
        None => {},
    }
    if is_given(home) {
        let mut path = data_home(home);
        let n: usize = path.len();
        if path[n - 1] != 47 {
            path.push(47);
        }
        push_bytes(&mut path, name.as_bytes());
        assert(path@ =~= in_dir(home->0@, encode_utf8(name@)));
        return path;
    }
    let mut path = copy_bytes("./".as_bytes());
    push_bytes(&mut path, name.as_bytes());
    path
}

/// The configuration file: `NEXUSNET_CONFIG`, or `config.toml` in `NEXUSNET_HOME`, or
/// `./config.toml`.
pub fn config_path(explicit: Option<&[u8]>, home: Option<&[u8]>) -> (r: Vec<u8>)
    ensures
        r@ == resolved(explicit, home, "config.toml"@),
{
    resolve(explicit, home, "config.toml")
}

/// The file of the node's key pair: `NEXUSNET_KEYPAIR`, or `keypair.bin` in `NEXUSNET_HOME`, or
/// `./keypair.bin`.
pub fn keypair_path(explicit: Option<&[u8]>, home: Option<&[u8]>) -> (r: Vec<u8>)
    ensures
        r@ == resolved(explicit, home, "keypair.bin"@),
{
    resolve(explicit, home, "keypair.bin")
}

/// The log file: `NEXUSNET_LOG_FILE`, or `log` in `NEXUSNET_HOME`, or `./log`.
pub fn log_path(explicit: Option<&[u8]>, home: Option<&[u8]>) -> (r: Vec<u8>)
    ensures
        r@ == resolved(explicit, home, "log"@),
{
    resolve(explicit, home, "log")
}

/// A file is where it was said to be; otherwise it is in the home directory, with one slash between;
/// otherwise in the current directory. What is empty was not said.
pub proof fn files_are_where_they_are_said(explicit: Option<&[u8]>, home: Option<&[u8]>, name: Seq<char>)
    ensures
        explicit matches Some(e) ==> (e@.len() > 0 ==> resolved(explicit, home, name) == e@),
        (explicit matches Some(e) ==> e@.len() == 0) ==> (home matches Some(h) ==> (h@.len() > 0 && h@.last() != 47
            ==> resolved(explicit, home, name) == h@ + seq![47u8] + encode_utf8(name))),
        (explicit matches Some(e) ==> e@.len() == 0) ==> (home matches Some(h) ==> (h@.len() > 0 && h@.last() == 47
            ==> resolved(explicit, home, name) == h@ + encode_utf8(name))),
        (explicit matches Some(e) ==> e@.len() == 0) && (home matches Some(h) ==> h@.len() == 0) ==> resolved(
            explicit,
            home,
            name,
        ) == encode_utf8("./"@) + encode_utf8(name),
        DEFAULT_HOME@ == "/var/lib/nexusnet"@,
{
}

} // verus!
