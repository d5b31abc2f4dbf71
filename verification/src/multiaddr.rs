//! Network addresses as plain data.

use crate::crypto::PeerId;
use crate::text::{decimal, decimal_digits, decimal_injective, decimal_text, join2, same_text};
use libp2p::multiaddr;
use vstd::prelude::*;
use vstd::string::*;

verus! {

/// An IP address, as the number that its bytes are, most significant first.
#[derive(Debug, Clone, Copy, PartialEq, Eq, Structural)]
pub enum IpAddr {
    V4(u32),
    V6(u128),
}

impl IpAddr {
    /// Whether the address is one of IPv4.
    pub fn is_ipv4(&self) -> (r: bool)
        ensures
            r == (self is V4),
    {
        match self {
            IpAddr::V4(_) => true,
            IpAddr::V6(_) => false,
        }
    }
}

/// One part of a network address.
#[derive(Debug, Clone, PartialEq, Eq)]
pub enum Protocol {
    Ip4(u32),
    Ip6(u128),
    Tcp(u16),
    P2p(PeerId),
    P2pCircuit,
    /// A part of another kind, as its text.
    Other(String),
}

/// What one part of a network address says.
pub enum Part {
    Ip4(u32),
    Ip6(u128),
    Tcp(u16),
    P2p(Seq<char>),
    P2pCircuit,
    Other(Seq<char>),
}

impl Protocol {
    pub open spec fn view(&self) -> Part {
        match self {
            Protocol::Ip4(n) => Part::Ip4(*n),
            Protocol::Ip6(n) => Part::Ip6(*n),
            Protocol::Tcp(n) => Part::Tcp(*n),
            Protocol::P2p(id) => Part::P2p(id@),
            Protocol::P2pCircuit => Part::P2pCircuit,
            Protocol::Other(t) => Part::Other(t@),
        }
    }

    /// A copy of the part.
    pub fn copy(&self) -> (r: Self)
        ensures
            r@ == self@,
    {
        match self {
            Protocol::Ip4(n) => Protocol::Ip4(*n),
            Protocol::Ip6(n) => Protocol::Ip6(*n),
            Protocol::Tcp(n) => Protocol::Tcp(*n),
            Protocol::P2p(id) => Protocol::P2p(id.clone()),
            Protocol::P2pCircuit => Protocol::P2pCircuit,
            Protocol::Other(t) => Protocol::Other(t.clone()),
        }
    }

    /// Whether two parts say the same.
    pub fn same(&self, other: &Protocol) -> (r: bool)
        ensures
            r == (self@ == other@),
    {
        match (self, other) {
            (Protocol::Ip4(a), Protocol::Ip4(b)) => *a == *b,
            (Protocol::Ip6(a), Protocol::Ip6(b)) => *a == *b,
            (Protocol::Tcp(a), Protocol::Tcp(b)) => *a == *b,
            (Protocol::P2p(a), Protocol::P2p(b)) => same_text(a.as_str(), b.as_str()),
            (Protocol::P2pCircuit, Protocol::P2pCircuit) => true,
            (Protocol::Other(a), Protocol::Other(b)) => same_text(a.as_str(), b.as_str()),
            _ => false,
        }
    }
}

/// A network address: its parts in order.
#[derive(Debug, Clone, PartialEq, Eq)]
pub struct Multiaddr {
    pub parts: Vec<Protocol>,
}

/// Whether some part names a peer.
pub open spec fn has_peer(a: Seq<Part>) -> bool {
    exists|i: int| 0 <= i < a.len() && #[trigger] a[i] is P2p
}

/// Whether some part is an IPv4 address.
pub open spec fn has_ip4(a: Seq<Part>) -> bool {
    exists|i: int| 0 <= i < a.len() && #[trigger] a[i] is Ip4
}

/// Whether some part is an IPv6 address.
pub open spec fn has_ip6(a: Seq<Part>) -> bool {
    exists|i: int| 0 <= i < a.len() && #[trigger] a[i] is Ip6
}

/// The peer that the first such part names.
pub open spec fn peer_of(a: Seq<Part>) -> Option<Seq<char>>
    decreases a.len(),
{
    if a.len() == 0 {
        None
    } else {
        match a[0] {
            Part::P2p(id) => Some(id),
            _ => peer_of(a.drop_first()),
        }
    }
}

/// The address with the peer at its end, unless it names one already.
pub open spec fn with_peer(a: Seq<Part>, peer: Seq<char>) -> Seq<Part> {
    if has_peer(a) {
        a
    } else {
        a.push(Part::P2p(peer))
    }
}

/// What addresses say.
pub open spec fn addr_views(s: Seq<Multiaddr>) -> Seq<Seq<Part>> {
    s.map_values(|a: Multiaddr| a@)
}

/// The dotted text of an IPv4 address.
pub open spec fn ip4_display(n: u32) -> Seq<char> {
    decimal((n / 0x1000000) as nat) + "."@ + decimal((n / 0x10000 % 256) as nat) + "."@ + decimal(
        (n / 0x100 % 256) as nat,
    ) + "."@ + decimal((n % 256) as nat)
}

/// The text of an IPv6 address.
pub uninterp spec fn ip6_display(n: u128) -> Seq<char>;

/// The IPv6 address that a text is, if it is one.
pub uninterp spec fn ip6_of_text(text: Seq<char>) -> Option<u128>;

/// The text that `std`'s IPv6 address has (the address inside `libp2p::multiaddr::Protocol::Ip6`):
/// it has a colon, and is read back as the address.
#[verifier::external_body]
fn ip6_text(n: u128) -> (r: String)
    ensures
        r@ == ip6_display(n),
        ip6_of_text(r@) == Some(n),
        exists|i: int| 0 <= i < r@.len() && #[trigger] r@[i] == ':',
{
    match multiaddr::Protocol::Ip6(n.into()) {
        multiaddr::Protocol::Ip6(ip) => ip.to_string(),
        other => other.to_string(),
    }
}

/// Reads an IPv6 address as `std` does (into the address of a `libp2p::multiaddr::Protocol::Ip6`).
#[verifier::external_body]
fn parse_ip6(text: &str) -> (r: Option<u128>)
    ensures
        r == ip6_of_text(text@),
{
    match multiaddr::Protocol::Ip6(text.parse().ok()?) {
        multiaddr::Protocol::Ip6(ip) => Some(ip.into()),
        _ => None,
    }
}

/// The IPv4 address whose dotted text a text is, if it is one.
pub open spec fn ip4_of_text(t: Seq<char>) -> Option<u32> {
    if exists|n: u32| #[trigger] ip4_display(n) == t {
        Some(choose|n: u32| #[trigger] ip4_display(n) == t)
    } else {
        None
    }
}

/// Reads an IPv4 address as `std` does (into the address of a `libp2p::multiaddr::Protocol::Ip4`):
/// it takes exactly the texts that are four decimal numbers below 256, without leading zeros, with
/// dots between them.
#[verifier::external_body]
fn parse_ip4(text: &str) -> (r: Option<u32>)
    ensures
        r == ip4_of_text(text@),
{
    match multiaddr::Protocol::Ip4(text.parse().ok()?) {
        multiaddr::Protocol::Ip4(ip) => Some(ip.into()),
        _ => None,
    }
}

/// The text of an IP address.
pub open spec fn ip_display(ip: IpAddr) -> Seq<char> {
    match ip {
        IpAddr::V4(n) => ip4_display(n),
        IpAddr::V6(n) => ip6_display(n),
    }
}

/// The IP address that a text is, if it is one.
pub open spec fn ip_of_text(t: Seq<char>) -> Option<IpAddr> {
    match ip4_of_text(t) {
        Some(n) => Some(IpAddr::V4(n)),
        None => match ip6_of_text(t) {
            Some(n) => Some(IpAddr::V6(n)),
            None => None,
        },
    }
}

fn ip4_text(n: u32) -> (r: String)
    ensures
        r@ == ip4_display(n),
{
    let mut s = decimal_text((n / 0x1000000) as u64);
    s.append(".");
    s.append(decimal_text((n / 0x10000 % 256) as u64).as_str());
    s.append(".");
    s.append(decimal_text((n / 0x100 % 256) as u64).as_str());
    s.append(".");
    s.append(decimal_text((n % 256) as u64).as_str());
    s
}

impl IpAddr {
    /// The text of the address. It is read back as the address.
    pub fn to_text(&self) -> (r: String)
        ensures
            r@ == ip_display(*self),
            ip_of_text(r@) == Some(*self),
    {
        match self {
            IpAddr::V4(n) => {
                let s = ip4_text(*n);
                proof {
                    ip4_read_back(*n);
                }
                s
            },
            IpAddr::V6(n) => {
                let s = ip6_text(*n);
                proof {
                    if ip4_of_text(s@) is Some {
                        let m = ip4_of_text(s@)->0;
                        ip4_has_no_colon(m);
                        let i = choose|i: int| 0 <= i < s@.len() && #[trigger] s@[i] == ':';
                        assert(ip4_display(m)[i] != ':');
                    }
                }
                s
            },
        }
    }

    /// Reads an address.
    pub fn from_text(text: &str) -> (r: Option<IpAddr>)
        ensures
            r == ip_of_text(text@),
    {
        match parse_ip4(text) {
            Some(n) => Some(IpAddr::V4(n)),
            None => match parse_ip6(text) {
                Some(n) => Some(IpAddr::V6(n)),
                None => None,
            },
        }
    }
}

/// Two texts with a dot behind a part that has none agree in both parts.
proof fn same_around_dot(a: Seq<char>, b: Seq<char>, x: Seq<char>, y: Seq<char>)
    requires
        forall|i: int| 0 <= i < a.len() ==> #[trigger] a[i] != '.',
        forall|i: int| 0 <= i < b.len() ==> #[trigger] b[i] != '.',
        a + "."@ + x == b + "."@ + y,
    ensures
        a == b,
        x == y,
{
    reveal_strlit(".");
    let s = a + "."@ + x;
    let t = b + "."@ + y;
    assert(s[a.len() as int] == '.');
    assert(t[b.len() as int] == '.');
    if a.len() < b.len() {
        assert(t[a.len() as int] == b[a.len() as int]);
    } else if b.len() < a.len() {
        assert(s[b.len() as int] == a[b.len() as int]);
    }
    assert(a =~= s.subrange(0, a.len() as int));
    assert(b =~= t.subrange(0, b.len() as int));
    assert(x =~= s.subrange(a.len() as int + 1, s.len() as int));
    assert(y =~= t.subrange(b.len() as int + 1, t.len() as int));
}

/// The dotted text of an IPv4 address has no colon.
proof fn ip4_has_no_colon(n: u32)
    ensures
        forall|i: int| 0 <= i < ip4_display(n).len() ==> #[trigger] ip4_display(n)[i] != ':',
{
    reveal_strlit(".");
    decimal_digits((n / 0x1000000) as nat);
    decimal_digits((n / 0x10000 % 256) as nat);
    decimal_digits((n / 0x100 % 256) as nat);
    decimal_digits((n % 256) as nat);
    let a = decimal((n / 0x1000000) as nat);
    let b = decimal((n / 0x10000 % 256) as nat);
    let c = decimal((n / 0x100 % 256) as nat);
    let d = decimal((n % 256) as nat);
    let t = ip4_display(n);
    assert forall|i: int| 0 <= i < t.len() implies #[trigger] t[i] != ':' by {
        let p = a.len() as int;
        let q = p + 1 + b.len();
        let r = q + 1 + c.len();
        if i < p {
            assert(t[i] == a[i]);
        } else if i == p {
            assert(t[i] == '.');
        } else if i < q {
            assert(t[i] == b[i - p - 1]);
        } else if i == q {
            assert(t[i] == '.');
        } else if i < r {
            assert(t[i] == c[i - q - 1]);
        } else if i == r {
            assert(t[i] == '.');
        } else {
            assert(t[i] == d[i - r - 1]);
        }
    }
}

proof fn dots_assoc(a: Seq<char>, b: Seq<char>, c: Seq<char>, d: Seq<char>, dot: Seq<char>)
    ensures
        a + dot + b + dot + c + dot + d == a + dot + (b + dot + (c + dot + d)),
{
    assert(a + dot + b + dot + c + dot + d =~= a + dot + (b + dot + (c + dot + d)));
}

proof fn same_bytes_same_number(n: u32, m: u32)
    requires
        n / 0x1000000 == m / 0x1000000,
        n / 0x10000 % 256 == m / 0x10000 % 256,
        n / 0x100 % 256 == m / 0x100 % 256,
        n % 256 == m % 256,
    ensures
        n == m,
{
    assert(n == m) by (bit_vector)
        requires
            n / 0x1000000 == m / 0x1000000,
            n / 0x10000 % 256 == m / 0x10000 % 256,
            n / 0x100 % 256 == m / 0x100 % 256,
            n % 256 == m % 256,
    ;
}

proof fn no_dot(n: nat)
    ensures
        forall|i: int| 0 <= i < decimal(n).len() ==> #[trigger] decimal(n)[i] != '.',
{
    decimal_digits(n);
}

proof fn dotted_is_injective(a: nat, b: nat, c: nat, d: nat, e: nat, f: nat, g: nat, h: nat)
    requires
        decimal(a) + "."@ + decimal(b) + "."@ + decimal(c) + "."@ + decimal(d) == decimal(e) + "."@ + decimal(f)
            + "."@ + decimal(g) + "."@ + decimal(h),
    ensures
        a == e,
        b == f,
        c == g,
        d == h,
{
    let dot = "."@;
    no_dot(a);
    no_dot(b);
    no_dot(c);
    no_dot(e);
    no_dot(f);
    no_dot(g);
    dots_assoc(decimal(a), decimal(b), decimal(c), decimal(d), dot);
    dots_assoc(decimal(e), decimal(f), decimal(g), decimal(h), dot);
    same_around_dot(
        decimal(a),
        decimal(e),
        decimal(b) + dot + (decimal(c) + dot + decimal(d)),
        decimal(f) + dot + (decimal(g) + dot + decimal(h)),
    );
    same_around_dot(decimal(b), decimal(f), decimal(c) + dot + decimal(d), decimal(g) + dot + decimal(h));
    same_around_dot(decimal(c), decimal(g), decimal(d), decimal(h));
    decimal_injective(a, e);
    decimal_injective(b, f);
    decimal_injective(c, g);
    decimal_injective(d, h);
}

/// The dotted text of an IPv4 address is that of no other.
pub proof fn ip4_read_back(n: u32)
    ensures
        ip4_of_text(ip4_display(n)) == Some(n),
{
    assert(ip4_display(n) == ip4_display(n));
    let m = choose|m: u32| #[trigger] ip4_display(m) == ip4_display(n);
    dotted_is_injective(
        (n / 0x1000000) as nat,
        (n / 0x10000 % 256) as nat,
        (n / 0x100 % 256) as nat,
        (n % 256) as nat,
        (m / 0x1000000) as nat,
        (m / 0x10000 % 256) as nat,
        (m / 0x100 % 256) as nat,
        (m % 256) as nat,
    );
    same_bytes_same_number(n, m);
}

/// The text of a part.
pub open spec fn part_text(p: Part) -> Seq<char> {
    match p {
        Part::Ip4(n) => "/ip4/"@ + ip4_display(n),
        Part::Ip6(n) => "/ip6/"@ + ip6_display(n),
        Part::Tcp(n) => "/tcp/"@ + decimal(n as nat),
        Part::P2p(id) => "/p2p/"@ + id,
        Part::P2pCircuit => "/p2p-circuit"@,
        Part::Other(t) => t,
    }
}

/// The text of an address: the texts of its parts.
pub open spec fn addr_text(a: Seq<Part>) -> Seq<char>
    decreases a.len(),
{
    if a.len() == 0 {
        Seq::empty()
    } else {
        addr_text(a.drop_last()) + part_text(a.last())
    }
}

/// The parts of the address that a text is, or the text of the error that refuses it.
pub uninterp spec fn addr_of_text(text: Seq<char>) -> Result<Seq<Part>, Seq<char>>;

/// Whether the text of an address reads back as that address.
pub open spec fn reads_back(a: Seq<Part>) -> bool {
    addr_of_text(addr_text(a)) == Ok::<Seq<Part>, Seq<char>>(a)
}

/// `libp2p::Multiaddr::from_str`, the address given part by part: a part of a kind that is not
/// told apart here as its text. The text of an address that was read reads back as that address.
#[verifier::external_body]
fn parse_multiaddr(text: &str) -> (r: Result<Multiaddr, String>)
    ensures
        match r {
            Ok(a) => addr_of_text(text@) == Ok::<Seq<Part>, Seq<char>>(a@),
            Err(e) => addr_of_text(text@) == Err::<Seq<Part>, Seq<char>>(e@),
        },
        r is Ok ==> reads_back(r->Ok_0@),
{
    let addr = text.parse::<libp2p::Multiaddr>().map_err(|e| e.to_string())?;
    let parts = addr.iter().map(|p| match p {
        multiaddr::Protocol::Ip4(ip) => Protocol::Ip4(ip.into()),
        multiaddr::Protocol::Ip6(ip) => Protocol::Ip6(ip.into()),
        multiaddr::Protocol::Tcp(port) => Protocol::Tcp(port),
        multiaddr::Protocol::P2p(id) => Protocol::P2p(id.to_string()),
        multiaddr::Protocol::P2pCircuit => Protocol::P2pCircuit,
        other => Protocol::Other(other.to_string()),
    });
    Ok(Multiaddr { parts: parts.collect() })
}

impl Multiaddr {
    pub open spec fn view(&self) -> Seq<Part> {
        self.parts@.map_values(|p: Protocol| p@)
    }

    /// The address that a text is, or the text of the error that refuses it. The address's own text
    /// reads back as it.
    pub fn from_text(text: &str) -> (r: Result<Multiaddr, String>)
        ensures
            match r {
                Ok(a) => addr_of_text(text@) == Ok::<Seq<Part>, Seq<char>>(a@) && reads_back(a@),
                Err(e) => addr_of_text(text@) == Err::<Seq<Part>, Seq<char>>(e@),
            },
    {
        parse_multiaddr(text)
    }

    /// A copy of the address.
    pub fn copy(&self) -> (r: Self)
        ensures
            r@ == self@,
    {
        let mut parts: Vec<Protocol> = Vec::new();
        let mut i: usize = 0;
        while i < self.parts.len()
            invariant
                i <= self.parts@.len(),
                parts@.len() == i,
                forall|j: int| 0 <= j < i ==> (#[trigger] parts@[j])@ == self.parts@[j]@,
            decreases self.parts@.len() - i,
        {
            parts.push(self.parts[i].copy());
            i += 1;
        }
        let r = Multiaddr { parts };
        assert(r@ =~= self@);
        r
    }

    /// Whether two addresses say the same.
    pub fn same(&self, other: &Multiaddr) -> (r: bool)
        ensures
            r == (self@ == other@),
    {
        if self.parts.len() != other.parts.len() {
            assert(self@.len() != other@.len());
            return false;
        }
        let mut i: usize = 0;
        while i < self.parts.len()
            invariant
                self.parts@.len() == other.parts@.len(),
                i <= self.parts@.len(),
                forall|j: int| 0 <= j < i ==> (#[trigger] self.parts@[j])@ == other.parts@[j]@,
            decreases self.parts@.len() - i,
        {
            if !self.parts[i].same(&other.parts[i]) {
                assert(self@[i as int] != other@[i as int]);
                return false;
            }
            i += 1;
        }
        assert(self@ =~= other@);
        true
    }

    /// Adds a part at the end.
    pub fn push(&mut self, p: Protocol)
        ensures
            final(self)@ == old(self)@.push(p@),
    {
        self.parts.push(p);
        assert(self@ =~= old(self)@.push(p@));
    }

    /// Whether the address names a peer.
    pub fn has_peer(&self) -> (r: bool)
        ensures
            r == has_peer(self@),
    {
        let mut i: usize = 0;
        while i < self.parts.len()
            invariant
                i <= self.parts@.len(),
                forall|j: int| 0 <= j < i ==> !(#[trigger] self@[j] is P2p),
            decreases self.parts@.len() - i,
        {
            match &self.parts[i] {
                Protocol::P2p(_) => {
                    assert(self@[i as int] is P2p);
                    return true;
                },
                _ => {},
            }
            i += 1;
        }
        false
    }

    /// Whether the address has an IPv4 part.
    pub fn has_ip4(&self) -> (r: bool)
        ensures
            r == has_ip4(self@),
    {
        let mut i: usize = 0;
        while i < self.parts.len()
            invariant
                i <= self.parts@.len(),
                forall|j: int| 0 <= j < i ==> !(#[trigger] self@[j] is Ip4),
            decreases self.parts@.len() - i,
        {
            match &self.parts[i] {
                Protocol::Ip4(_) => {
                    assert(self@[i as int] is Ip4);
                    return true;
                },
                _ => {},
            }
            i += 1;
        }
        false
    }

    /// Whether the address has an IPv6 part.
    pub fn has_ip6(&self) -> (r: bool)
        ensures
            r == has_ip6(self@),
    {
        let mut i: usize = 0;
        while i < self.parts.len()
            invariant
                i <= self.parts@.len(),
                forall|j: int| 0 <= j < i ==> !(#[trigger] self@[j] is Ip6),
            decreases self.parts@.len() - i,
        {
            match &self.parts[i] {
                Protocol::Ip6(_) => {
                    assert(self@[i as int] is Ip6);
                    return true;
                },
                _ => {},
            }
            i += 1;
        }
        false
    }

    /// The address with the peer at its end, unless it names one already.
    pub fn with_peer(&self, peer: &str) -> (r: Self)
        ensures
            r@ == with_peer(self@, peer@),
    {
        let mut a = self.copy();
        if !self.has_peer() {
            a.push(Protocol::P2p(peer.to_owned()));
        }
        a
    }

    /// The text of the address.
    pub fn to_text(&self) -> (r: String)
        ensures
            r@ == addr_text(self@),
    {
        let mut s = String::new();
        let mut i: usize = 0;
        assert(self@.subrange(0, 0) =~= Seq::<Part>::empty());
        while i < self.parts.len()
            invariant
                i <= self.parts@.len(),
                s@ == addr_text(self@.subrange(0, i as int)),
            decreases self.parts@.len() - i,
        {
            let t = self.parts[i].to_text();
            s.append(t.as_str());
            proof {
                let upto = self@.subrange(0, i + 1);
                assert(upto.drop_last() =~= self@.subrange(0, i as int));
                assert(upto.last() == self.parts@[i as int]@);
            }
            i += 1;
        }
        assert(self@.subrange(0, self@.len() as int) =~= self@);
        s
    }
}

impl Protocol {
    /// The text of the part.
    pub fn to_text(&self) -> (r: String)
        ensures
            r@ == part_text(self@),
    {
        match self {
            Protocol::Ip4(n) => join2("/ip4/", ip4_text(*n).as_str()),
            Protocol::Ip6(n) => join2("/ip6/", ip6_text(*n).as_str()),
            Protocol::Tcp(n) => {
                let mut s = "/tcp/".to_owned();
                s.append(decimal_text(*n as u64).as_str());
                s
            },
            Protocol::P2p(id) => {
                let mut s = "/p2p/".to_owned();
                s.append(id.as_str());
                s
            },
            Protocol::P2pCircuit => "/p2p-circuit".to_owned(),
            Protocol::Other(t) => t.clone(),
        }
    }
}

/// The peer that the first such part of an address names.
pub fn extract_peer_id_from_multiaddr(addr: &Multiaddr) -> (r: Option<PeerId>)
    ensures
        r.deep_view() == peer_of(addr@),
{
    let mut i: usize = 0;
    assert(addr@.subrange(0, addr@.len() as int) =~= addr@);
    while i < addr.parts.len()
        invariant
            i <= addr.parts@.len(),
            peer_of(addr@) == peer_of(addr@.subrange(i as int, addr@.len() as int)),
        decreases addr.parts@.len() - i,
    {
        let ghost rest = addr@.subrange(i as int, addr@.len() as int);
        proof {
            assert(rest[0] == addr.parts@[i as int]@);
            assert(rest.drop_first() =~= addr@.subrange(i + 1, addr@.len() as int));
        }
        match &addr.parts[i] {
            Protocol::P2p(id) => {
                return Some(id.clone());
            },
            _ => {},
        }
        i += 1;
    }
    None
}

/// Whether some address has an IPv4 part and some address has an IPv6 part.
pub open spec fn dual_stack(addrs: Seq<Seq<Part>>) -> bool {
    &&& exists|i: int| 0 <= i < addrs.len() && has_ip4(#[trigger] addrs[i])
    &&& exists|i: int| 0 <= i < addrs.len() && has_ip6(#[trigger] addrs[i])
}

/// Whether addresses have both families.
pub fn is_dual_stack_addrs(addrs: &Vec<Multiaddr>) -> (r: bool)
    ensures
        r == dual_stack(addr_views(addrs@)),
{
    let mut v4: bool = false;
    let mut v6: bool = false;
    let ghost all = addr_views(addrs@);
    let mut i: usize = 0;
    while i < addrs.len()
        invariant
            i <= addrs@.len(),
            all == addr_views(addrs@),
            v4 == (exists|j: int| 0 <= j < i && has_ip4(#[trigger] all[j])),
            v6 == (exists|j: int| 0 <= j < i && has_ip6(#[trigger] all[j])),
        decreases addrs@.len() - i,
    {
        assert(all[i as int] == addrs@[i as int]@);
        if addrs[i].has_ip4() {
            assert(has_ip4(all[i as int]));
            v4 = true;
        }
        if addrs[i].has_ip6() {
            assert(has_ip6(all[i as int]));
            v6 = true;
        }
        i += 1;
    }
    v4 && v6
}

/// One address of each family: the first with an IPv4 part, and the first other one with an IPv6
/// part, each with the peer at its end.
pub open spec fn one_per_family(addrs: Seq<Seq<Part>>, peer: Seq<char>) -> (Option<Seq<Part>>, Option<Seq<Part>>)
    decreases addrs.len(),
{
    if addrs.len() == 0 {
        (None, None)
    } else {
        let (v4, v6) = one_per_family(addrs.drop_last(), peer);
        let a = addrs.last();
        if has_ip4(a) && v4 is None {
            (Some(with_peer(a, peer)), v6)
        } else if has_ip6(a) && v6 is None {
            (v4, Some(with_peer(a, peer)))
        } else {
            (v4, v6)
        }
    }
}

/// The chosen addresses in order: IPv4, then IPv6.
pub open spec fn chosen_addrs(addrs: Seq<Seq<Part>>, peer: Seq<char>) -> Seq<Seq<Part>> {
    match one_per_family(addrs, peer) {
        (Some(a), Some(b)) => seq![a, b],
        (Some(a), None) => seq![a],
        (None, Some(b)) => seq![b],
        (None, None) => Seq::empty(),
    }
}

/// Picks one address of each family from those that a peer listens on, with the peer at the end.
pub fn bootstrap_addrs_from(addrs: &Vec<Multiaddr>, peer_id: &str) -> (r: Vec<Multiaddr>)
    ensures
        addr_views(r@) == chosen_addrs(addr_views(addrs@), peer_id@),
{
    let mut v4: Option<Multiaddr> = None;
    let mut v6: Option<Multiaddr> = None;
    let ghost all = addr_views(addrs@);
    let mut i: usize = 0;
    assert(all.subrange(0, 0) =~= Seq::<Seq<Part>>::empty());
    while i < addrs.len()
        invariant
            i <= addrs@.len(),
            all == addr_views(addrs@),
            one_per_family(all.subrange(0, i as int), peer_id@) == (
                match v4 { Some(a) => Some(a@), None => None },
                match v6 { Some(a) => Some(a@), None => None },
            ),
        decreases addrs@.len() - i,
    {
        proof {
            let upto = all.subrange(0, i + 1);
            assert(upto.drop_last() =~= all.subrange(0, i as int));
            assert(upto.last() == addrs@[i as int]@);
        }
        let full = addrs[i].with_peer(peer_id);
        let is_v4 = addrs[i].has_ip4();
        let is_v6 = addrs[i].has_ip6();
        if is_v4 && v4.is_none() {
            v4 = Some(full);
        } else if is_v6 && v6.is_none() {
            v6 = Some(full);
        }
        i += 1;
    }
    assert(all.subrange(0, all.len() as int) =~= all);
    let mut out: Vec<Multiaddr> = Vec::new();
    match v4 {
        Some(a) => out.push(a),
        None => {},
    }
    match v6 {
        Some(a) => out.push(a),
        None => {},
    }
    assert(addr_views(out@) =~= chosen_addrs(all, peer_id@));
    out
}

/// Every chosen address names a peer, there are at most two, and every chosen address comes from
/// the list.
pub proof fn chosen_addrs_name_a_peer(addrs: Seq<Seq<Part>>, peer: Seq<char>)
    ensures
        chosen_addrs(addrs, peer).len() <= 2,
        forall|i: int| 0 <= i < chosen_addrs(addrs, peer).len() ==> has_peer(#[trigger] chosen_addrs(addrs, peer)[i]),
        one_per_family(addrs, peer).0 matches Some(a) ==> exists|j: int| 0 <= j < addrs.len() && has_ip4(addrs[j]) && a == with_peer(#[trigger] addrs[j], peer),
        one_per_family(addrs, peer).1 matches Some(a) ==> exists|j: int| 0 <= j < addrs.len() && has_ip6(addrs[j]) && a == with_peer(#[trigger] addrs[j], peer),
    decreases addrs.len(),
{
    if addrs.len() > 0 {
        let before = addrs.drop_last();
        chosen_addrs_name_a_peer(before, peer);
        with_peer_names_one(addrs.last(), peer);
        let (v4, v6) = one_per_family(before, peer);
        if let Some(a) = v4 {
            let j = choose|j: int| 0 <= j < before.len() && has_ip4(before[j]) && a == with_peer(#[trigger] before[j], peer);
            assert(addrs[j] == before[j]);
            with_peer_names_one(addrs[j], peer);
        }
        if let Some(a) = v6 {
            let j = choose|j: int| 0 <= j < before.len() && has_ip6(before[j]) && a == with_peer(#[trigger] before[j], peer);
            assert(addrs[j] == before[j]);
            with_peer_names_one(addrs[j], peer);
        }
    }
}

/// An address to which the peer was added names a peer, and only one more part was added.
pub proof fn with_peer_names_one(a: Seq<Part>, peer: Seq<char>)
    ensures
        has_peer(with_peer(a, peer)),
        !has_peer(a) ==> peer_of(with_peer(a, peer)) == Some(peer),
        with_peer(with_peer(a, peer), peer) == with_peer(a, peer),
{
    if !has_peer(a) {
        let b = a.push(Part::P2p(peer));
        assert(b[a.len() as int] is P2p);
        assert forall|i: int| 0 <= i < a.len() implies !(#[trigger] b[i] is P2p) by {
            assert(!(a[i] is P2p));
        }
        peer_at_end(b);
    }
}

proof fn peer_at_end(b: Seq<Part>)
    requires
        b.len() > 0,
        b.last() is P2p,
        forall|i: int| 0 <= i < b.len() - 1 ==> !(#[trigger] b[i] is P2p),
    ensures
        peer_of(b) == Some(b.last()->P2p_0),
    decreases b.len(),
{
    if b.len() > 1 {
        let rest = b.drop_first();
        assert forall|i: int| 0 <= i < rest.len() - 1 implies !(#[trigger] rest[i] is P2p) by {
            assert(rest[i] == b[i + 1]);
        }
        peer_at_end(rest);
    }
}

/// The peer of an address is the one that its first such part names, and an address without such a part
/// has none.
pub proof fn first_named_peer_counts(a: Seq<Part>)
    ensures
        peer_of(a) is None <==> forall|i: int| 0 <= i < a.len() ==> !(#[trigger] a[i] is P2p),
        forall|i: int|
            0 <= i < a.len() && a[i] is P2p && (forall|j: int| 0 <= j < i ==> !(#[trigger] a[j] is P2p)) ==> peer_of(a) == Some(
                (#[trigger] a[i])->P2p_0,
            ),
    decreases a.len(),
{
    if a.len() > 0 {
        let rest = a.drop_first();
        first_named_peer_counts(rest);
        assert forall|i: int| 0 <= i < rest.len() implies #[trigger] rest[i] == a[i + 1] by {}
        if forall|i: int| 0 <= i < a.len() ==> !(#[trigger] a[i] is P2p) {
            assert(!(a[0] is P2p));
            assert forall|i: int| 0 <= i < rest.len() implies !(#[trigger] rest[i] is P2p) by {
                assert(!(a[i + 1] is P2p));
            }
        }
        if peer_of(a) is None {
            assert forall|i: int| 0 <= i < a.len() implies !(#[trigger] a[i] is P2p) by {
                if i > 0 {
                    assert(!(rest[i - 1] is P2p));
                }
            }
        }
        assert forall|i: int|
            0 <= i < a.len() && a[i] is P2p && (forall|j: int| 0 <= j < i ==> !(#[trigger] a[j] is P2p)) implies peer_of(a)
            == Some((#[trigger] a[i])->P2p_0) by {
            if i > 0 {
                assert(!(a[0] is P2p));
                assert(rest[i - 1] == a[i]);
                assert forall|j: int| 0 <= j < i - 1 implies !(#[trigger] rest[j] is P2p) by {
                    assert(!(a[j + 1] is P2p));
                }
            }
        }
    }
}

/// A peer is put at the end of an address exactly when the address names none; otherwise the address
/// stays as it is. Which families addresses have is told by their parts.
pub proof fn peer_is_added_once(a: Seq<Part>, peer: Seq<char>, addrs: Seq<Seq<Part>>)
    ensures
        (forall|i: int| 0 <= i < a.len() ==> !(#[trigger] a[i] is P2p)) ==> with_peer(a, peer) == a.push(Part::P2p(peer)),
        (exists|i: int| 0 <= i < a.len() && #[trigger] a[i] is P2p) ==> with_peer(a, peer) == a,
        has_ip4(a) <==> exists|i: int| 0 <= i < a.len() && #[trigger] a[i] is Ip4,
        has_ip6(a) <==> exists|i: int| 0 <= i < a.len() && #[trigger] a[i] is Ip6,
        dual_stack(addrs) <==> (exists|i: int| 0 <= i < addrs.len() && has_ip4(#[trigger] addrs[i])) && (exists|i: int|
            0 <= i < addrs.len() && has_ip6(#[trigger] addrs[i])),
{
}

proof fn first_v4_is_kept(addrs: Seq<Seq<Part>>, peer: Seq<char>, i: int)
    ensures
        one_per_family(addrs, peer).0 is None <==> forall|k: int| 0 <= k < addrs.len() ==> !has_ip4(#[trigger] addrs[k]),
        0 <= i < addrs.len() && has_ip4(addrs[i]) && (forall|k: int| 0 <= k < i ==> !has_ip4(#[trigger] addrs[k]))
            ==> one_per_family(addrs, peer).0 == Some(with_peer(addrs[i], peer)),
    decreases addrs.len(),
{
    if addrs.len() > 0 {
        let rest = addrs.drop_last();
        let last = addrs.len() - 1;
        assert(addrs[last] == addrs.last());
        assert forall|k: int| 0 <= k < rest.len() implies has_ip4(#[trigger] rest[k]) == has_ip4(addrs[k]) by {}
        first_v4_is_kept(rest, peer, i);
        if forall|k: int| 0 <= k < rest.len() ==> !has_ip4(#[trigger] rest[k]) {
            assert forall|k: int| 0 <= k < last implies !has_ip4(#[trigger] addrs[k]) by {
                assert(!has_ip4(rest[k]));
            }
        } else {
            let k = choose|k: int| 0 <= k < rest.len() && has_ip4(#[trigger] rest[k]);
            assert(has_ip4(addrs[k]));
        }
        if 0 <= i < last && (forall|k: int| 0 <= k < i ==> !has_ip4(#[trigger] addrs[k])) {
            assert forall|k: int| 0 <= k < i implies !has_ip4(#[trigger] rest[k]) by {
                assert(!has_ip4(addrs[k]));
            }
            assert(rest[i] == addrs[i]);
        }
    }
}

proof fn first_v6_is_kept(addrs: Seq<Seq<Part>>, peer: Seq<char>, i: int)
    requires
        forall|k: int| 0 <= k < addrs.len() ==> !(has_ip4(#[trigger] addrs[k]) && has_ip6(addrs[k])),
    ensures
        one_per_family(addrs, peer).1 is None <==> forall|k: int| 0 <= k < addrs.len() ==> !has_ip6(#[trigger] addrs[k]),
        0 <= i < addrs.len() && has_ip6(addrs[i]) && (forall|k: int| 0 <= k < i ==> !has_ip6(#[trigger] addrs[k]))
            ==> one_per_family(addrs, peer).1 == Some(with_peer(addrs[i], peer)),
    decreases addrs.len(),
{
    if addrs.len() > 0 {
        let rest = addrs.drop_last();
        let last = addrs.len() - 1;
        assert(addrs[last] == addrs.last());
        assert forall|k: int| 0 <= k < rest.len() implies has_ip6(#[trigger] rest[k]) == has_ip6(addrs[k]) by {}
        assert forall|k: int| 0 <= k < rest.len() implies !(has_ip4(#[trigger] rest[k]) && has_ip6(rest[k])) by {
            assert(!(has_ip4(addrs[k]) && has_ip6(addrs[k])));
        }
        first_v6_is_kept(rest, peer, i);
        if forall|k: int| 0 <= k < rest.len() ==> !has_ip6(#[trigger] rest[k]) {
            assert forall|k: int| 0 <= k < last implies !has_ip6(#[trigger] addrs[k]) by {
                assert(!has_ip6(rest[k]));
            }
        } else {
            let k = choose|k: int| 0 <= k < rest.len() && has_ip6(#[trigger] rest[k]);
            assert(has_ip6(addrs[k]));
        }
        if 0 <= i < last && (forall|k: int| 0 <= k < i ==> !has_ip6(#[trigger] addrs[k])) {
            assert forall|k: int| 0 <= k < i implies !has_ip6(#[trigger] rest[k]) by {
                assert(!has_ip6(addrs[k]));
            }
            assert(rest[i] == addrs[i]);
        }
    }
}

/// Of the addresses that a peer listens on, the first of each family is chosen, with the peer at its
/// end: where no address has both families, those are the first IPv4 and then the first IPv6 address,
/// and each family that occurs is there.
pub proof fn first_of_each_family_is_chosen(addrs: Seq<Seq<Part>>, peer: Seq<char>, i: int, j: int)
    requires
        forall|k: int| 0 <= k < addrs.len() ==> !(has_ip4(#[trigger] addrs[k]) && has_ip6(addrs[k])),
    ensures
        0 <= i < addrs.len() && has_ip4(addrs[i]) && (forall|k: int| 0 <= k < i ==> !has_ip4(#[trigger] addrs[k]))
            ==> chosen_addrs(addrs, peer).len() > 0 && chosen_addrs(addrs, peer)[0] == with_peer(addrs[i], peer),
        0 <= j < addrs.len() && has_ip6(addrs[j]) && (forall|k: int| 0 <= k < j ==> !has_ip6(#[trigger] addrs[k]))
            ==> chosen_addrs(addrs, peer).len() > 0 && chosen_addrs(addrs, peer).last() == with_peer(addrs[j], peer),
        chosen_addrs(addrs, peer).len() == (if exists|k: int| 0 <= k < addrs.len() && has_ip4(#[trigger] addrs[k]) {
            1int
        } else {
            0
        }) + (if exists|k: int| 0 <= k < addrs.len() && has_ip6(#[trigger] addrs[k]) {
            1int
        } else {
            0
        }),
{
    first_v4_is_kept(addrs, peer, i);
    first_v6_is_kept(addrs, peer, j);
}

/// The text of an address: its parts one after the other, each with its name and its value.
pub proof fn address_text_names_its_parts(a: Seq<Part>, p: Part, n: u32, port: u16, id: Seq<char>)
    ensures
        addr_text(Seq::empty()) == Seq::<char>::empty(),
        addr_text(a.push(p)) == addr_text(a) + part_text(p),
        part_text(Part::Ip4(n)) == "/ip4/"@ + ip4_display(n),
        part_text(Part::Tcp(port)) == "/tcp/"@ + decimal(port as nat),
        part_text(Part::P2p(id)) == "/p2p/"@ + id,
        part_text(Part::P2pCircuit) == "/p2p-circuit"@,
        part_text(Part::Other(id)) == id,
        ip4_display(n) == decimal((n / 16777216) as nat) + "."@ + decimal((n / 65536 % 256) as nat) + "."@ + decimal(
            (n / 256 % 256) as nat,
        ) + "."@ + decimal((n % 256) as nat),
        reads_back(a) <==> addr_of_text(addr_text(a)) == Ok::<Seq<Part>, Seq<char>>(a),
{
    assert(a.push(p).drop_last() =~= a);
}

/// The text of an IPv6 part has the address's text behind its name; and a text is an IP address exactly
/// when it is the dotted text of one, or is read as one of IPv6.
pub proof fn ip_texts_are_read(n: u128, m: u32, t: Seq<char>)
    ensures
        part_text(Part::Ip6(n)) == "/ip6/"@ + ip6_display(n),
        ip_display(IpAddr::V4(m)) == ip4_display(m),
        ip_display(IpAddr::V6(n)) == ip6_display(n),
        ip_of_text(t) == Some(IpAddr::V4(m)) ==> ip4_display(m) == t,
        ip4_display(m) == t ==> (ip_of_text(t) matches Some(ip) && ip is V4),
        (forall|k: u32| #[trigger] ip4_display(k) != t) ==> ip_of_text(t) == (match ip6_of_text(t) {
            Some(k) => Some(IpAddr::V6(k)),
            None => None,
        }),
{
}

/// What addresses say is what each of them says, in order, part by part.
pub proof fn addresses_say_their_parts(s: Seq<Multiaddr>, a: Multiaddr, p: Protocol)
    ensures
        addr_views(s).len() == s.len(),
        forall|i: int| 0 <= i < s.len() ==> #[trigger] addr_views(s)[i] == s[i]@,
        a@.len() == a.parts@.len(),
        forall|i: int| 0 <= i < a.parts@.len() ==> #[trigger] a@[i] == a.parts@[i]@,
        p matches Protocol::Ip4(n) ==> p@ == Part::Ip4(n),
        p matches Protocol::Ip6(n) ==> p@ == Part::Ip6(n),
        p matches Protocol::Tcp(n) ==> p@ == Part::Tcp(n),
        p matches Protocol::P2p(id) ==> p@ == Part::P2p(id@),
        p is P2pCircuit ==> p@ == Part::P2pCircuit,
        p matches Protocol::Other(t) ==> p@ == Part::Other(t@),
{
}

} // verus!
