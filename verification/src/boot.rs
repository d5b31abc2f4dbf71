//! What the command line changes in the configuration.
//!
//! `-p <port>` sets the port, `-c <address>` adds a bootstrap node, and `--connect-overwrite
//! <address>` replaces them all.

use crate::config::{ConfigHandle, KademliaService, NetworkConfig, NodeConfig, ServicesConfig};
use crate::multiaddr::{addr_of_text, addr_views, Multiaddr, Part};
use crate::text::{chars_of, digits_value, join2, same_text};
use vstd::prelude::*;
use vstd::string::*;

verus! {

/// The port where the one on the command line is none.
pub const DEFAULT_PORT: u16 = 5000;

/// Whether every character is a decimal digit.
pub open spec fn all_digits(s: Seq<char>) -> bool {
    forall|i: int| 0 <= i < s.len() ==> '0' <= #[trigger] s[i] <= '9'
}

/// The port that a text is: digits, after a plus sign or not, of a number that fits.
pub open spec fn port_of(t: Seq<char>) -> Option<u16> {
    let digits = if t.len() > 0 && t[0] == '+' {
        t.subrange(1, t.len() as int)
    } else {
        t
    };
    if digits.len() > 0 && all_digits(digits) && digits_value(digits) <= u16::MAX {
        Some(digits_value(digits) as u16)
    } else {
        None
    }
}

proof fn digits_value_grows(s: Seq<char>, i: int)
    requires
        0 <= i <= s.len(),
        all_digits(s),
    ensures
        digits_value(s.subrange(0, i)) <= digits_value(s),
    decreases s.len() - i,
{
    if i < s.len() {
        digits_value_grows(s, i + 1);
        assert(s.subrange(0, i + 1).drop_last() =~= s.subrange(0, i));
        assert('0' <= s[i] <= '9');
    } else {
        assert(s.subrange(0, i) =~= s);
    }
}

/// Reads a port.
pub fn parse_port(t: &str) -> (r: Option<u16>)
    ensures
        r == port_of(t@),
{
    let chars = chars_of(t);
    let n: usize = chars.len();
    let start: usize = if n > 0 && chars[0] == '+' {
        1
    } else {
        0
    };
    let ghost digits = t@.subrange(start as int, n as int);
    assert(start == 0 ==> digits =~= t@);
    if start == n {
        return None;
    }
    let mut value: u32 = 0;
    let mut i: usize = start;
    assert(digits.subrange(0, 0) =~= Seq::<char>::empty());
    while i < n
        invariant
            n == chars@.len(),
            chars@ == t@,
            start <= i <= n,
            start <= n,
            digits == t@.subrange(start as int, n as int),
            digits == (if t@.len() > 0 && t@[0] == '+' {
                t@.subrange(1, t@.len() as int)
            } else {
                t@
            }),
            value <= u16::MAX,
            forall|j: int| 0 <= j < i - start ==> '0' <= #[trigger] digits[j] <= '9',
            value as nat == digits_value(digits.subrange(0, i - start)),
        decreases n - i,
    {
        let c: char = chars[i];
        assert(digits[i - start] == c);
        if !('0' <= c && c <= '9') {
            return None;
        }
        proof {
            let upto = digits.subrange(0, i + 1 - start);
            assert(upto.drop_last() =~= digits.subrange(0, i - start));
            assert(upto.last() == c);
        }
        value = value * 10 + (c as u32 - 48);
        if value > 65535 {
            proof {
                if all_digits(digits) {
                    digits_value_grows(digits, i + 1 - start);
                }
            }
            return None;
        }
        i += 1;
    }
    assert(digits.subrange(0, n - start) =~= digits);
    Some(value as u16)
}

/// Something on the command line that was not taken.
pub enum CliNote {
    /// The port was none, and the default is used.
    BadPort,
    /// The address was none: its text, and the text of the error.
    BadAddress { text: String, error: String },
}

/// What a note says.
pub enum NoteView {
    BadPort,
    BadAddress { text: Seq<char>, error: Seq<char> },
}

impl CliNote {
    pub open spec fn view(&self) -> NoteView {
        match self {
            CliNote::BadPort => NoteView::BadPort,
            CliNote::BadAddress { text, error } => NoteView::BadAddress { text: text@, error: error@ },
        }
    }
}

/// What notes say.
pub open spec fn note_views(s: Seq<CliNote>) -> Seq<NoteView> {
    s.map_values(|n: CliNote| n@)
}

/// What the arguments so far make of port and bootstrap nodes.
pub struct CliState {
    pub port: u16,
    pub nodes: Seq<Seq<Part>>,
    pub notes: Seq<NoteView>,
}

/// An address is added at the end of the bootstrap nodes, or noted where it is none.
pub open spec fn with_node(s: CliState, text: Seq<char>) -> CliState {
    match addr_of_text(text) {
        Ok(a) => CliState { nodes: s.nodes.push(a), ..s },
        Err(error) => CliState { notes: s.notes.push(NoteView::BadAddress { text, error }), ..s },
    }
}

/// What the arguments from a position on make of port and bootstrap nodes; or the argument that is
/// not known, or has no value behind it.
pub open spec fn parsed_from(args: Seq<Seq<char>>, i: int, s: CliState) -> Result<CliState, Seq<char>>
    decreases args.len() - i,
{
    if i >= args.len() {
        Ok(s)
    } else if i + 1 < args.len() && args[i] == "-p"@ {
        let next = match port_of(args[i + 1]) {
            Some(port) => CliState { port, ..s },
            None => CliState { port: DEFAULT_PORT, notes: s.notes.push(NoteView::BadPort), ..s },
        };
        parsed_from(args, i + 2, next)
    } else if i + 1 < args.len() && args[i] == "-c"@ {
        parsed_from(args, i + 2, with_node(s, args[i + 1]))
    } else if i + 1 < args.len() && args[i] == "--connect-overwrite"@ {
        parsed_from(args, i + 2, with_node(CliState { nodes: Seq::empty(), ..s }, args[i + 1]))
    } else {
        Err(args[i])
    }
}

/// What the command line asks for.
pub struct Cli {
    pub port: u16,
    pub bootstrap_nodes: Vec<Multiaddr>,
    pub notes: Vec<CliNote>,
}

impl Cli {
    pub open spec fn view(&self) -> CliState {
        CliState {
            port: self.port,
            nodes: addr_views(self.bootstrap_nodes@),
            notes: note_views(self.notes@),
        }
    }

    fn take_node(&mut self, text: &str)
        ensures
            final(self)@ == with_node(old(self)@, text@),
    {
        match Multiaddr::from_text(text) {
            Ok(a) => {
                let ghost before = self.bootstrap_nodes@;
                self.bootstrap_nodes.push(a);
                assert(addr_views(self.bootstrap_nodes@) =~= addr_views(before).push(a@));
            },
            Err(e) => {
                let ghost before = self.notes@;
                let ghost error = e@;
                self.notes.push(CliNote::BadAddress { text: text.to_owned(), error: e });
                assert(note_views(self.notes@) =~= note_views(before).push(
                    NoteView::BadAddress { text: text@, error },
                ));
            },
        }
    }
}

/// Reads the command line (the first argument is the program's name), starting from the configured
/// port and bootstrap nodes. The error is the argument that is not known or has no value.
pub fn parse_cli_args(args: &Vec<String>, port: u16, bootstrap_nodes: Vec<Multiaddr>) -> (r: Result<Cli, String>)
    ensures
        ({
            let start = CliState { port, nodes: addr_views(bootstrap_nodes@), notes: Seq::empty() };
            let outcome = parsed_from(args@.map_values(|t: String| t@), 1, start);
            match r {
                Ok(cli) => outcome == Ok::<CliState, Seq<char>>(cli@),
                Err(unknown) => outcome == Err::<CliState, Seq<char>>(unknown@),
            }
        }),
{
    let ghost all = args@.map_values(|t: String| t@);
    let ghost start = CliState { port, nodes: addr_views(bootstrap_nodes@), notes: Seq::empty() };
    let mut cli = Cli { port, bootstrap_nodes, notes: Vec::new() };
    assert(note_views(cli.notes@) =~= Seq::<NoteView>::empty());
    let n: usize = args.len();
    let mut i: usize = 1;
    while i < n
        invariant
            n == args@.len(),
            all == args@.map_values(|t: String| t@),
            1 <= i,
            start == (CliState { port, nodes: addr_views(bootstrap_nodes@), notes: Seq::empty() }),
            parsed_from(all, 1, start) == parsed_from(all, i as int, cli@),
        decreases n - i,
    {
        assert(all[i as int] == args@[i as int]@);
        let flag = args[i].as_str();
        if i + 1 < n && same_text(flag, "-p") {
            match parse_port(args[i + 1].as_str()) {
                Some(p) => {
                    cli.port = p;
                },
                None => {
                    let ghost before = cli.notes@;
                    cli.notes.push(CliNote::BadPort);
                    assert(note_views(cli.notes@) =~= note_views(before).push(NoteView::BadPort));
                    cli.port = DEFAULT_PORT;
                },
            }
        } else if i + 1 < n && same_text(flag, "-c") {
            cli.take_node(args[i + 1].as_str());
        } else if i + 1 < n && same_text(flag, "--connect-overwrite") {
            cli.bootstrap_nodes = Vec::new();
            assert(addr_views(cli.bootstrap_nodes@) =~= Seq::<Seq<Part>>::empty());
            cli.take_node(args[i + 1].as_str());
        } else {
            return Err(args[i].clone());
        }
        if n - i <= 2 {
            i = n;
            assert(parsed_from(all, i as int, cli@) == Ok::<CliState, Seq<char>>(cli@));
        } else {
            i += 2;
        }
    }
    Ok(cli)
}

/// Puts what the command line asks for into the configuration; says whether that changed anything,
/// in which case the configuration is to be saved.
pub fn apply_cli(config: &mut ConfigHandle, cli: Cli) -> (r: bool)
    ensures
        final(config).inner.network.port == cli.port,
        addr_views(final(config).inner.services.kademlia.bootstrap_nodes@) == cli@.nodes,
        r == (old(config).inner.network.port != cli.port || addr_views(
            old(config).inner.services.kademlia.bootstrap_nodes@,
        ) != cli@.nodes),
        final(config).inner == (NodeConfig {
            network: NetworkConfig { port: final(config).inner.network.port, ..old(config).inner.network },
            services: ServicesConfig {
                kademlia: KademliaService {
                    bootstrap_nodes: final(config).inner.services.kademlia.bootstrap_nodes,
                    ..old(config).inner.services.kademlia
                },
                ..old(config).inner.services
            },
            ..old(config).inner
        }),
{
    let mut changed: bool = false;
    if config.listen_port() != cli.port as u32 {
        config.set_listen_port(cli.port as u32);
        changed = true;
    }
    if !crate::network::addr::same_addrs(&config.inner.services.kademlia.bootstrap_nodes, &cli.bootstrap_nodes) {
        config.set_bootstrap_nodes(cli.bootstrap_nodes);
        changed = true;
    }
    changed
}

/// How the node introduces itself: its peer id, and below it where it can be dialed.
pub open spec fn introduction(peer: Seq<char>, addrs: Seq<Seq<char>>) -> Seq<char>
    decreases addrs.len(),
{
    if addrs.len() == 0 {
        "PeerId: "@ + peer
    } else {
        introduction(peer, addrs.drop_last()) + "\n    "@ + addrs.last()
    }
}

/// How the node introduces itself.
pub fn identity_text(peer: &str, addrs: &Vec<String>) -> (r: String)
    ensures
        r@ == introduction(peer@, addrs@.map_values(|t: String| t@)),
{
    let ghost all = addrs@.map_values(|t: String| t@);
    let mut s = join2("PeerId: ", peer);
    let mut i: usize = 0;
    assert(all.subrange(0, 0) =~= Seq::<Seq<char>>::empty());
    while i < addrs.len()
        invariant
            i <= addrs@.len(),
            all == addrs@.map_values(|t: String| t@),
            s@ == introduction(peer@, all.subrange(0, i as int)),
        decreases addrs@.len() - i,
    {
        proof {
            let upto = all.subrange(0, i + 1);
            assert(upto.drop_last() =~= all.subrange(0, i as int));
            assert(upto.last() == addrs@[i as int]@);
        }
        s.append("\n    ");
        s.append(addrs[i].as_str());
        i += 1;
    }
    assert(all.subrange(0, all.len() as int) =~= all);
    s
}

/// A text is a port exactly when it has digits only, after a plus sign or not, of a number up to 65535;
/// that number is the port.
pub proof fn ports_are_numbers(digits: Seq<char>)
    requires
        digits.len() > 0,
        forall|i: int| 0 <= i < digits.len() ==> '0' <= #[trigger] digits[i] <= '9',
    ensures
        digits_value(digits) <= 65535 ==> port_of(digits) is Some && port_of(digits)->0 == digits_value(digits),
        digits_value(digits) > 65535 ==> port_of(digits) is None,
        port_of(seq!['+'] + digits) == port_of(digits),
{
    let signed = seq!['+'] + digits;
    assert(signed.subrange(1, signed.len() as int) =~= digits);
    assert(digits[0] != '+');
}

/// A text with something else in it than digits, but for a plus sign in front, is no port, and neither
/// is one without digits.
pub proof fn other_texts_are_no_ports(t: Seq<char>, i: int)
    ensures
        t.len() == 0 ==> port_of(t) is None,
        t == seq!['+'] ==> port_of(t) is None,
        0 <= i < t.len() && !('0' <= t[i] <= '9') && !(i == 0 && t[0] == '+') ==> port_of(t) is None,
{
    if t.len() > 0 && t[0] == '+' && 1 <= i < t.len() {
        assert(t.subrange(1, t.len() as int)[i - 1] == t[i]);
    }
}

/// The arguments are taken two by two: `-p` sets the port, or 5000 with a note where it is none; `-c`
/// adds a bootstrap node at the end; `--connect-overwrite` leaves just the one. An address that is none
/// is noted. Any other argument, and one without a value, ends the reading.
pub proof fn arguments_change_what_they_name(args: Seq<Seq<char>>, i: int, s: CliState)
    requires
        0 <= i < args.len(),
    ensures
        i + 1 < args.len() && args[i] == "-p"@ ==> (port_of(args[i + 1]) matches Some(port) ==> parsed_from(args, i, s)
            == parsed_from(args, i + 2, CliState { port, nodes: s.nodes, notes: s.notes })),
        i + 1 < args.len() && args[i] == "-p"@ && port_of(args[i + 1]) is None ==> parsed_from(args, i, s) == parsed_from(
            args,
            i + 2,
            CliState { port: 5000, nodes: s.nodes, notes: s.notes.push(NoteView::BadPort) },
        ),
        i + 1 < args.len() && args[i] == "-c"@ ==> (addr_of_text(args[i + 1]) matches Ok(a) ==> parsed_from(args, i, s)
            == parsed_from(args, i + 2, CliState { port: s.port, nodes: s.nodes.push(a), notes: s.notes })),
        i + 1 < args.len() && args[i] == "-c"@ ==> (addr_of_text(args[i + 1]) matches Err(error) ==> parsed_from(args, i, s)
            == parsed_from(
            args,
            i + 2,
            CliState {
                port: s.port,
                nodes: s.nodes,
                notes: s.notes.push(NoteView::BadAddress { text: args[i + 1], error }),
            },
        )),
        i + 1 < args.len() && args[i] == "--connect-overwrite"@ ==> (addr_of_text(args[i + 1]) matches Ok(a) ==> parsed_from(
            args,
            i,
            s,
        ) == parsed_from(args, i + 2, CliState { port: s.port, nodes: seq![a], notes: s.notes })),
        i + 1 < args.len() && args[i] == "--connect-overwrite"@ ==> (addr_of_text(args[i + 1]) matches Err(error)
            ==> parsed_from(args, i, s) == parsed_from(
            args,
            i + 2,
            CliState {
                port: s.port,
                nodes: Seq::empty(),
                notes: s.notes.push(NoteView::BadAddress { text: args[i + 1], error }),
            },
        )),
        i + 1 == args.len() || (args[i] != "-p"@ && args[i] != "-c"@ && args[i] != "--connect-overwrite"@) ==> parsed_from(
            args,
            i,
            s,
        ) == Err::<CliState, Seq<char>>(args[i]),
        parsed_from(args, args.len() as int, s) == Ok::<CliState, Seq<char>>(s),
{
    reveal_strlit("-p");
    reveal_strlit("-c");
    reveal_strlit("--connect-overwrite");
    assert("-p"@[1] == 'p' && "-c"@[1] == 'c');
    assert("--connect-overwrite"@.len() == 19);
    if i + 1 < args.len() {
        if let Ok(a) = addr_of_text(args[i + 1]) {
            assert(Seq::<Seq<Part>>::empty().push(a) =~= seq![a]);
        }
    }
}

/// The node introduces itself with its peer id, and each address on a line of its own below.
pub proof fn introduction_lists_every_address(peer: Seq<char>, addrs: Seq<Seq<char>>, addr: Seq<char>)
    ensures
        introduction(peer, Seq::empty()) == "PeerId: "@ + peer,
        introduction(peer, addrs.push(addr)) == introduction(peer, addrs) + "\n    "@ + addr,
{
    assert(addrs.push(addr).drop_last() =~= addrs);
}

/// What the command line asks for is what its fields hold.
pub proof fn command_line_says_its_fields(cli: Cli, n: CliNote)
    ensures
        cli@.port == cli.port,
        cli@.nodes == addr_views(cli.bootstrap_nodes@),
        cli@.notes.len() == cli.notes@.len(),
        forall|i: int| 0 <= i < cli.notes@.len() ==> #[trigger] cli@.notes[i] == cli.notes@[i]@,
        n is BadPort ==> n@ is BadPort,
        n matches CliNote::BadAddress { text, error } ==> n@ == (NoteView::BadAddress { text: text@, error: error@ }),
{
}

} // verus!
