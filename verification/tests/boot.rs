use nexusnet::boot::{apply_cli, identity_text, parse_cli_args, parse_port, CliNote};
use nexusnet::config::{ConfigHandle, NodeConfig};
use nexusnet::multiaddr::Multiaddr;
use nexusnet::paths::{config_path, data_home, keypair_path, log_path};

fn args(list: &[&str]) -> Vec<String> {
    std::iter::once("nexusnet").chain(list.iter().copied()).map(String::from).collect()
}

fn addr(t: &str) -> Multiaddr {
    Multiaddr::from_text(t).unwrap()
}

fn texts(list: &[Multiaddr]) -> Vec<String> {
    list.iter().map(|a| a.to_text()).collect()
}

#[test]
fn port_and_addresses_are_taken() {
    let cli = parse_cli_args(
        &args(&["-p", "6000", "-c", "/ip4/1.2.3.4/tcp/1"]),
        5000,
        vec![addr("/ip4/9.9.9.9/tcp/9")],
    )
    .map_err(|_| ())
    .ok()
    .unwrap();
    assert_eq!(cli.port, 6000);
    assert_eq!(texts(&cli.bootstrap_nodes), ["/ip4/9.9.9.9/tcp/9", "/ip4/1.2.3.4/tcp/1"]);
    assert!(cli.notes.is_empty());
}

#[test]
fn overwriting_forgets_even_for_a_bad_address() {
    let old = || vec![addr("/ip4/9.9.9.9/tcp/9")];
    let cli = parse_cli_args(&args(&["--connect-overwrite", "/ip4/1.2.3.4/tcp/1"]), 5000, old()).ok().unwrap();
    assert_eq!(texts(&cli.bootstrap_nodes), ["/ip4/1.2.3.4/tcp/1"]);
    let cli = parse_cli_args(&args(&["--connect-overwrite", "nonsense"]), 5000, old()).ok().unwrap();
    assert!(cli.bootstrap_nodes.is_empty());
    assert!(matches!(&cli.notes[0], CliNote::BadAddress { text, .. } if text == "nonsense"));
}

#[test]
fn bad_port_becomes_the_default() {
    let cli = parse_cli_args(&args(&["-p", "70000"]), 1, vec![]).ok().unwrap();
    assert_eq!(cli.port, 5000);
    assert!(matches!(cli.notes[0], CliNote::BadPort));
}

#[test]
fn unknown_and_incomplete_arguments_are_refused() {
    assert_eq!(parse_cli_args(&args(&["--help"]), 1, vec![]).err().unwrap(), "--help");
    assert_eq!(parse_cli_args(&args(&["-p"]), 1, vec![]).err().unwrap(), "-p");
    assert_eq!(parse_cli_args(&args(&["-p", "1", "-c"]), 1, vec![]).err().unwrap(), "-c");
    assert!(parse_cli_args(&args(&[]), 1, vec![]).is_ok());
}

#[test]
fn ports_are_read_as_the_standard_library_reads_them() {
    for t in ["0", "5000", "65535", "65536", "+80", "+", "", "-1", "00080", "99999999999999999999", "8o", "８"] {
        assert_eq!(parse_port(t), t.parse::<u16>().ok(), "{t}");
    }
}

#[test]
fn changes_are_applied_once() {
    let mut config = ConfigHandle::new(NodeConfig::default());
    let cli = || parse_cli_args(&args(&["-p", "6000", "-c", "/ip4/1.2.3.4/tcp/1"]), 5000, vec![]).ok().unwrap();
    assert!(apply_cli(&mut config, cli()));
    assert_eq!(config.listen_port(), 6000);
    assert_eq!(texts(&config.bootstrap_nodes()), ["/ip4/1.2.3.4/tcp/1"]);
    assert!(!apply_cli(&mut config, cli()));
}

#[test]
fn node_introduces_itself() {
    assert_eq!(identity_text("P", &vec![]), "PeerId: P");
    assert_eq!(identity_text("P", &vec!["a".into(), "b".into()]), "PeerId: P\n    a\n    b");
}

#[test]
fn paths_follow_the_environment() {
    assert_eq!(config_path(Some(b"/c.toml"), Some(b"/h")), b"/c.toml");
    assert_eq!(config_path(Some(b""), Some(b"/h")), b"/h/config.toml");
    assert_eq!(config_path(None, Some(b"/h/")), b"/h/config.toml");
    assert_eq!(config_path(None, Some(b"")), b"./config.toml");
    assert_eq!(keypair_path(None, Some(b"/h")), b"/h/keypair.bin");
    assert_eq!(keypair_path(None, None), b"./keypair.bin");
    assert_eq!(log_path(Some(b"\xff"), None), b"\xff");
    assert_eq!(log_path(None, None), b"./log");
    assert_eq!(data_home(None), b"/var/lib/nexusnet");
    assert_eq!(data_home(Some(b"/h")), b"/h");
}
