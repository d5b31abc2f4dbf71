# NexusNet

A peer-to-peer service node, with its decisions verified in Verus.

A node joins a libp2p overlay, finds peers and services in a Kademlia table, and hands the requests
of other peers to local backends over TCP. Services may be open only to peers that an authority's
signed records name.

## Layout

- `src/` is the library: every decision, format and rule of the node, with its contract.
  - `auth`, `crypto`: signed authorization records, and the cache that keeps what was checked.
  - `sidecar_protocol`, `service_dispatcher`, `service_protocol`: what nodes and backends say to each
    other.
  - `network/`: identity and post-quantum keys, sealed requests, addresses, protocol settings, and the
    bookkeeping of requests in flight.
  - `node_controller/`: who may use a service, which relays are asked, what is announced, and the
    answers to commands.
  - `config`, `config_file`, `boot`, `paths`, `log`: configuration, command line, files and log.
  - `outbound_proxy`, `service_discovery`, `request_handler`, `addr_watcher`, `net`: the control port,
    announcements, numbered requests, address changes and the key file of the post-quantum pair.
  - `cbor`, `json`, `toml_tree`, `record`, `members`, `multiaddr`, `name_map`, `text`, `bytes`: the
    plain data that the rest is built on.
- `app/` is the program around it: files, signals, sockets, the swarm and the loops.
- `tests/` runs the library with the real outside crates.

Calls into outside crates stand behind small functions marked `#[verifier::external_body]`. Their doc
comments name the outside function and say what is believed of it.

Times are numbers that the program hands in: Unix seconds, and nanoseconds of a clock that does not
run backwards.
