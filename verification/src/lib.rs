//! The verified core of a peer-to-peer service node.

pub mod addr_watcher;
pub mod auth;
pub mod boot;
pub mod bytes;
pub mod cbor;
pub mod config;
pub mod config_file;
pub mod crypto;
pub mod json;
pub mod lists;
pub mod log;
pub mod members;
pub mod multiaddr;
pub mod name_map;
pub mod net;
pub mod network;
pub mod node_controller;
pub mod outbound_proxy;
pub mod paths;
pub mod record;
pub mod request_handler;
pub mod service_discovery;
pub mod service_dispatcher;
pub mod service_protocol;
pub mod sidecar_protocol;
pub mod text;
pub mod toml_tree;
