//! The node's decisions: who may use its services, which relays it uses, which peers it trusts to
//! bootstrap from, and what it answers to commands.

pub mod authorize;
pub mod commands;
pub mod peers;
pub mod refresh;
pub mod relays;
pub mod replies;
pub mod services;
