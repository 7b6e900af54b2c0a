//! Verified core of a small onion-routed, end-to-end encrypted chat:
//! key agreement and sealed envelopes, wire framing, the message model,
//! the client's conversation state and the directory server's decisions.

pub mod crypto_lib;
pub mod state;
pub mod text;
pub mod messages;
pub mod mpmc_queue;
pub mod net_lib;
pub mod server;
pub mod client;
pub mod command;
