//! A DNS-to-DNS-over-HTTPS forwarding proxy: the message model, the TTL-driven
//! response cache, the forwarding decisions, the bootstrap resolution and the
//! stream framing, each with its contract.

pub mod cli;
pub mod error;
pub mod codec;
pub mod cache;
pub mod common;
pub mod bootstrap;
pub mod upstream;
pub mod tcp;
pub mod local;
