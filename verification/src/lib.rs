//! Protocol engine of a TUIC v5 / Trojan proxy server: wire codecs, the
//! authentication gate and rate limiter, UDP fragmentation and reassembly,
//! and the decisions a connection processor takes for each command.
//!
//! Everything here is free of I/O. A caller reads bytes and the clock, hands
//! them in as plain values, and carries out the action that comes back.

pub mod authenticate;
pub mod config;
pub mod net;
pub mod processor;
pub mod protocol;
pub mod server;
pub mod text;
pub mod wire;
