//! Trojan: the request that opens a connection, and the frames of a UDP
//! association.

pub mod address;
pub mod command;
