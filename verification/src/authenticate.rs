//! Who may use the server: the password hashes of Trojan, the users and the
//! rate limit of TUIC.

pub mod connection;
pub mod trojan;
pub mod tuic;
