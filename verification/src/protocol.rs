//! The two wire protocols.

pub mod trojan;
pub mod tuic;
