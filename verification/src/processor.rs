//! What a connection does with the commands it receives.

pub mod trojan;
pub mod tuic;
