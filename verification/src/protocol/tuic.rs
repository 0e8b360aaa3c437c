//! TUIC v5: header, address and command framing.

pub mod address;
pub mod address_type;
pub mod command;
pub mod dns_cache;
pub mod header;
pub mod version;
