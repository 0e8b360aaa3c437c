//! The tag in front of a TUIC address.

use super::address::Address;
use crate::net::IpAddress;
use crate::wire::{get_u8, read_matches, tail, CodecError};
use vstd::prelude::*;

verus! {

/// The four forms of a TUIC address.
#[derive(Debug, Eq, PartialEq, Clone, Copy, Structural)]
pub enum AddressType {
    Domain,
    IpV4,
    IpV6,
    Absent,
}

/// An address byte that names no form.
#[derive(Debug, Eq, PartialEq, Clone, Copy, Structural)]
pub enum AddressTypeError {
    InvalidAddressType(u8),
}

/// The byte that stands for `t` on the wire.
pub open spec fn spec_address_type_byte(t: AddressType) -> u8 {
    match t {
        AddressType::Domain => 0x00,
        AddressType::IpV4 => 0x01,
        AddressType::IpV6 => 0x02,
        AddressType::Absent => 0xFF,
    }
}

/// The form that `value` stands for.
pub open spec fn spec_address_type_from(value: u8) -> Result<AddressType, AddressTypeError> {
    if value == 0x00 {
        Ok(AddressType::Domain)
    } else if value == 0x01 {
        Ok(AddressType::IpV4)
    } else if value == 0x02 {
        Ok(AddressType::IpV6)
    } else if value == 0xFF {
        Ok(AddressType::Absent)
    } else {
        Err(AddressTypeError::InvalidAddressType(value))
    }
}

/// What reading an address tag from `bytes` gives.
pub open spec fn spec_read_address_type(bytes: Seq<u8>) -> Result<(AddressType, nat), CodecError> {
    if bytes.len() < 1 {
        Err(CodecError::Truncated)
    } else {
        match spec_address_type_from(bytes[0]) {
            Ok(t) => Ok((t, 1)),
            Err(_) => Err(CodecError::MalformedFrame),
        }
    }
}

impl AddressType {
    /// See [`spec_address_type_byte`].
    pub fn to_byte(self) -> (b: u8)
        ensures
            b == spec_address_type_byte(self),
    {
        match self {
            AddressType::Domain => 0x00,
            AddressType::IpV4 => 0x01,
            AddressType::IpV6 => 0x02,
            AddressType::Absent => 0xFF,
        }
    }

    /// See [`spec_address_type_from`].
    pub fn try_from(value: u8) -> (r: Result<AddressType, AddressTypeError>)
        ensures
            r == spec_address_type_from(value),
    {
        match value {
            0x00 => Ok(AddressType::Domain),
            0x01 => Ok(AddressType::IpV4),
            0x02 => Ok(AddressType::IpV6),
            0xFF => Ok(AddressType::Absent),
            _ => Err(AddressTypeError::InvalidAddressType(value)),
        }
    }

    /// Reads the tag at `pos`; on success also gives the position behind it.
    pub fn read_from(buf: &[u8], pos: usize) -> (r: Result<(AddressType, usize), CodecError>)
        ensures
            read_matches(r, spec_read_address_type(tail(buf@, pos as int)), pos, buf@.len()),
            r is Ok ==> r->Ok_0.1 == pos + 1,
    {
        match get_u8(buf, pos) {
            Err(e) => Err(e),
            Ok(b) => match AddressType::try_from(b) {
                Ok(t) => Ok((t, pos + 1)),
                Err(_) => Err(CodecError::MalformedFrame),
            },
        }
    }

    /// The form of `value`.
    pub fn from_address(value: &Address) -> (t: AddressType)
        ensures
            t == (match *value {
                Address::SocketAddress(a) => match a.ip {
                    IpAddress::V4(_) => AddressType::IpV4,
                    IpAddress::V6(_) => AddressType::IpV6,
                },
                Address::DomainAddress(_, _) => AddressType::Domain,
                Address::Absent => AddressType::Absent,
            }),
    {
        match value {
            Address::SocketAddress(socket_address) => match socket_address.ip {
                IpAddress::V4(_) => AddressType::IpV4,
                IpAddress::V6(_) => AddressType::IpV6,
            },
            Address::DomainAddress(_, _) => AddressType::Domain,
            Address::Absent => AddressType::Absent,
        }
    }
}

/// Every form survives the trip through its byte.
pub proof fn lemma_address_type_round_trip(t: AddressType)
    ensures
        spec_address_type_from(spec_address_type_byte(t)) == Ok::<AddressType, AddressTypeError>(
            t,
        ),
{
}

} // verus!
