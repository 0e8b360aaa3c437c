//! The protocol version byte.

use crate::wire::{get_u8, put_u8, read_matches, tail, CodecError};
use vstd::prelude::*;

verus! {

/// The protocol versions this server speaks.
#[derive(Debug, Eq, PartialEq, Clone, Copy, Structural)]
pub enum Version {
    V5,
}

/// A version byte that names no known version.
#[derive(Debug, Eq, PartialEq, Clone, Copy, Structural)]
pub enum VersionError {
    InvalidVersion(u8),
}

/// The byte that stands for `v` on the wire.
pub open spec fn spec_version_byte(v: Version) -> u8 {
    match v {
        Version::V5 => 0x05,
    }
}

/// The version that `value` stands for.
pub open spec fn spec_version_from(value: u8) -> Result<Version, VersionError> {
    if value == 0x05 {
        Ok(Version::V5)
    } else {
        Err(VersionError::InvalidVersion(value))
    }
}

/// What reading a version from `bytes` gives: the version and the one byte
/// used, `Truncated` on empty input, `MalformedFrame` on an unknown byte.
pub open spec fn spec_read_version(bytes: Seq<u8>) -> Result<(Version, nat), CodecError> {
    if bytes.len() < 1 {
        Err(CodecError::Truncated)
    } else {
        match spec_version_from(bytes[0]) {
            Ok(v) => Ok((v, 1)),
            Err(_) => Err(CodecError::MalformedFrame),
        }
    }
}

impl Version {
    /// See [`spec_version_byte`].
    pub fn to_byte(self) -> (b: u8)
        ensures
            b == spec_version_byte(self),
    {
        match self {
            Version::V5 => 0x05,
        }
    }

    /// See [`spec_version_from`].
    pub fn try_from(value: u8) -> (r: Result<Version, VersionError>)
        ensures
            r == spec_version_from(value),
    {
        if value == 0x05 {
            Ok(Version::V5)
        } else {
            Err(VersionError::InvalidVersion(value))
        }
    }

    /// Reads the version at `pos`; on success also gives the position
    /// behind it.
    pub fn read_from(buf: &[u8], pos: usize) -> (r: Result<(Version, usize), CodecError>)
        ensures
            read_matches(r, spec_read_version(tail(buf@, pos as int)), pos, buf@.len()),
    {
        match get_u8(buf, pos) {
            Err(e) => Err(e),
            Ok(b) => match Version::try_from(b) {
                Ok(v) => Ok((v, pos + 1)),
                Err(_) => Err(CodecError::MalformedFrame),
            },
        }
    }

    /// Appends the byte of the version.
    pub fn write_to(&self, w: &mut Vec<u8>)
        ensures
            final(w)@ == old(w)@.push(spec_version_byte(*self)),
    {
        put_u8(w, self.to_byte());
    }
}

/// Every version survives the trip through its byte.
pub proof fn lemma_version_round_trip(v: Version)
    ensures
        spec_version_from(spec_version_byte(v)) == Ok::<Version, VersionError>(v),
{
}

} // verus!
