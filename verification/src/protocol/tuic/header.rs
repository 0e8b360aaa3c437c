//! The two bytes in front of every command: version and command tag.

use super::command::command_type::{spec_command_byte, spec_read_command_type, CommandType};
use super::version::{spec_read_version, spec_version_byte, Version};
use crate::wire::{read_matches, tail, CodecError};
use vstd::prelude::*;

verus! {

/// A frame header.
#[derive(Debug, Eq, PartialEq, Clone, Copy, Structural)]
pub struct Header {
    pub version: Version,
    pub command_type: CommandType,
}

/// The bytes of `h`.
pub open spec fn spec_write_header(h: Header) -> Seq<u8> {
    seq![spec_version_byte(h.version), spec_command_byte(h.command_type)]
}

/// What reading a header from `bytes` gives: first the version, then the
/// command tag, and the first of the two that fails decides the error.
pub open spec fn spec_read_header(bytes: Seq<u8>) -> Result<(Header, nat), CodecError> {
    match spec_read_version(bytes) {
        Err(e) => Err(e),
        Ok((version, _)) => match spec_read_command_type(tail(bytes, 1)) {
            Err(e) => Err(e),
            Ok((command_type, _)) => Ok((Header { version, command_type }, 2)),
        },
    }
}

impl Header {
    /// The header of a command of type `command_type`, in the one version
    /// there is.
    pub open spec fn spec_new(command_type: CommandType) -> Header {
        Header { version: Version::V5, command_type }
    }

    /// See [`Header::spec_new`].
    #[verifier::when_used_as_spec(spec_new)]
    pub fn new(command_type: CommandType) -> (h: Self)
        ensures
            h == Header::spec_new(command_type),
    {
        Self { version: Version::V5, command_type }
    }

    /// The command that the header announces.
    pub fn command_type(&self) -> (t: &CommandType)
        ensures
            *t == self.command_type,
    {
        &self.command_type
    }

    /// Appends the two bytes of the header.
    pub fn write_to(&self, w: &mut Vec<u8>)
        ensures
            final(w)@ == old(w)@ + spec_write_header(*self),
    {
        self.version.write_to(w);
        self.command_type.write_to(w);
        assert(w@ =~= old(w)@ + spec_write_header(*self));
    }

    /// Reads the header at `pos`; on success also gives the position behind
    /// it.
    pub fn read_from(buf: &[u8], pos: usize) -> (r: Result<(Header, usize), CodecError>)
        ensures
            read_matches(r, spec_read_header(tail(buf@, pos as int)), pos, buf@.len()),
    {
        let (version, next) = match Version::read_from(buf, pos) {
            Ok(p) => p,
            Err(e) => {
                return Err(e);
            },
        };
        assert(tail(tail(buf@, pos as int), 1) =~= tail(buf@, next as int));
        match CommandType::read_from(buf, next) {
            Ok((command_type, end)) => Ok((Header { version, command_type }, end)),
            Err(e) => Err(e),
        }
    }

    /// Reads the header at the start of `buf`.
    pub fn read_from_buf(buf: &[u8]) -> (r: Result<(Header, usize), CodecError>)
        ensures
            read_matches(r, spec_read_header(buf@), 0, buf@.len()),
    {
        assert(tail(buf@, 0) =~= buf@);
        Header::read_from(buf, 0)
    }
}

/// A header that was written reads back as itself, whatever follows it.
pub proof fn lemma_header_round_trip(h: Header, rest: Seq<u8>)
    ensures
        spec_read_header(spec_write_header(h) + rest) == Ok::<(Header, nat), CodecError>((h, 2)),
        spec_write_header(h).len() == 2,
{
    let bytes = spec_write_header(h) + rest;
    assert(bytes[0] == spec_version_byte(h.version));
    assert(tail(bytes, 1)[0] == spec_command_byte(h.command_type));
}

} // verus!
