//! Heartbeat: the client is still there.

use super::command_type::CommandType;
use crate::protocol::tuic::header::{spec_write_header, Header};
use crate::wire::{read_matches, tail, CodecError};
use vstd::prelude::*;

verus! {

/// A Heartbeat command. It has no body.
#[derive(Debug, Eq, PartialEq, Clone, Copy, Structural)]
pub struct Heartbeat {
    pub header: Header,
}

/// The bytes of `h`: its header.
pub open spec fn spec_write_heartbeat(h: Heartbeat) -> Seq<u8> {
    spec_write_header(h.header)
}

/// What reading the body of a Heartbeat gives: it uses no byte.
pub open spec fn spec_read_heartbeat(header: Header, bytes: Seq<u8>) -> Result<
    (Heartbeat, nat),
    CodecError,
> {
    Ok((Heartbeat { header }, 0))
}

impl Heartbeat {
    /// A heartbeat.
    pub fn new() -> (h: Self)
        ensures
            h == (Heartbeat { header: Header::new(CommandType::Heartbeat) }),
    {
        Heartbeat { header: Header::new(CommandType::Heartbeat) }
    }

    /// Reads the (empty) body at `pos`, behind a header already read.
    pub fn read_from(header: Header, buf: &[u8], pos: usize) -> (r: Result<
        (Heartbeat, usize),
        CodecError,
    >)
        ensures
            pos <= buf@.len() ==> read_matches(
                r,
                spec_read_heartbeat(header, tail(buf@, pos as int)),
                pos,
                buf@.len(),
            ),
            r == Ok::<(Heartbeat, usize), CodecError>((Heartbeat { header }, pos)),
    {
        Ok((Heartbeat { header }, pos))
    }

    /// Appends the command.
    pub fn write_to_buf(&self, buf: &mut Vec<u8>)
        ensures
            final(buf)@ == old(buf)@ + spec_write_heartbeat(*self),
    {
        self.header.write_to(buf);
    }
}

} // verus!
