//! The command tag, second byte of every TUIC frame.

use crate::wire::{get_u8, put_u8, read_matches, tail, CodecError};
use vstd::prelude::*;

verus! {

/// The five commands of TUIC v5.
#[derive(Debug, Eq, PartialEq, Clone, Copy, Structural)]
pub enum CommandType {
    Authenticate,
    Connect,
    Packet,
    Dissociate,
    Heartbeat,
}

/// A command byte that names no command.
#[derive(Debug, Eq, PartialEq, Clone, Copy, Structural)]
pub enum CommandTypeError {
    UnknownCommandType(u8),
}

/// The byte that stands for `t` on the wire.
pub open spec fn spec_command_byte(t: CommandType) -> u8 {
    match t {
        CommandType::Authenticate => 0x00,
        CommandType::Connect => 0x01,
        CommandType::Packet => 0x02,
        CommandType::Dissociate => 0x03,
        CommandType::Heartbeat => 0x04,
    }
}

/// The command that `value` stands for.
pub open spec fn spec_command_from(value: u8) -> Result<CommandType, CommandTypeError> {
    if value == 0x00 {
        Ok(CommandType::Authenticate)
    } else if value == 0x01 {
        Ok(CommandType::Connect)
    } else if value == 0x02 {
        Ok(CommandType::Packet)
    } else if value == 0x03 {
        Ok(CommandType::Dissociate)
    } else if value == 0x04 {
        Ok(CommandType::Heartbeat)
    } else {
        Err(CommandTypeError::UnknownCommandType(value))
    }
}

/// What reading a command tag from `bytes` gives.
pub open spec fn spec_read_command_type(bytes: Seq<u8>) -> Result<(CommandType, nat), CodecError> {
    if bytes.len() < 1 {
        Err(CodecError::Truncated)
    } else {
        match spec_command_from(bytes[0]) {
            Ok(t) => Ok((t, 1)),
            Err(_) => Err(CodecError::MalformedFrame),
        }
    }
}

impl CommandType {
    /// See [`spec_command_byte`].
    pub fn to_byte(self) -> (b: u8)
        ensures
            b == spec_command_byte(self),
    {
        match self {
            CommandType::Authenticate => 0x00,
            CommandType::Connect => 0x01,
            CommandType::Packet => 0x02,
            CommandType::Dissociate => 0x03,
            CommandType::Heartbeat => 0x04,
        }
    }

    /// See [`spec_command_from`].
    pub fn try_from(value: u8) -> (r: Result<CommandType, CommandTypeError>)
        ensures
            r == spec_command_from(value),
    {
        match value {
            0x00 => Ok(CommandType::Authenticate),
            0x01 => Ok(CommandType::Connect),
            0x02 => Ok(CommandType::Packet),
            0x03 => Ok(CommandType::Dissociate),
            0x04 => Ok(CommandType::Heartbeat),
            _ => Err(CommandTypeError::UnknownCommandType(value)),
        }
    }

    /// Reads the tag at `pos`; on success also gives the position behind it.
    pub fn read_from(buf: &[u8], pos: usize) -> (r: Result<(CommandType, usize), CodecError>)
        ensures
            read_matches(r, spec_read_command_type(tail(buf@, pos as int)), pos, buf@.len()),
    {
        match get_u8(buf, pos) {
            Err(e) => Err(e),
            Ok(b) => match CommandType::try_from(b) {
                Ok(t) => Ok((t, pos + 1)),
                Err(_) => Err(CodecError::MalformedFrame),
            },
        }
    }

    /// Appends the byte of the command.
    pub fn write_to(&self, w: &mut Vec<u8>)
        ensures
            final(w)@ == old(w)@.push(spec_command_byte(*self)),
    {
        put_u8(w, self.to_byte());
    }

    /// The command's name.
    pub fn as_str(&self) -> (s: &'static str)
        ensures
            s@ == (match *self {
                CommandType::Authenticate => "Authenticate"@,
                CommandType::Connect => "Connect"@,
                CommandType::Packet => "Packet"@,
                CommandType::Dissociate => "Dissociate"@,
                CommandType::Heartbeat => "Heartbeat"@,
            }),
    {
        match self {
            CommandType::Authenticate => "Authenticate",
            CommandType::Connect => "Connect",
            CommandType::Packet => "Packet",
            CommandType::Dissociate => "Dissociate",
            CommandType::Heartbeat => "Heartbeat",
        }
    }
}

/// Every command survives the trip through its byte, and no two commands
/// share a byte.
pub proof fn lemma_command_type_round_trip(t: CommandType, u: CommandType)
    ensures
        spec_command_from(spec_command_byte(t)) == Ok::<CommandType, CommandTypeError>(t),
        spec_command_byte(t) == spec_command_byte(u) ==> t == u,
{
}

} // verus!
