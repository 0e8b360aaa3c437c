//! A whole command: header and body.

use super::authenticate::{
    lemma_authenticate_round_trip, spec_read_authenticate, spec_write_authenticate, Authenticate,
    AuthenticateView,
};
use super::command_type::CommandType;
use super::connect::{
    lemma_connect_round_trip, spec_read_connect, spec_write_connect, Connect, ConnectView,
};
use super::dissociate::{
    lemma_dissociate_round_trip, spec_read_dissociate, spec_write_dissociate, Dissociate,
};
use super::heartbeat::{spec_read_heartbeat, spec_write_heartbeat, Heartbeat};
use super::packet::{
    lemma_address_len, lemma_packet_len, lemma_packet_round_trip, spec_read_packet,
    spec_write_packet, spec_write_packet_body, Packet, PacketView,
};
use crate::protocol::tuic::address::spec_write_address;
use crate::protocol::tuic::header::{
    lemma_header_round_trip, spec_read_header, spec_write_header, Header,
};
use crate::wire::{be_bytes, read_matches_view, tail, CodecError};
use vstd::prelude::*;

verus! {

/// The length of the longest command: a packet with a domain name of 255
/// bytes and a payload of 65535.
pub const MAX_COMMAND_LEN: usize = 65_804;

/// What a client can send.
#[derive(Debug, PartialEq, Eq)]
pub enum Command {
    Authenticate(Authenticate),
    Connect(Connect),
    Packet(Packet),
    Heartbeat(Heartbeat),
    Dissociate(Dissociate),
}

/// A [`Command`] as a value of specifications.
pub enum CommandView {
    Authenticate(AuthenticateView),
    Connect(ConnectView),
    Packet(PacketView),
    Heartbeat(Heartbeat),
    Dissociate(Dissociate),
}

impl View for Command {
    type V = CommandView;

    open spec fn view(&self) -> CommandView {
        match *self {
            Command::Authenticate(a) => CommandView::Authenticate(a@),
            Command::Connect(c) => CommandView::Connect(c@),
            Command::Packet(p) => CommandView::Packet(p@),
            Command::Heartbeat(h) => CommandView::Heartbeat(h),
            Command::Dissociate(d) => CommandView::Dissociate(d),
        }
    }
}

impl CommandView {
    /// The header that the command carries.
    pub open spec fn header(self) -> Header {
        match self {
            CommandView::Authenticate(a) => a.header,
            CommandView::Connect(c) => c.header,
            CommandView::Packet(p) => p.header,
            CommandView::Heartbeat(h) => h.header,
            CommandView::Dissociate(d) => d.header,
        }
    }

    /// The type of the command, by what it holds.
    pub open spec fn command_type(self) -> CommandType {
        match self {
            CommandView::Authenticate(_) => CommandType::Authenticate,
            CommandView::Connect(_) => CommandType::Connect,
            CommandView::Packet(_) => CommandType::Packet,
            CommandView::Heartbeat(_) => CommandType::Heartbeat,
            CommandView::Dissociate(_) => CommandType::Dissociate,
        }
    }

    /// Whether the command can be written: its header names the command
    /// that it holds, a token has 32 bytes, and address and payload can be
    /// written.
    pub open spec fn wf(self) -> bool {
        &&& self.header().command_type == self.command_type()
        &&& match self {
            CommandView::Authenticate(a) => a.token.len() == 32,
            CommandView::Connect(c) => c.address.wf(),
            CommandView::Packet(p) => p.wf(),
            CommandView::Heartbeat(_) => true,
            CommandView::Dissociate(_) => true,
        }
    }
}

/// The bytes of `c`.
pub open spec fn spec_write_command(c: CommandView) -> Seq<u8> {
    match c {
        CommandView::Authenticate(a) => spec_write_authenticate(a),
        CommandView::Connect(c) => spec_write_connect(c),
        CommandView::Packet(p) => spec_write_packet(p),
        CommandView::Heartbeat(h) => spec_write_heartbeat(h),
        CommandView::Dissociate(d) => spec_write_dissociate(d),
    }
}

/// What reading a command from `bytes` gives: the header, then the body
/// that the command tag of the header calls for. An unknown version or tag
/// is a `MalformedFrame`, an input that ends early is `Truncated`.
pub open spec fn spec_read_command(bytes: Seq<u8>) -> Result<(CommandView, nat), CodecError> {
    match spec_read_header(bytes) {
        Err(e) => Err(e),
        Ok((header, _)) => {
            let body = tail(bytes, 2);
            match header.command_type {
                CommandType::Authenticate => match spec_read_authenticate(header, body) {
                    Ok((a, n)) => Ok((CommandView::Authenticate(a), n + 2)),
                    Err(e) => Err(e),
                },
                CommandType::Connect => match spec_read_connect(header, body) {
                    Ok((c, n)) => Ok((CommandView::Connect(c), n + 2)),
                    Err(e) => Err(e),
                },
                CommandType::Packet => match spec_read_packet(header, body) {
                    Ok((p, n)) => Ok((CommandView::Packet(p), n + 2)),
                    Err(e) => Err(e),
                },
                CommandType::Heartbeat => match spec_read_heartbeat(header, body) {
                    Ok((h, n)) => Ok((CommandView::Heartbeat(h), n + 2)),
                    Err(e) => Err(e),
                },
                CommandType::Dissociate => match spec_read_dissociate(header, body) {
                    Ok((d, n)) => Ok((CommandView::Dissociate(d), n + 2)),
                    Err(e) => Err(e),
                },
            }
        },
    }
}

impl Command {
    /// Whether the command can be written; see [`CommandView::wf`].
    pub fn is_valid(&self) -> (r: bool)
        ensures
            r == self@.wf(),
    {
        match self {
            Command::Authenticate(a) => a.header.command_type == CommandType::Authenticate,
            Command::Connect(c) => c.header.command_type == CommandType::Connect
                && c.address.is_valid(),
            Command::Packet(p) => p.header.command_type == CommandType::Packet && p.is_valid(),
            Command::Heartbeat(h) => h.header.command_type == CommandType::Heartbeat,
            Command::Dissociate(d) => d.header.command_type == CommandType::Dissociate,
        }
    }

    /// The type of the command, by what it holds.
    pub fn command_type(&self) -> (t: CommandType)
        ensures
            t == self@.command_type(),
    {
        match self {
            Command::Authenticate(_) => CommandType::Authenticate,
            Command::Connect(_) => CommandType::Connect,
            Command::Packet(_) => CommandType::Packet,
            Command::Heartbeat(_) => CommandType::Heartbeat,
            Command::Dissociate(_) => CommandType::Dissociate,
        }
    }

    /// Reads the command at `pos`; on success also gives the position
    /// behind it. What is read can be written again.
    pub fn read_from(buf: &[u8], pos: usize) -> (r: Result<(Command, usize), CodecError>)
        ensures
            read_matches_view(r, spec_read_command(tail(buf@, pos as int)), pos, buf@.len()),
            r matches Ok((c, _)) ==> c@.wf(),
    {
        let (header, next) = match Header::read_from(buf, pos) {
            Ok(p) => p,
            Err(e) => {
                return Err(e);
            },
        };
        assert(tail(tail(buf@, pos as int), 2) =~= tail(buf@, next as int));
        match header.command_type {
            CommandType::Authenticate => match Authenticate::read_from(header, buf, next) {
                Ok((a, end)) => Ok((Command::Authenticate(a), end)),
                Err(e) => Err(e),
            },
            CommandType::Connect => match Connect::read_from(header, buf, next) {
                Ok((c, end)) => Ok((Command::Connect(c), end)),
                Err(e) => Err(e),
            },
            CommandType::Packet => match Packet::read_from(header, buf, next) {
                Ok((p, end)) => Ok((Command::Packet(p), end)),
                Err(e) => Err(e),
            },
            CommandType::Heartbeat => match Heartbeat::read_from(header, buf, next) {
                Ok((h, end)) => Ok((Command::Heartbeat(h), end)),
                Err(e) => Err(e),
            },
            CommandType::Dissociate => match Dissociate::read_from(header, buf, next) {
                Ok((d, end)) => Ok((Command::Dissociate(d), end)),
                Err(e) => Err(e),
            },
        }
    }

    /// Appends the command.
    pub fn write_to_buf(&self, buf: &mut Vec<u8>)
        requires
            self@.wf(),
        ensures
            final(buf)@ == old(buf)@ + spec_write_command(self@),
    {
        match self {
            Command::Authenticate(a) => a.write_to_buf(buf),
            Command::Connect(c) => c.write_to_buf(buf),
            Command::Packet(p) => p.write_to_buf(buf),
            Command::Heartbeat(h) => h.write_to_buf(buf),
            Command::Dissociate(d) => d.write_to_buf(buf),
        }
    }
}

/// No command that can be written is longer than [`MAX_COMMAND_LEN`].
pub proof fn lemma_command_len(c: CommandView)
    requires
        c.wf(),
    ensures
        spec_write_command(c).len() <= MAX_COMMAND_LEN,
{
    match c {
        CommandView::Authenticate(a) => {
            crate::wire::lemma_be_bytes_len(a.uuid as nat, 16);
        },
        CommandView::Connect(k) => {
            lemma_address_len(k.address);
        },
        CommandView::Packet(p) => {
            lemma_packet_len(p);
            lemma_address_len(p.address);
        },
        CommandView::Heartbeat(_) => {},
        CommandView::Dissociate(d) => {
            crate::wire::lemma_be_bytes_len(d.asso_id as nat, 2);
        },
    }
}

/// An Authenticate command reads back as itself.
proof fn lemma_authenticate_command(a: AuthenticateView, rest: Seq<u8>)
    requires
        CommandView::Authenticate(a).wf(),
    ensures
        spec_read_command(spec_write_authenticate(a) + rest) == Ok::<(CommandView, nat), CodecError>(
            (CommandView::Authenticate(a), spec_write_authenticate(a).len()),
        ),
{
    let body = be_bytes(a.uuid as nat, 16) + a.token;
    let bytes = spec_write_authenticate(a) + rest;
    assert(bytes =~= spec_write_header(a.header) + (body + rest));
    lemma_header_round_trip(a.header, body + rest);
    assert(tail(bytes, 2) =~= body + rest);
    lemma_authenticate_round_trip(a, rest);
    crate::wire::lemma_be_bytes_len(a.uuid as nat, 16);
}

/// A Connect command reads back as itself.
proof fn lemma_connect_command(k: ConnectView, rest: Seq<u8>)
    requires
        CommandView::Connect(k).wf(),
    ensures
        spec_read_command(spec_write_connect(k) + rest) == Ok::<(CommandView, nat), CodecError>(
            (CommandView::Connect(k), spec_write_connect(k).len()),
        ),
{
    let body = spec_write_address(k.address);
    let bytes = spec_write_connect(k) + rest;
    assert(bytes =~= spec_write_header(k.header) + (body + rest));
    lemma_header_round_trip(k.header, body + rest);
    assert(tail(bytes, 2) =~= body + rest);
    lemma_connect_round_trip(k, rest);
}

/// A Packet command reads back as itself.
proof fn lemma_packet_command(p: PacketView, rest: Seq<u8>)
    requires
        CommandView::Packet(p).wf(),
    ensures
        spec_read_command(spec_write_packet(p) + rest) == Ok::<(CommandView, nat), CodecError>(
            (CommandView::Packet(p), spec_write_packet(p).len()),
        ),
{
    let body = spec_write_packet_body(p);
    let bytes = spec_write_packet(p) + rest;
    assert(bytes =~= spec_write_header(p.header) + (body + rest));
    lemma_header_round_trip(p.header, body + rest);
    assert(tail(bytes, 2) =~= body + rest);
    lemma_packet_round_trip(p, rest);
}

/// A Heartbeat command reads back as itself.
proof fn lemma_heartbeat_command(h: Heartbeat, rest: Seq<u8>)
    requires
        CommandView::Heartbeat(h).wf(),
    ensures
        spec_read_command(spec_write_heartbeat(h) + rest) == Ok::<(CommandView, nat), CodecError>(
            (CommandView::Heartbeat(h), spec_write_heartbeat(h).len()),
        ),
{
    lemma_header_round_trip(h.header, rest);
}

/// A Dissociate command reads back as itself.
proof fn lemma_dissociate_command(d: Dissociate, rest: Seq<u8>)
    requires
        CommandView::Dissociate(d).wf(),
    ensures
        spec_read_command(spec_write_dissociate(d) + rest) == Ok::<(CommandView, nat), CodecError>(
            (CommandView::Dissociate(d), spec_write_dissociate(d).len()),
        ),
{
    let body = be_bytes(d.asso_id as nat, 2);
    let bytes = spec_write_dissociate(d) + rest;
    assert(bytes =~= spec_write_header(d.header) + (body + rest));
    lemma_header_round_trip(d.header, body + rest);
    assert(tail(bytes, 2) =~= body + rest);
    lemma_dissociate_round_trip(d, rest);
    crate::wire::lemma_be_bytes_len(d.asso_id as nat, 2);
}

/// Every command that can be written reads back as itself: reading the
/// bytes that writing it gave, with anything behind them, yields the same
/// command and uses exactly those bytes.
pub proof fn lemma_command_round_trip(c: CommandView, rest: Seq<u8>)
    requires
        c.wf(),
    ensures
        spec_read_command(spec_write_command(c) + rest) == Ok::<(CommandView, nat), CodecError>(
            (c, spec_write_command(c).len()),
        ),
{
    match c {
        CommandView::Authenticate(a) => lemma_authenticate_command(a, rest),
        CommandView::Connect(k) => lemma_connect_command(k, rest),
        CommandView::Packet(p) => lemma_packet_command(p, rest),
        CommandView::Heartbeat(h) => lemma_heartbeat_command(h, rest),
        CommandView::Dissociate(d) => lemma_dissociate_command(d, rest),
    }
}

} // verus!
