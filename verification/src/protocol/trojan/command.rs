//! The Trojan request that opens a connection, and the frame in which a
//! UDP payload travels on the TLS stream.

use super::address::{
    lemma_address_len, lemma_address_round_trip, spec_read_address, spec_write_address, Address,
    AddressView,
};
use crate::authenticate::trojan::{TrojanAuthenticationManager, PASSWORD_HASH_LENGTH};
use crate::wire::{
    be_bytes, be_nat, copy_range, get_u16, get_u8, lemma_be_bytes_len, lemma_be_nat_of_bytes,
    lemma_pow256_values, put_slice, put_u16, put_u8, read_matches_view, tail, CodecError,
};
use vstd::prelude::*;

verus! {

/// Carriage return, the first byte of a line end.
pub const CR: u8 = 0x0d;

/// Line feed, the second byte of a line end.
pub const LF: u8 = 0x0a;

/// The length of the longest request: hash, line end, command, a domain
/// name of 255 bytes with its port, line end.
pub const MAX_REQUEST_LEN: usize = 320;

/// The two commands of Trojan.
#[derive(Debug, Clone, Copy, PartialEq, Eq, Structural)]
pub enum CommandType {
    Connect,
    UdpAssociate,
}

/// The byte that stands for `t` on the wire.
pub open spec fn spec_command_byte(t: CommandType) -> u8 {
    match t {
        CommandType::Connect => 0x01,
        CommandType::UdpAssociate => 0x03,
    }
}

/// The command that `value` stands for; any other byte is a
/// `MalformedFrame`.
pub open spec fn spec_command_from(value: u8) -> Result<CommandType, CodecError> {
    if value == 0x01 {
        Ok(CommandType::Connect)
    } else if value == 0x03 {
        Ok(CommandType::UdpAssociate)
    } else {
        Err(CodecError::MalformedFrame)
    }
}

impl CommandType {
    /// See [`spec_command_from`].
    pub fn from_u8(value: u8) -> (r: Result<Self, CodecError>)
        ensures
            r == spec_command_from(value),
    {
        match value {
            0x01 => Ok(CommandType::Connect),
            0x03 => Ok(CommandType::UdpAssociate),
            _ => Err(CodecError::MalformedFrame),
        }
    }

    /// See [`spec_command_byte`].
    pub fn to_byte(self) -> (b: u8)
        ensures
            b == spec_command_byte(self),
    {
        match self {
            CommandType::Connect => 0x01,
            CommandType::UdpAssociate => 0x03,
        }
    }
}

/// A Trojan request, behind its password hash.
#[derive(Debug, PartialEq, Eq)]
pub struct TrojanRequest {
    pub command: CommandType,
    pub address: Address,
}

/// A [`TrojanRequest`] as a value of specifications.
pub struct TrojanRequestView {
    pub command: CommandType,
    pub address: AddressView,
}

impl View for TrojanRequest {
    type V = TrojanRequestView;

    open spec fn view(&self) -> TrojanRequestView {
        TrojanRequestView { command: self.command, address: self.address@ }
    }
}

/// The bytes of the request `r` of a client that shows `hash`.
pub open spec fn spec_write_request(hash: Seq<u8>, r: TrojanRequestView) -> Seq<u8> {
    hash + seq![CR, LF] + seq![spec_command_byte(r.command)] + spec_write_address(r.address)
        + seq![CR, LF]
}

/// What reading a request gives from `bytes`, where `hashes` are the
/// password hashes that open the server.
///
/// The parts are read in order: 56 bytes of hash, a line end, the command,
/// the address, a line end. Input that ends inside the request is
/// `Truncated`. Everything else that is not a request of a known user is
/// "no request": a line end that is none, a hash that is not known, an
/// unknown command, an address that is malformed.
pub open spec fn spec_read_request(bytes: Seq<u8>, hashes: Seq<Seq<u8>>) -> Result<
    Option<(TrojanRequestView, nat)>,
    CodecError,
> {
    if bytes.len() < 58 {
        Err(CodecError::Truncated)
    } else if bytes[56] != CR || bytes[57] != LF {
        Ok(None)
    } else if !hashes.contains(bytes.subrange(0, 56)) {
        Ok(None)
    } else if bytes.len() < 59 {
        Err(CodecError::Truncated)
    } else {
        match spec_command_from(bytes[58]) {
            Err(_) => Ok(None),
            Ok(command) => match spec_read_address(tail(bytes, 59)) {
                Err(CodecError::Truncated) => Err(CodecError::Truncated),
                Err(CodecError::MalformedFrame) => Ok(None),
                Ok((address, used)) => {
                    let n = used as int;
                    if bytes.len() < 59 + n + 2 {
                        Err(CodecError::Truncated)
                    } else if bytes[59 + n] != CR || bytes[59 + n + 1] != LF {
                        Ok(None)
                    } else {
                        Ok(Some((TrojanRequestView { command, address }, (59 + n + 2) as nat)))
                    }
                },
            },
        }
    }
}

/// Whether `got` is what [`spec_read_request`] says.
pub open spec fn request_matches(
    got: Result<Option<(TrojanRequest, usize)>, CodecError>,
    want: Result<Option<(TrojanRequestView, nat)>, CodecError>,
) -> bool {
    match got {
        Ok(Some((r, n))) => want == Ok::<Option<(TrojanRequestView, nat)>, CodecError>(
            Some((r@, n as nat)),
        ),
        Ok(None) => want == Ok::<Option<(TrojanRequestView, nat)>, CodecError>(None),
        Err(e) => want == Err::<Option<(TrojanRequestView, nat)>, CodecError>(e),
    }
}

impl TrojanRequest {
    /// Reads the request at the start of `buf`; on success also gives the
    /// position behind it, where the payload of the connection starts. See
    /// [`spec_read_request`].
    pub fn read_from(buf: &[u8], auth_manager: &TrojanAuthenticationManager) -> (r: Result<
        Option<(TrojanRequest, usize)>,
        CodecError,
    >)
        ensures
            request_matches(r, spec_read_request(buf@, auth_manager@)),
            r matches Ok(Some((q, n))) ==> q.address@.wf() && n <= buf@.len(),
    {
        if buf.len() < PASSWORD_HASH_LENGTH + 2 {
            return Err(CodecError::Truncated);
        }
        if buf[PASSWORD_HASH_LENGTH] != CR || buf[PASSWORD_HASH_LENGTH + 1] != LF {
            return Ok(None);
        }
        let hash: Vec<u8> = copy_range(buf, 0, PASSWORD_HASH_LENGTH);
        if !auth_manager.verify_hash_bytes(hash.as_slice()) {
            return Ok(None);
        }
        let command: CommandType = match get_u8(buf, PASSWORD_HASH_LENGTH + 2) {
            Err(e) => {
                return Err(e);
            },
            Ok(b) => match CommandType::from_u8(b) {
                Ok(c) => c,
                Err(_) => {
                    return Ok(None);
                },
            },
        };
        let (address, next) = match Address::read_from(buf, PASSWORD_HASH_LENGTH + 3) {
            Ok(p) => p,
            Err(CodecError::Truncated) => {
                return Err(CodecError::Truncated);
            },
            Err(CodecError::MalformedFrame) => {
                return Ok(None);
            },
        };
        if buf.len() - next < 2 {
            return Err(CodecError::Truncated);
        }
        if buf[next] != CR || buf[next + 1] != LF {
            return Ok(None);
        }
        Ok(Some((TrojanRequest { command, address }, next + 2)))
    }

    /// Appends the request as a client sends it that shows `hash`.
    pub fn write_to_buf(&self, hash: &[u8], buf: &mut Vec<u8>)
        requires
            self.address@.wf(),
        ensures
            final(buf)@ == old(buf)@ + spec_write_request(hash@, self@),
    {
        put_slice(buf, hash);
        put_u8(buf, CR);
        put_u8(buf, LF);
        put_u8(buf, self.command.to_byte());
        self.address.write_to_buf(buf);
        put_u8(buf, CR);
        put_u8(buf, LF);
        assert(buf@ =~= old(buf)@ + spec_write_request(hash@, self@));
    }
}

/// No request that can be written is longer than [`MAX_REQUEST_LEN`].
pub proof fn lemma_request_len(hash: Seq<u8>, r: TrojanRequestView)
    requires
        hash.len() == PASSWORD_HASH_LENGTH,
        r.address.wf(),
    ensures
        spec_write_request(hash, r).len() <= MAX_REQUEST_LEN,
{
    lemma_address_len(r.address);
}

/// The request of a client that shows a known hash reads back as it was
/// written, whatever follows it.
pub proof fn lemma_request_round_trip(
    hash: Seq<u8>,
    r: TrojanRequestView,
    hashes: Seq<Seq<u8>>,
    rest: Seq<u8>,
)
    requires
        hash.len() == PASSWORD_HASH_LENGTH,
        hashes.contains(hash),
        r.address.wf(),
    ensures
        spec_read_request(spec_write_request(hash, r) + rest, hashes) == Ok::<
            Option<(TrojanRequestView, nat)>,
            CodecError,
        >(Some((r, spec_write_request(hash, r).len()))),
{
    let addr = spec_write_address(r.address);
    let bytes = spec_write_request(hash, r) + rest;
    lemma_address_len(r.address);
    assert(bytes.subrange(0, 56) =~= hash);
    assert(bytes[56] == CR && bytes[57] == LF);
    assert(bytes[58] == spec_command_byte(r.command));
    assert(tail(bytes, 59) =~= addr + (seq![CR, LF] + rest));
    lemma_address_round_trip(r.address, seq![CR, LF] + rest);
    let n = addr.len() as int;
    assert(bytes[59 + n] == CR && bytes[59 + n + 1] == LF);
}

/// A UDP payload on the TLS stream, with the address that it goes to or
/// comes from.
#[derive(Debug, PartialEq, Eq)]
pub struct UdpFrame {
    pub dst: Address,
    pub payload: Vec<u8>,
}

/// A [`UdpFrame`] as a value of specifications.
pub struct UdpFrameView {
    pub dst: AddressView,
    pub payload: Seq<u8>,
}

impl View for UdpFrame {
    type V = UdpFrameView;

    open spec fn view(&self) -> UdpFrameView {
        UdpFrameView { dst: self.dst@, payload: self.payload@ }
    }
}

impl UdpFrameView {
    /// Whether the frame can be written: the address can be, and the
    /// length of the payload fits in two bytes.
    pub open spec fn wf(self) -> bool {
        self.dst.wf() && self.payload.len() <= u16::MAX
    }
}

/// The bytes of `f`: address, length of the payload, line end, payload.
pub open spec fn spec_write_udp_frame(f: UdpFrameView) -> Seq<u8> {
    spec_write_address(f.dst) + be_bytes(f.payload.len(), 2) + seq![CR, LF] + f.payload
}

/// What reading a frame from `bytes` gives. Where the line end is none the
/// frame is a `MalformedFrame`.
pub open spec fn spec_read_udp_frame(bytes: Seq<u8>) -> Result<(UdpFrameView, nat), CodecError> {
    match spec_read_address(bytes) {
        Err(e) => Err(e),
        Ok((dst, used)) => {
            let n = used as int;
            if bytes.len() < n + 4 {
                Err(CodecError::Truncated)
            } else if bytes[n + 2] != CR || bytes[n + 3] != LF {
                Err(CodecError::MalformedFrame)
            } else {
                let len = be_nat(bytes.subrange(n, n + 2)) as int;
                if bytes.len() < n + 4 + len {
                    Err(CodecError::Truncated)
                } else {
                    Ok(
                        (
                            UdpFrameView { dst, payload: bytes.subrange(n + 4, n + 4 + len) },
                            (n + 4 + len) as nat,
                        ),
                    )
                }
            }
        },
    }
}

/// Reads the frame at `pos`; on success also gives the position behind it.
pub fn read_trojan_udp_frame(buf: &[u8], pos: usize) -> (r: Result<(UdpFrame, usize), CodecError>)
    ensures
        read_matches_view(r, spec_read_udp_frame(tail(buf@, pos as int)), pos, buf@.len()),
        r matches Ok((f, _)) ==> f@.wf(),
{
    let ghost rest = tail(buf@, pos as int);
    let (dst, next) = match Address::read_from(buf, pos) {
        Ok(p) => p,
        Err(e) => {
            return Err(e);
        },
    };
    if buf.len() - next < 4 {
        return Err(CodecError::Truncated);
    }
    let len: u16 = match get_u16(buf, next) {
        Ok(v) => v,
        Err(e) => {
            return Err(e);
        },
    };
    assert(rest.subrange(next - pos, next - pos + 2) =~= buf@.subrange(next as int, next + 2));
    if buf[next + 2] != CR || buf[next + 3] != LF {
        return Err(CodecError::MalformedFrame);
    }
    let start: usize = next + 4;
    let n: usize = len as usize;
    if buf.len() - start < n {
        return Err(CodecError::Truncated);
    }
    let payload: Vec<u8> = copy_range(buf, start, start + n);
    assert(rest.subrange(start - pos, start - pos + n) =~= payload@);
    Ok((UdpFrame { dst, payload }, start + n))
}

/// Appends the frame that carries `payload` for `addr`.
pub fn write_trojan_udp_frame(writer: &mut Vec<u8>, addr: &Address, payload: &[u8])
    requires
        addr@.wf(),
        payload@.len() <= u16::MAX,
    ensures
        final(writer)@ == old(writer)@ + spec_write_udp_frame(
            UdpFrameView { dst: addr@, payload: payload@ },
        ),
{
    addr.write_to_buf(writer);
    put_u16(writer, payload.len() as u16);
    put_u8(writer, CR);
    put_u8(writer, LF);
    put_slice(writer, payload);
    assert(writer@ =~= old(writer)@ + spec_write_udp_frame(
        UdpFrameView { dst: addr@, payload: payload@ },
    ));
}

/// A frame that can be written reads back as itself, whatever follows it.
pub proof fn lemma_udp_frame_round_trip(f: UdpFrameView, rest: Seq<u8>)
    requires
        f.wf(),
    ensures
        spec_read_udp_frame(spec_write_udp_frame(f) + rest) == Ok::<(UdpFrameView, nat), CodecError>(
            (f, spec_write_udp_frame(f).len()),
        ),
{
    let addr = spec_write_address(f.dst);
    let size = be_bytes(f.payload.len(), 2);
    let bytes = spec_write_udp_frame(f) + rest;
    let n = addr.len() as int;
    lemma_pow256_values();
    lemma_be_bytes_len(f.payload.len(), 2);
    lemma_be_nat_of_bytes(f.payload.len(), 2);
    assert(bytes =~= addr + (size + seq![CR, LF] + f.payload + rest));
    lemma_address_round_trip(f.dst, size + seq![CR, LF] + f.payload + rest);
    assert(bytes.subrange(n, n + 2) =~= size);
    assert(bytes[n + 2] == CR && bytes[n + 3] == LF);
    assert(bytes.subrange(n + 4, n + 4 + f.payload.len()) =~= f.payload);
}

} // verus!
