//! The tagged address of Trojan: a socket address or a domain name with a
//! port.

use crate::net::{rewrite_local, spec_rewrite_local, IpAddress, SocketAddress};
use crate::wire::{
    be_bytes, be_nat, copy_range, get_u128, get_u16, get_u32, get_u8, lemma_be_bytes_len,
    lemma_be_nat_of_bytes, lemma_pow256_values, put_be, put_slice, put_u16, put_u8,
    read_matches_view, string_from_utf8, tail, CodecError,
};
use crate::text::{push_decimal, push_ip, spec_decimal, spec_ip_text};
use vstd::prelude::*;
use vstd::string::StringExecFns;
use vstd::utf8::{
    decode_utf8, encode_utf8, encode_utf8_decode_utf8, encode_utf8_valid_utf8, valid_utf8,
};

verus! {

/// The three forms of a Trojan address.
#[derive(Debug, Clone, Copy, PartialEq, Eq, Structural)]
pub enum AddressType {
    IPv4,
    DomainName,
    IPv6,
}

/// The byte that stands for `t` on the wire.
pub open spec fn spec_address_type_byte(t: AddressType) -> u8 {
    match t {
        AddressType::IPv4 => 0x01,
        AddressType::DomainName => 0x03,
        AddressType::IPv6 => 0x04,
    }
}

/// The form that `value` stands for; any other byte is a `MalformedFrame`.
pub open spec fn spec_address_type_from(value: u8) -> Result<AddressType, CodecError> {
    if value == 0x01 {
        Ok(AddressType::IPv4)
    } else if value == 0x03 {
        Ok(AddressType::DomainName)
    } else if value == 0x04 {
        Ok(AddressType::IPv6)
    } else {
        Err(CodecError::MalformedFrame)
    }
}

impl AddressType {
    /// See [`spec_address_type_from`].
    pub fn from_u8(value: u8) -> (r: Result<Self, CodecError>)
        ensures
            r == spec_address_type_from(value),
    {
        match value {
            0x01 => Ok(AddressType::IPv4),
            0x03 => Ok(AddressType::DomainName),
            0x04 => Ok(AddressType::IPv6),
            _ => Err(CodecError::MalformedFrame),
        }
    }

    /// See [`spec_address_type_byte`].
    pub fn to_byte(self) -> (b: u8)
        ensures
            b == spec_address_type_byte(self),
    {
        match self {
            AddressType::IPv4 => 0x01,
            AddressType::DomainName => 0x03,
            AddressType::IPv6 => 0x04,
        }
    }
}

/// Where a request points.
#[derive(Debug, PartialEq, Eq)]
pub enum Address {
    /// An IP address and a port.
    Socket(SocketAddress),
    /// A domain name and a port.
    Domain(String, u16),
}

/// An [`Address`] as a value of specifications.
pub enum AddressView {
    Socket(SocketAddress),
    Domain(Seq<char>, u16),
}

impl View for Address {
    type V = AddressView;

    open spec fn view(&self) -> AddressView {
        match *self {
            Address::Socket(a) => AddressView::Socket(a),
            Address::Domain(name, port) => AddressView::Domain(name@, port),
        }
    }
}

impl Clone for Address {
    fn clone(&self) -> (r: Self)
        ensures
            r == *self,
    {
        match self {
            Address::Socket(s) => Address::Socket(*s),
            Address::Domain(name, port) => Address::Domain(name.clone(), *port),
        }
    }
}

impl AddressView {
    /// Whether the address can be written: a domain name takes between 1
    /// and 255 bytes.
    pub open spec fn wf(self) -> bool {
        match self {
            AddressView::Domain(name, _) => 1 <= encode_utf8(name).len() <= 255,
            _ => true,
        }
    }

    /// The form of the address.
    pub open spec fn addr_type(self) -> AddressType {
        match self {
            AddressView::Socket(s) => if s.ip is V4 {
                AddressType::IPv4
            } else {
                AddressType::IPv6
            },
            AddressView::Domain(_, _) => AddressType::DomainName,
        }
    }

    /// The port of the address.
    pub open spec fn port(self) -> u16 {
        match self {
            AddressView::Socket(s) => s.port,
            AddressView::Domain(_, port) => port,
        }
    }
}

/// The bytes of `a`: the tag, then 4 or 16 address bytes or a length byte
/// and the name, then the port, high byte first.
pub open spec fn spec_write_address(a: AddressView) -> Seq<u8> {
    match a {
        AddressView::Socket(s) => match s.ip {
            IpAddress::V4(ip) => seq![0x01u8] + be_bytes(ip as nat, 4) + be_bytes(
                s.port as nat,
                2,
            ),
            IpAddress::V6(ip) => seq![0x04u8] + be_bytes(ip as nat, 16) + be_bytes(
                s.port as nat,
                2,
            ),
        },
        AddressView::Domain(name, port) => seq![0x03u8, encode_utf8(name).len() as u8]
            + encode_utf8(name) + be_bytes(port as nat, 2),
    }
}

/// What reading an address from `bytes` gives. The fields are read in
/// order and the first that cannot be read decides the error: `Truncated`
/// where the input ends, `MalformedFrame` for an unknown tag, a name of
/// length 0 or a name that is not UTF-8.
pub open spec fn spec_read_address(bytes: Seq<u8>) -> Result<(AddressView, nat), CodecError> {
    if bytes.len() < 1 {
        Err(CodecError::Truncated)
    } else {
        match spec_address_type_from(bytes[0]) {
            Err(e) => Err(e),
            Ok(AddressType::IPv4) => if bytes.len() < 7 {
                Err(CodecError::Truncated)
            } else {
                Ok(
                    (
                        AddressView::Socket(
                            SocketAddress {
                                ip: IpAddress::V4(be_nat(bytes.subrange(1, 5)) as u32),
                                port: be_nat(bytes.subrange(5, 7)) as u16,
                            },
                        ),
                        7,
                    ),
                )
            },
            Ok(AddressType::IPv6) => if bytes.len() < 19 {
                Err(CodecError::Truncated)
            } else {
                Ok(
                    (
                        AddressView::Socket(
                            SocketAddress {
                                ip: IpAddress::V6(be_nat(bytes.subrange(1, 17)) as u128),
                                port: be_nat(bytes.subrange(17, 19)) as u16,
                            },
                        ),
                        19,
                    ),
                )
            },
            Ok(AddressType::DomainName) => if bytes.len() < 2 {
                Err(CodecError::Truncated)
            } else {
                let n = bytes[1] as int;
                if n == 0 {
                    Err(CodecError::MalformedFrame)
                } else if bytes.len() < 2 + n {
                    Err(CodecError::Truncated)
                } else if !valid_utf8(bytes.subrange(2, 2 + n)) {
                    Err(CodecError::MalformedFrame)
                } else if bytes.len() < 2 + n + 2 {
                    Err(CodecError::Truncated)
                } else {
                    Ok(
                        (
                            AddressView::Domain(
                                decode_utf8(bytes.subrange(2, 2 + n)),
                                be_nat(bytes.subrange(2 + n, 2 + n + 2)) as u16,
                            ),
                            (2 + n + 2) as nat,
                        ),
                    )
                }
            },
        }
    }
}

/// The address as text: the IP address or the name, a colon, the port in
/// decimal.
pub open spec fn spec_address_string(a: AddressView) -> Seq<char> {
    match a {
        AddressView::Socket(s) => spec_ip_text(s.ip) + seq![':'] + spec_decimal(s.port as nat),
        AddressView::Domain(name, port) => name + seq![':'] + spec_decimal(port as nat),
    }
}

/// The socket address that `a` stands for once names are resolved and the
/// local-address filter has run. `resolved` is the first address that the
/// resolver gave for the name of a domain address, `None` when it gave
/// none; for a socket address it is not looked at.
pub open spec fn spec_to_socket_address(
    a: AddressView,
    resolved: Option<SocketAddress>,
    local_ips: Seq<IpAddress>,
) -> Option<SocketAddress> {
    match a {
        AddressView::Socket(s) => Some(spec_rewrite_local(s, local_ips)),
        AddressView::Domain(_, _) => match resolved {
            Some(s) => Some(spec_rewrite_local(s, local_ips)),
            None => None,
        },
    }
}

impl Address {
    /// Whether the address can be written; see [`AddressView::wf`].
    pub fn is_valid(&self) -> (r: bool)
        ensures
            r == self@.wf(),
    {
        match self {
            Address::Domain(name, _) => {
                let n: usize = name.as_str().as_bytes().len();
                1 <= n && n <= 255
            },
            _ => true,
        }
    }

    /// The form of the address.
    pub fn addr_type(&self) -> (t: AddressType)
        ensures
            t == self@.addr_type(),
    {
        match self {
            Address::Socket(s) => if s.is_ipv4() {
                AddressType::IPv4
            } else {
                AddressType::IPv6
            },
            Address::Domain(_, _) => AddressType::DomainName,
        }
    }

    /// The port of the address.
    pub fn port(&self) -> (p: u16)
        ensures
            p == self@.port(),
    {
        match self {
            Address::Socket(s) => s.port,
            Address::Domain(_, port) => *port,
        }
    }

    /// The address as text; see [`spec_address_string`].
    pub fn to_address_string(&self) -> (text: String)
        ensures
            text@ == spec_address_string(self@),
    {
        proof {
            reveal_strlit(":");
        }
        let mut text: String = String::new();
        match self {
            Address::Socket(s) => {
                push_ip(&mut text, s.ip);
                text.append(":");
                push_decimal(&mut text, s.port as u32);
            },
            Address::Domain(name, port) => {
                text.append(name.as_str());
                text.append(":");
                push_decimal(&mut text, *port as u32);
            },
        }
        assert(text@ =~= spec_address_string(self@));
        text
    }

    /// Whether this is a domain address, whose name has to be resolved
    /// before [`Address::to_socket_addrs`] can use it.
    pub fn is_domain(&self) -> (r: bool)
        ensures
            r == (self@ is Domain),
    {
        match self {
            Address::Domain(_, _) => true,
            _ => false,
        }
    }

    /// Appends the bytes of the address.
    pub fn write_to_buf(&self, buf: &mut Vec<u8>)
        requires
            self@.wf(),
        ensures
            final(buf)@ == old(buf)@ + spec_write_address(self@),
    {
        match self {
            Address::Socket(s) => match s.ip {
                IpAddress::V4(ip) => {
                    put_u8(buf, 0x01);
                    put_be(buf, ip as u128, 4);
                    put_u16(buf, s.port);
                },
                IpAddress::V6(ip) => {
                    put_u8(buf, 0x04);
                    put_be(buf, ip, 16);
                    put_u16(buf, s.port);
                },
            },
            Address::Domain(name, port) => {
                let bytes: &[u8] = name.as_str().as_bytes();
                put_u8(buf, 0x03);
                put_u8(buf, bytes.len() as u8);
                put_slice(buf, bytes);
                put_u16(buf, *port);
            },
        }
        assert(buf@ =~= old(buf)@ + spec_write_address(self@));
    }

    /// Reads the address at `pos`; on success also gives the position
    /// behind it.
    pub fn read_from(buf: &[u8], pos: usize) -> (r: Result<(Address, usize), CodecError>)
        ensures
            read_matches_view(r, spec_read_address(tail(buf@, pos as int)), pos, buf@.len()),
            r matches Ok((a, _)) ==> a@.wf(),
    {
        let ghost rest = tail(buf@, pos as int);
        let tag: u8 = match get_u8(buf, pos) {
            Ok(v) => v,
            Err(e) => {
                return Err(e);
            },
        };
        let address_type: AddressType = match AddressType::from_u8(tag) {
            Ok(t) => t,
            Err(e) => {
                return Err(e);
            },
        };
        let next: usize = pos + 1;
        proof {
            lemma_pow256_values();
        }
        match address_type {
            AddressType::IPv4 => {
                let ip: u32 = match get_u32(buf, next) {
                    Ok(v) => v,
                    Err(e) => {
                        return Err(e);
                    },
                };
                let port: u16 = match get_u16(buf, next + 4) {
                    Ok(v) => v,
                    Err(e) => {
                        return Err(e);
                    },
                };
                assert(rest.subrange(1, 5) =~= buf@.subrange(next as int, next + 4));
                assert(rest.subrange(5, 7) =~= buf@.subrange(next + 4, next + 6));
                Ok((Address::Socket(SocketAddress { ip: IpAddress::V4(ip), port }), next + 6))
            },
            AddressType::IPv6 => {
                let ip: u128 = match get_u128(buf, next) {
                    Ok(v) => v,
                    Err(e) => {
                        return Err(e);
                    },
                };
                let port: u16 = match get_u16(buf, next + 16) {
                    Ok(v) => v,
                    Err(e) => {
                        return Err(e);
                    },
                };
                assert(rest.subrange(1, 17) =~= buf@.subrange(next as int, next + 16));
                assert(rest.subrange(17, 19) =~= buf@.subrange(next + 16, next + 18));
                Ok((Address::Socket(SocketAddress { ip: IpAddress::V6(ip), port }), next + 18))
            },
            AddressType::DomainName => {
                let len: u8 = match get_u8(buf, next) {
                    Ok(v) => v,
                    Err(e) => {
                        return Err(e);
                    },
                };
                if len == 0 {
                    return Err(CodecError::MalformedFrame);
                }
                let from: usize = next + 1;
                let n: usize = len as usize;
                if n > buf.len() - from {
                    return Err(CodecError::Truncated);
                }
                let raw: Vec<u8> = copy_range(buf, from, from + n);
                assert(rest.subrange(2, 2 + n) =~= raw@);
                let name: String = match string_from_utf8(raw) {
                    Some(s) => s,
                    None => {
                        return Err(CodecError::MalformedFrame);
                    },
                };
                let port: u16 = match get_u16(buf, from + n) {
                    Ok(v) => v,
                    Err(e) => {
                        return Err(e);
                    },
                };
                assert(rest.subrange(2 + n, 2 + n + 2) =~= buf@.subrange(from + n, from + n + 2));
                proof {
                    vstd::utf8::decode_utf8_encode_utf8(rest.subrange(2, 2 + n));
                }
                Ok((Address::Domain(name, port), from + n + 2))
            },
        }
    }

    /// See [`spec_to_socket_address`].
    pub fn to_socket_addrs(&self, resolved: Option<SocketAddress>, local_ips: &[IpAddress]) -> (r:
        Option<SocketAddress>)
        ensures
            r == spec_to_socket_address(self@, resolved, local_ips@),
    {
        match self {
            Address::Socket(s) => Some(rewrite_local(*s, local_ips)),
            Address::Domain(_, _) => match resolved {
                Some(s) => Some(rewrite_local(s, local_ips)),
                None => None,
            },
        }
    }
}

/// The length of a written address.
pub proof fn lemma_address_len(a: AddressView)
    ensures
        spec_write_address(a).len() == (match a {
            AddressView::Socket(s) => if s.ip is V4 {
                7
            } else {
                19
            },
            AddressView::Domain(name, _) => 4 + encode_utf8(name).len(),
        }),
{
    match a {
        AddressView::Socket(s) => {
            lemma_be_bytes_len(s.port as nat, 2);
            match s.ip {
                IpAddress::V4(ip) => lemma_be_bytes_len(ip as nat, 4),
                IpAddress::V6(ip) => lemma_be_bytes_len(ip as nat, 16),
            }
        },
        AddressView::Domain(_, port) => {
            lemma_be_bytes_len(port as nat, 2);
        },
    }
}

/// An address that can be written reads back as itself, whatever follows
/// it, and the read uses exactly the bytes that were written.
#[verifier::rlimit(30)]
pub proof fn lemma_address_round_trip(a: AddressView, rest: Seq<u8>)
    requires
        a.wf(),
    ensures
        spec_read_address(spec_write_address(a) + rest) == Ok::<(AddressView, nat), CodecError>(
            (a, spec_write_address(a).len()),
        ),
{
    let w = spec_write_address(a);
    let bytes = w + rest;
    lemma_pow256_values();
    match a {
        AddressView::Socket(s) => {
            lemma_be_bytes_len(s.port as nat, 2);
            lemma_be_nat_of_bytes(s.port as nat, 2);
            match s.ip {
                IpAddress::V4(ip) => {
                    lemma_be_bytes_len(ip as nat, 4);
                    lemma_be_nat_of_bytes(ip as nat, 4);
                    assert(bytes.subrange(1, 5) =~= be_bytes(ip as nat, 4));
                    assert(bytes.subrange(5, 7) =~= be_bytes(s.port as nat, 2));
                    assert(bytes[0] == 0x01);
                },
                IpAddress::V6(ip) => {
                    lemma_be_bytes_len(ip as nat, 16);
                    lemma_be_nat_of_bytes(ip as nat, 16);
                    assert(bytes.subrange(1, 17) =~= be_bytes(ip as nat, 16));
                    assert(bytes.subrange(17, 19) =~= be_bytes(s.port as nat, 2));
                    assert(bytes[0] == 0x04);
                },
            }
        },
        AddressView::Domain(name, port) => {
            let enc = encode_utf8(name);
            let n = enc.len() as int;
            lemma_be_bytes_len(port as nat, 2);
            lemma_be_nat_of_bytes(port as nat, 2);
            encode_utf8_valid_utf8(name);
            encode_utf8_decode_utf8(name);
            assert(bytes[0] == 0x03);
            assert(bytes[1] == n as u8);
            assert(bytes.subrange(2, 2 + n) =~= enc);
            assert(bytes.subrange(2 + n, 2 + n + 2) =~= be_bytes(port as nat, 2));
        },
    }
}

} // verus!
