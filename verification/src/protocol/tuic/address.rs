//! The tagged address of TUIC: a socket address, a domain name with a port,
//! or nothing.

pub use super::address_type::AddressType;
use super::address_type::spec_read_address_type;
use crate::net::{rewrite_local, spec_rewrite_local, IpAddress, SocketAddress};
use crate::wire::{
    be_bytes, be_nat, copy_range, get_u128, get_u16, get_u32, get_u8, lemma_be_bytes_len,
    lemma_be_nat_bound, lemma_be_nat_of_bytes, lemma_pow256_values, put_be, put_slice, put_u16,
    put_u8, read_matches_view, string_from_utf8, tail, CodecError,
};
use vstd::prelude::*;
use vstd::utf8::{
    decode_utf8, encode_utf8, encode_utf8_decode_utf8, encode_utf8_valid_utf8, valid_utf8,
};

verus! {

/// Where a command points.
#[derive(Debug, PartialEq, Eq)]
pub enum Address {
    /// An IP address and a port.
    SocketAddress(SocketAddress),
    /// A domain name and a port.
    DomainAddress(String, u16),
    /// No address: what every fragment but the first carries.
    Absent,
}

/// An [`Address`] as a value of specifications.
pub enum AddressView {
    Socket(SocketAddress),
    Domain(Seq<char>, u16),
    Absent,
}

impl View for Address {
    type V = AddressView;

    open spec fn view(&self) -> AddressView {
        match *self {
            Address::SocketAddress(a) => AddressView::Socket(a),
            Address::DomainAddress(name, port) => AddressView::Domain(name@, port),
            Address::Absent => AddressView::Absent,
        }
    }
}

impl Clone for Address {
    fn clone(&self) -> (r: Self)
        ensures
            r == *self,
    {
        match self {
            Address::SocketAddress(s) => Address::SocketAddress(*s),
            Address::DomainAddress(name, port) => Address::DomainAddress(name.clone(), *port),
            Address::Absent => Address::Absent,
        }
    }
}

impl AddressView {
    /// Whether the address can be written: a domain name takes between 1
    /// and 255 bytes, because its length travels in one byte and an empty
    /// name is refused.
    pub open spec fn wf(self) -> bool {
        match self {
            AddressView::Domain(name, _) => 1 <= encode_utf8(name).len() <= 255,
            _ => true,
        }
    }
}

/// The bytes of `a`: the tag, then 4 or 16 address bytes or a length byte
/// and the name, then the port, high byte first.
pub open spec fn spec_write_address(a: AddressView) -> Seq<u8> {
    match a {
        AddressView::Socket(s) => match s.ip {
            IpAddress::V4(ip) => seq![0x01u8] + be_bytes(ip as nat, 4) + be_bytes(
                s.port as nat,
                2,
            ),
            IpAddress::V6(ip) => seq![0x02u8] + be_bytes(ip as nat, 16) + be_bytes(
                s.port as nat,
                2,
            ),
        },
        AddressView::Domain(name, port) => seq![0x00u8, encode_utf8(name).len() as u8]
            + encode_utf8(name) + be_bytes(port as nat, 2),
        AddressView::Absent => seq![0xFFu8],
    }
}

/// What reading an address from `bytes` gives. The fields are read in
/// order and the first that cannot be read decides the error: `Truncated`
/// where the input ends, `MalformedFrame` for an unknown tag, a name of
/// length 0 or a name that is not UTF-8.
pub open spec fn spec_read_address(bytes: Seq<u8>) -> Result<(AddressView, nat), CodecError> {
    match spec_read_address_type(bytes) {
        Err(e) => Err(e),
        Ok((AddressType::Absent, _)) => Ok((AddressView::Absent, 1)),
        Ok((AddressType::IpV4, _)) => if bytes.len() < 7 {
            Err(CodecError::Truncated)
        } else {
            Ok(
                (
                    AddressView::Socket(
                        SocketAddress {
                            ip: IpAddress::V4(be_nat(bytes.subrange(1, 5)) as u32),
                            port: be_nat(bytes.subrange(5, 7)) as u16,
                        },
                    ),
                    7,
                ),
            )
        },
        Ok((AddressType::IpV6, _)) => if bytes.len() < 19 {
            Err(CodecError::Truncated)
        } else {
            Ok(
                (
                    AddressView::Socket(
                        SocketAddress {
                            ip: IpAddress::V6(be_nat(bytes.subrange(1, 17)) as u128),
                            port: be_nat(bytes.subrange(17, 19)) as u16,
                        },
                    ),
                    19,
                ),
            )
        },
        Ok((AddressType::Domain, _)) => if bytes.len() < 2 {
            Err(CodecError::Truncated)
        } else {
            let n = bytes[1] as int;
            if n == 0 {
                Err(CodecError::MalformedFrame)
            } else if bytes.len() < 2 + n {
                Err(CodecError::Truncated)
            } else if !valid_utf8(bytes.subrange(2, 2 + n)) {
                Err(CodecError::MalformedFrame)
            } else if bytes.len() < 2 + n + 2 {
                Err(CodecError::Truncated)
            } else {
                Ok(
                    (
                        AddressView::Domain(
                            decode_utf8(bytes.subrange(2, 2 + n)),
                            be_nat(bytes.subrange(2 + n, 2 + n + 2)) as u16,
                        ),
                        (2 + n + 2) as nat,
                    ),
                )
            }
        },
    }
}

/// The socket address that `a` stands for once names are resolved and the
/// local-address filter has run. `resolved` is the first address that the
/// resolver gave for the name of a domain address, `None` when it gave
/// none; for the other forms it is not looked at.
pub open spec fn spec_to_socket_address(
    a: AddressView,
    resolved: Option<SocketAddress>,
    local_ips: Seq<IpAddress>,
) -> Option<SocketAddress> {
    match a {
        AddressView::Socket(s) => Some(spec_rewrite_local(s, local_ips)),
        AddressView::Domain(_, _) => match resolved {
            Some(s) => Some(spec_rewrite_local(s, local_ips)),
            None => None,
        },
        AddressView::Absent => None,
    }
}

impl Address {
    /// Whether the address can be written; see [`AddressView::wf`].
    pub fn is_valid(&self) -> (r: bool)
        ensures
            r == self@.wf(),
    {
        match self {
            Address::DomainAddress(name, _) => {
                let n: usize = name.as_str().as_bytes().len();
                1 <= n && n <= 255
            },
            _ => true,
        }
    }

    /// Whether this is a domain address, whose name has to be resolved
    /// before [`Address::to_socket_address`] can use it.
    pub fn is_domain(&self) -> (r: bool)
        ensures
            r == (self@ is Domain),
    {
        match self {
            Address::DomainAddress(_, _) => true,
            _ => false,
        }
    }

    /// Appends the bytes of the address.
    pub fn write_to_buf(&self, buf: &mut Vec<u8>)
        requires
            self@.wf(),
        ensures
            final(buf)@ == old(buf)@ + spec_write_address(self@),
    {
        match self {
            Address::SocketAddress(s) => match s.ip {
                IpAddress::V4(ip) => {
                    put_u8(buf, 0x01);
                    put_be(buf, ip as u128, 4);
                    put_u16(buf, s.port);
                },
                IpAddress::V6(ip) => {
                    put_u8(buf, 0x02);
                    put_be(buf, ip, 16);
                    put_u16(buf, s.port);
                },
            },
            Address::DomainAddress(name, port) => {
                let bytes: &[u8] = name.as_str().as_bytes();
                put_u8(buf, 0x00);
                put_u8(buf, bytes.len() as u8);
                put_slice(buf, bytes);
                put_u16(buf, *port);
            },
            Address::Absent => {
                put_u8(buf, 0xFF);
            },
        }
        assert(buf@ =~= old(buf)@ + spec_write_address(self@));
    }

    /// Reads the address at `pos`; on success also gives the position
    /// behind it.
    pub fn read_from(buf: &[u8], pos: usize) -> (r: Result<(Address, usize), CodecError>)
        ensures
            read_matches_view(r, spec_read_address(tail(buf@, pos as int)), pos, buf@.len()),
            r matches Ok((a, _)) ==> a@.wf(),
    {
        let ghost rest = tail(buf@, pos as int);
        let (address_type, next) = match AddressType::read_from(buf, pos) {
            Ok(p) => p,
            Err(e) => {
                return Err(e);
            },
        };
        proof {
            lemma_pow256_values();
        }
        match address_type {
            AddressType::Absent => Ok((Address::Absent, next)),
            AddressType::IpV4 => {
                let ip: u32 = match get_u32(buf, next) {
                    Ok(v) => v,
                    Err(e) => {
                        return Err(e);
                    },
                };
                let port: u16 = match get_u16(buf, next + 4) {
                    Ok(v) => v,
                    Err(e) => {
                        return Err(e);
                    },
                };
                assert(rest.subrange(1, 5) =~= buf@.subrange(next as int, next + 4));
                assert(rest.subrange(5, 7) =~= buf@.subrange(next + 4, next + 6));
                Ok((Address::SocketAddress(SocketAddress { ip: IpAddress::V4(ip), port }), next + 6))
            },
            AddressType::IpV6 => {
                let ip: u128 = match get_u128(buf, next) {
                    Ok(v) => v,
                    Err(e) => {
                        return Err(e);
                    },
                };
                let port: u16 = match get_u16(buf, next + 16) {
                    Ok(v) => v,
                    Err(e) => {
                        return Err(e);
                    },
                };
                assert(rest.subrange(1, 17) =~= buf@.subrange(next as int, next + 16));
                assert(rest.subrange(17, 19) =~= buf@.subrange(next + 16, next + 18));
                Ok(
                    (
                        Address::SocketAddress(SocketAddress { ip: IpAddress::V6(ip), port }),
                        next + 18,
                    ),
                )
            },
            AddressType::Domain => {
                let len: u8 = match get_u8(buf, next) {
                    Ok(v) => v,
                    Err(e) => {
                        return Err(e);
                    },
                };
                if len == 0 {
                    return Err(CodecError::MalformedFrame);
                }
                let from: usize = next + 1;
                let n: usize = len as usize;
                if n > buf.len() - from {
                    return Err(CodecError::Truncated);
                }
                let raw: Vec<u8> = copy_range(buf, from, from + n);
                assert(rest.subrange(2, 2 + n) =~= raw@);
                let name: String = match string_from_utf8(raw) {
                    Some(s) => s,
                    None => {
                        return Err(CodecError::MalformedFrame);
                    },
                };
                let port: u16 = match get_u16(buf, from + n) {
                    Ok(v) => v,
                    Err(e) => {
                        return Err(e);
                    },
                };
                assert(rest.subrange(2 + n, 2 + n + 2) =~= buf@.subrange(from + n, from + n + 2));
                proof {
                    vstd::utf8::decode_utf8_encode_utf8(rest.subrange(2, 2 + n));
                }
                Ok((Address::DomainAddress(name, port), from + n + 2))
            },
        }
    }

    /// See [`spec_to_socket_address`].
    pub fn to_socket_address(
        &self,
        resolved: Option<SocketAddress>,
        local_ips: &[IpAddress],
    ) -> (r: Option<SocketAddress>)
        ensures
            r == spec_to_socket_address(self@, resolved, local_ips@),
    {
        match self {
            Address::SocketAddress(s) => Some(rewrite_local(*s, local_ips)),
            Address::DomainAddress(_, _) => match resolved {
                Some(s) => Some(rewrite_local(s, local_ips)),
                None => None,
            },
            Address::Absent => None,
        }
    }
}

/// An address that can be written reads back as itself, whatever follows
/// it, and the read uses exactly the bytes that were written.
#[verifier::rlimit(30)]
pub proof fn lemma_address_round_trip(a: AddressView, rest: Seq<u8>)
    requires
        a.wf(),
    ensures
        spec_read_address(spec_write_address(a) + rest) == Ok::<(AddressView, nat), CodecError>(
            (a, spec_write_address(a).len()),
        ),
{
    let w = spec_write_address(a);
    let bytes = w + rest;
    lemma_pow256_values();
    match a {
        AddressView::Socket(s) => {
            lemma_be_bytes_len(s.port as nat, 2);
            lemma_be_nat_of_bytes(s.port as nat, 2);
            match s.ip {
                IpAddress::V4(ip) => {
                    lemma_be_bytes_len(ip as nat, 4);
                    lemma_be_nat_of_bytes(ip as nat, 4);
                    assert(bytes.subrange(1, 5) =~= be_bytes(ip as nat, 4));
                    assert(bytes.subrange(5, 7) =~= be_bytes(s.port as nat, 2));
                    assert(bytes[0] == 0x01);
                },
                IpAddress::V6(ip) => {
                    lemma_be_bytes_len(ip as nat, 16);
                    lemma_be_nat_of_bytes(ip as nat, 16);
                    assert(bytes.subrange(1, 17) =~= be_bytes(ip as nat, 16));
                    assert(bytes.subrange(17, 19) =~= be_bytes(s.port as nat, 2));
                    assert(bytes[0] == 0x02);
                },
            }
        },
        AddressView::Domain(name, port) => {
            let enc = encode_utf8(name);
            let n = enc.len() as int;
            lemma_be_bytes_len(port as nat, 2);
            lemma_be_nat_of_bytes(port as nat, 2);
            encode_utf8_valid_utf8(name);
            encode_utf8_decode_utf8(name);
            assert(bytes[0] == 0x00);
            assert(bytes[1] == n as u8);
            assert(bytes.subrange(2, 2 + n) =~= enc);
            assert(bytes.subrange(2 + n, 2 + n + 2) =~= be_bytes(port as nat, 2));
        },
        AddressView::Absent => {
            assert(bytes[0] == 0xFF);
        },
    }
}

/// What was read can be written, and writing it gives back the bytes that
/// the read used.
pub proof fn lemma_address_read_is_canonical(bytes: Seq<u8>)
    requires
        spec_read_address(bytes) is Ok,
    ensures
        ({
            let (a, n) = spec_read_address(bytes)->Ok_0;
            a.wf() && n <= bytes.len() && spec_write_address(a) == bytes.subrange(0, n as int)
        }),
{
    let (a, n) = spec_read_address(bytes)->Ok_0;
    lemma_pow256_values();
    match a {
        AddressView::Socket(s) => {
            match s.ip {
                IpAddress::V4(ip) => {
                    lemma_be_nat_bound(bytes.subrange(1, 5));
                    lemma_be_nat_bound(bytes.subrange(5, 7));
                    crate::wire::lemma_be_bytes_of_nat(bytes.subrange(1, 5));
                    crate::wire::lemma_be_bytes_of_nat(bytes.subrange(5, 7));
                    assert(spec_write_address(a) =~= bytes.subrange(0, 7));
                },
                IpAddress::V6(ip) => {
                    lemma_be_nat_bound(bytes.subrange(1, 17));
                    lemma_be_nat_bound(bytes.subrange(17, 19));
                    crate::wire::lemma_be_bytes_of_nat(bytes.subrange(1, 17));
                    crate::wire::lemma_be_bytes_of_nat(bytes.subrange(17, 19));
                    assert(spec_write_address(a) =~= bytes.subrange(0, 19));
                },
            }
        },
        AddressView::Domain(name, port) => {
            let m = bytes[1] as int;
            let raw = bytes.subrange(2, 2 + m);
            vstd::utf8::decode_utf8_encode_utf8(raw);
            lemma_be_nat_bound(bytes.subrange(2 + m, 2 + m + 2));
            crate::wire::lemma_be_bytes_of_nat(bytes.subrange(2 + m, 2 + m + 2));
            assert(spec_write_address(a) =~= bytes.subrange(0, 2 + m + 2));
        },
        AddressView::Absent => {
            assert(spec_write_address(a) =~= bytes.subrange(0, 1));
        },
    }
}

} // verus!
