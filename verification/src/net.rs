//! Socket addresses as plain values, and the rule that keeps the proxy from
//! being pointed at the host it runs on.

use vstd::prelude::*;

verus! {

/// An IP address: the 32 bits of an IPv4 address or the 128 bits of an IPv6
/// address, first octet in the highest byte.
#[derive(Clone, Copy, Debug, PartialEq, Eq, Hash, Structural)]
pub enum IpAddress {
    V4(u32),
    V6(u128),
}

/// An IP address and a port.
#[derive(Clone, Copy, Debug, PartialEq, Eq, Hash, Structural)]
pub struct SocketAddress {
    pub ip: IpAddress,
    pub port: u16,
}

/// `127.0.0.1`.
pub const IPV4_LOOPBACK: u32 = 0x7f00_0001;

/// `::1`.
pub const IPV6_LOOPBACK: u128 = 1;

/// What the low 96 bits of `::ffff:0:0` hold above an embedded IPv4 address.
pub const IPV4_MAPPED_PREFIX: u128 = 0xffff;

/// Whether `ip` is a loopback address: `127.0.0.0/8` or `::1`.
pub open spec fn spec_is_loopback(ip: IpAddress) -> bool {
    match ip {
        IpAddress::V4(v) => v / 0x100_0000 == 127,
        IpAddress::V6(v) => v == IPV6_LOOPBACK,
    }
}

/// The IPv4 address embedded in an IPv4-compatible (`::a.b.c.d`) or
/// IPv4-mapped (`::ffff:a.b.c.d`) IPv6 address.
pub open spec fn spec_embedded_ipv4(v: u128) -> Option<u32> {
    if v / 0x1_0000_0000 == 0 || v / 0x1_0000_0000 == IPV4_MAPPED_PREFIX {
        Some((v % 0x1_0000_0000) as u32)
    } else {
        None
    }
}

/// Whether `ip` is one of the host's own addresses, given the addresses of
/// its interfaces: a loopback address, an interface address, or an IPv6
/// form of an IPv4 interface address.
pub open spec fn spec_is_local(ip: IpAddress, local_ips: Seq<IpAddress>) -> bool {
    ||| spec_is_loopback(ip)
    ||| local_ips.contains(ip)
    ||| (ip matches IpAddress::V6(v) && spec_embedded_ipv4(v) matches Some(v4)
        && local_ips.contains(IpAddress::V4(v4)))
}

/// The loopback address of the family of `addr`, with its port.
pub open spec fn spec_to_loopback(addr: SocketAddress) -> SocketAddress {
    match addr.ip {
        IpAddress::V4(_) => SocketAddress { ip: IpAddress::V4(IPV4_LOOPBACK), port: addr.port },
        IpAddress::V6(_) => SocketAddress { ip: IpAddress::V6(IPV6_LOOPBACK), port: addr.port },
    }
}

/// A resolved address after the local-address filter: a host-local address
/// becomes the loopback address of its family, every other stays.
pub open spec fn spec_rewrite_local(addr: SocketAddress, local_ips: Seq<IpAddress>)
    -> SocketAddress {
    if spec_is_local(addr.ip, local_ips) {
        spec_to_loopback(addr)
    } else {
        addr
    }
}

/// The IPv4-mapped IPv6 form of an address: `::ffff:a.b.c.d` for an IPv4
/// address, the address itself for an IPv6 one.
pub open spec fn spec_to_ipv6_mapped(addr: SocketAddress) -> SocketAddress {
    match addr.ip {
        IpAddress::V4(v) => SocketAddress {
            ip: IpAddress::V6((IPV4_MAPPED_PREFIX * 0x1_0000_0000 + v) as u128),
            port: addr.port,
        },
        IpAddress::V6(_) => addr,
    }
}

/// The wildcard address with port 0 of the family of `target`: where an
/// ephemeral socket that will send to `target` is bound.
pub open spec fn spec_ephemeral_bind(target: SocketAddress) -> SocketAddress {
    match target.ip {
        IpAddress::V4(_) => SocketAddress { ip: IpAddress::V4(0), port: 0 },
        IpAddress::V6(_) => SocketAddress { ip: IpAddress::V6(0), port: 0 },
    }
}

impl IpAddress {
    /// Whether this is an IPv4 address.
    pub fn is_ipv4(&self) -> (r: bool)
        ensures
            r == (*self is V4),
    {
        match self {
            IpAddress::V4(_) => true,
            IpAddress::V6(_) => false,
        }
    }

    /// See [`spec_is_loopback`].
    pub fn is_loopback(&self) -> (r: bool)
        ensures
            r == spec_is_loopback(*self),
    {
        match self {
            IpAddress::V4(v) => *v / 0x100_0000 == 127,
            IpAddress::V6(v) => *v == IPV6_LOOPBACK,
        }
    }
}

/// See [`spec_embedded_ipv4`].
pub fn embedded_ipv4(v: u128) -> (r: Option<u32>)
    ensures
        r == spec_embedded_ipv4(v),
{
    let high: u128 = v / 0x1_0000_0000;
    if high == 0 || high == IPV4_MAPPED_PREFIX {
        Some((v % 0x1_0000_0000) as u32)
    } else {
        None
    }
}

/// Whether `ip` occurs in `ips`.
pub fn contains_ip(ips: &[IpAddress], ip: IpAddress) -> (r: bool)
    ensures
        r == ips@.contains(ip),
{
    let mut i: usize = 0;
    while i < ips.len()
        invariant
            i <= ips@.len(),
            forall|j: int| 0 <= j < i ==> ips@[j] != ip,
        decreases ips@.len() - i,
    {
        if ips[i] == ip {
            return true;
        }
        i = i + 1;
    }
    false
}

/// See [`spec_is_local`].
pub fn is_local_addr(addr: &SocketAddress, local_ips: &[IpAddress]) -> (r: bool)
    ensures
        r == spec_is_local(addr.ip, local_ips@),
{
    let ip: IpAddress = addr.ip;
    if ip.is_loopback() {
        return true;
    }
    if contains_ip(local_ips, ip) {
        return true;
    }
    match ip {
        IpAddress::V4(_) => false,
        IpAddress::V6(v) => match embedded_ipv4(v) {
            Some(v4) => contains_ip(local_ips, IpAddress::V4(v4)),
            None => false,
        },
    }
}

impl SocketAddress {
    /// The address of `port` at `ip`.
    pub fn new(ip: IpAddress, port: u16) -> (r: Self)
        ensures
            r == (SocketAddress { ip, port }),
    {
        SocketAddress { ip, port }
    }

    /// The port.
    pub fn port(&self) -> (r: u16)
        ensures
            r == self.port,
    {
        self.port
    }

    /// Whether the IP address is an IPv4 address.
    pub fn is_ipv4(&self) -> (r: bool)
        ensures
            r == (self.ip is V4),
    {
        self.ip.is_ipv4()
    }

    /// See [`spec_to_loopback`].
    pub fn to_loopback(&self) -> (r: SocketAddress)
        ensures
            r == spec_to_loopback(*self),
    {
        match self.ip {
            IpAddress::V4(_) => SocketAddress { ip: IpAddress::V4(IPV4_LOOPBACK), port: self.port },
            IpAddress::V6(_) => SocketAddress { ip: IpAddress::V6(IPV6_LOOPBACK), port: self.port },
        }
    }

    /// See [`spec_to_ipv6_mapped`].
    pub fn to_ipv6_mapped(&self) -> (r: SocketAddress)
        ensures
            r == spec_to_ipv6_mapped(*self),
            r.ip is V6,
    {
        match self.ip {
            IpAddress::V4(v) => SocketAddress {
                ip: IpAddress::V6(IPV4_MAPPED_PREFIX * 0x1_0000_0000 + v as u128),
                port: self.port,
            },
            IpAddress::V6(_) => *self,
        }
    }

    /// See [`spec_ephemeral_bind`].
    pub fn ephemeral_bind(&self) -> (r: SocketAddress)
        ensures
            r == spec_ephemeral_bind(*self),
    {
        match self.ip {
            IpAddress::V4(_) => SocketAddress { ip: IpAddress::V4(0), port: 0 },
            IpAddress::V6(_) => SocketAddress { ip: IpAddress::V6(0), port: 0 },
        }
    }
}

/// See [`spec_rewrite_local`].
pub fn rewrite_local(addr: SocketAddress, local_ips: &[IpAddress]) -> (r: SocketAddress)
    ensures
        r == spec_rewrite_local(addr, local_ips@),
{
    if is_local_addr(&addr, local_ips) {
        addr.to_loopback()
    } else {
        addr
    }
}

/// The filter keeps the port and the family, and what it yields for a local
/// address is a loopback address: applied twice it changes nothing more.
pub proof fn lemma_rewrite_local_properties(addr: SocketAddress, local_ips: Seq<IpAddress>)
    ensures
        spec_rewrite_local(addr, local_ips).port == addr.port,
        (spec_rewrite_local(addr, local_ips).ip is V4) == (addr.ip is V4),
        spec_is_local(addr.ip, local_ips) ==> spec_is_loopback(
            spec_rewrite_local(addr, local_ips).ip,
        ),
        spec_rewrite_local(spec_rewrite_local(addr, local_ips), local_ips) == spec_rewrite_local(
            addr,
            local_ips,
        ),
{
    if spec_is_local(addr.ip, local_ips) {
        assert(IPV4_LOOPBACK / 0x100_0000 == 127);
        let once = spec_rewrite_local(addr, local_ips);
        assert(spec_is_loopback(once.ip));
    } else {
    }
}

} // verus!
