//! Packet: one fragment of a UDP payload, and how a payload is cut into
//! fragments.

use super::command_type::CommandType;
use crate::protocol::tuic::address::{
    lemma_address_round_trip, spec_read_address, spec_write_address, Address, AddressView,
};
use crate::protocol::tuic::header::{spec_write_header, Header};
use crate::wire::{
    be_bytes, be_nat, copy_range, get_u16, get_u8, lemma_be_bytes_len, lemma_be_nat_of_bytes,
    lemma_pow256_values, put_slice, put_u16, put_u8, read_matches_view, tail, CodecError,
};
use vstd::prelude::*;

verus! {

/// The most payload bytes one fragment carries.
pub const MAX_PAYLOAD_PER_PACKET: usize = 1200;

/// The most fragments one payload is cut into.
pub const MAX_FRAGMENTS: usize = 128;

/// The longest payload that can be cut into fragments.
pub const MAX_PAYLOAD: usize = 153_600;

/// A Packet command: fragment `frag_id` of the `frag_total` fragments of
/// packet `pkt_id` in association `assoc_id`.
#[derive(Debug, PartialEq, Eq)]
pub struct Packet {
    pub header: Header,
    pub assoc_id: u16,
    pub pkt_id: u16,
    pub frag_total: u8,
    pub frag_id: u8,
    pub size: u16,
    pub address: Address,
    pub payload: Vec<u8>,
}

/// A [`Packet`] as a value of specifications.
pub struct PacketView {
    pub header: Header,
    pub assoc_id: u16,
    pub pkt_id: u16,
    pub frag_total: u8,
    pub frag_id: u8,
    pub size: u16,
    pub address: AddressView,
    pub payload: Seq<u8>,
}

impl View for Packet {
    type V = PacketView;

    open spec fn view(&self) -> PacketView {
        PacketView {
            header: self.header,
            assoc_id: self.assoc_id,
            pkt_id: self.pkt_id,
            frag_total: self.frag_total,
            frag_id: self.frag_id,
            size: self.size,
            address: self.address@,
            payload: self.payload@,
        }
    }
}

impl PacketView {
    /// Whether the packet can be written: `size` is the length of the
    /// payload and the address can be written.
    pub open spec fn wf(self) -> bool {
        &&& self.size == self.payload.len()
        &&& self.address.wf()
    }
}

/// The eight bytes between header and address: association, packet,
/// fragment count, fragment number, payload size.
pub open spec fn spec_write_packet_fields(p: PacketView) -> Seq<u8> {
    be_bytes(p.assoc_id as nat, 2) + be_bytes(p.pkt_id as nat, 2) + seq![p.frag_total, p.frag_id]
        + be_bytes(p.size as nat, 2)
}

/// The bytes of `p` behind its header.
pub open spec fn spec_write_packet_body(p: PacketView) -> Seq<u8> {
    spec_write_packet_fields(p) + spec_write_address(p.address) + p.payload
}

/// The bytes of `p`, header included.
pub open spec fn spec_write_packet(p: PacketView) -> Seq<u8> {
    spec_write_header(p.header) + spec_write_packet_body(p)
}

/// What reading the body of a Packet from `bytes` gives: the fixed fields,
/// then the address, then exactly `size` bytes of payload.
pub open spec fn spec_read_packet(header: Header, bytes: Seq<u8>) -> Result<
    (PacketView, nat),
    CodecError,
> {
    if bytes.len() < 8 {
        Err(CodecError::Truncated)
    } else {
        match spec_read_address(tail(bytes, 8)) {
            Err(e) => Err(e),
            Ok((address, n)) => {
                let size = be_nat(bytes.subrange(6, 8)) as u16;
                if bytes.len() < 8 + n + size {
                    Err(CodecError::Truncated)
                } else {
                    Ok(
                        (
                            PacketView {
                                header,
                                assoc_id: be_nat(bytes.subrange(0, 2)) as u16,
                                pkt_id: be_nat(bytes.subrange(2, 4)) as u16,
                                frag_total: bytes[4],
                                frag_id: bytes[5],
                                size,
                                address,
                                payload: bytes.subrange(8 + n as int, 8 + n + size),
                            },
                            (8 + n + size) as nat,
                        ),
                    )
                }
            },
        }
    }
}

/// How many fragments a payload of `len` bytes is cut into.
pub open spec fn spec_frag_count(len: nat) -> nat {
    (len + 1199) / 1200
}

/// Where fragment `i` of a payload of `len` bytes ends.
pub open spec fn spec_frag_end(len: nat, i: int) -> int {
    if (i + 1) * 1200 <= len {
        (i + 1) * 1200
    } else {
        len as int
    }
}

/// Fragment `i` of `payload`: bytes `1200 * i` up to the next multiple of
/// 1200 or the end. Only fragment 0 carries `address`.
pub open spec fn spec_fragment(
    payload: Seq<u8>,
    assoc_id: u16,
    pkt_id: u16,
    address: AddressView,
    i: int,
) -> PacketView {
    let chunk = payload.subrange(i * 1200, spec_frag_end(payload.len(), i));
    PacketView {
        header: Header::spec_new(CommandType::Packet),
        assoc_id,
        pkt_id,
        frag_total: spec_frag_count(payload.len()) as u8,
        frag_id: i as u8,
        size: chunk.len() as u16,
        address: if i == 0 {
            address
        } else {
            AddressView::Absent
        },
        payload: chunk,
    }
}

/// The fragments of `payload`, in ascending order of `frag_id`.
pub open spec fn spec_fragments(
    payload: Seq<u8>,
    assoc_id: u16,
    pkt_id: u16,
    address: AddressView,
) -> Seq<PacketView> {
    Seq::new(
        spec_frag_count(payload.len()),
        |i: int| spec_fragment(payload, assoc_id, pkt_id, address, i),
    )
}

/// The payloads of `frags` one after the other.
pub open spec fn spec_assemble(frags: Seq<PacketView>) -> Seq<u8>
    decreases frags.len(),
{
    if frags.len() == 0 {
        Seq::empty()
    } else {
        spec_assemble(frags.drop_last()) + frags.last().payload
    }
}

/// The views of `packets`.
pub open spec fn spec_packet_views(packets: Seq<Packet>) -> Seq<PacketView> {
    Seq::new(packets.len(), |i: int| packets[i]@)
}

impl Packet {
    /// Whether the packet can be written; see [`PacketView::wf`].
    pub fn is_valid(&self) -> (r: bool)
        ensures
            r == self@.wf(),
    {
        self.payload.len() == self.size as usize && self.address.is_valid()
    }

    /// Whether the packet is the only fragment of its payload.
    pub fn only_one_frag(&self) -> (r: bool)
        ensures
            r == (self.frag_total == 1),
    {
        self.frag_total == 1
    }

    /// Cuts `full_payload` into fragments of at most 1200 bytes, in
    /// ascending order of `frag_id`. An empty payload gives no fragment.
    pub fn get_packets_from(
        full_payload: &[u8],
        assoc_id: u16,
        pkt_id: u16,
        address: Address,
    ) -> (packets: Vec<Packet>)
        requires
            full_payload@.len() <= MAX_PAYLOAD,
        ensures
            spec_packet_views(packets@) == spec_fragments(
                full_payload@,
                assoc_id,
                pkt_id,
                address@,
            ),
    {
        let mut packets: Vec<Packet> = Vec::new();
        let total_len: usize = full_payload.len();
        let count: usize = (total_len + MAX_PAYLOAD_PER_PACKET - 1) / MAX_PAYLOAD_PER_PACKET;
        let frag_total: u8 = count as u8;
        let ghost want = spec_fragments(full_payload@, assoc_id, pkt_id, address@);
        if count == 0 {
            assert(spec_packet_views(packets@) =~= want);
            return packets;
        }
        let first_end: usize = if MAX_PAYLOAD_PER_PACKET <= total_len {
            MAX_PAYLOAD_PER_PACKET
        } else {
            total_len
        };
        let first: Vec<u8> = copy_range(full_payload, 0, first_end);
        packets.push(
            Packet {
                header: Header::new(CommandType::Packet),
                assoc_id,
                pkt_id,
                frag_total,
                frag_id: 0,
                size: first.len() as u16,
                address,
                payload: first,
            },
        );
        let mut i: usize = 1;
        while i < count
            invariant
                1 <= i <= count <= MAX_FRAGMENTS,
                count == spec_frag_count(full_payload@.len()),
                frag_total == count,
                total_len == full_payload@.len(),
                want == spec_fragments(full_payload@, assoc_id, pkt_id, address@),
                packets@.len() == i,
                forall|j: int| 0 <= j < i ==> (#[trigger] packets@[j])@ == want[j],
            decreases count - i,
        {
            let start: usize = i * MAX_PAYLOAD_PER_PACKET;
            let end: usize = if start + MAX_PAYLOAD_PER_PACKET <= total_len {
                start + MAX_PAYLOAD_PER_PACKET
            } else {
                total_len
            };
            let chunk: Vec<u8> = copy_range(full_payload, start, end);
            packets.push(
                Packet {
                    header: Header::new(CommandType::Packet),
                    assoc_id,
                    pkt_id,
                    frag_total,
                    frag_id: i as u8,
                    size: chunk.len() as u16,
                    address: Address::Absent,
                    payload: chunk,
                },
            );
            i = i + 1;
        }
        assert(spec_packet_views(packets@) =~= want);
        packets
    }

    /// Cuts `full_payload` into fragments as [`Packet::get_packets_from`]
    /// does, where it is short enough for 128 fragments; a longer payload
    /// cannot be sent and gives `None`.
    pub fn fragment(full_payload: &[u8], assoc_id: u16, pkt_id: u16, address: Address) -> (r:
        Option<Vec<Packet>>)
        ensures
            match r {
                Some(packets) => full_payload@.len() <= MAX_PAYLOAD && spec_packet_views(packets@)
                    == spec_fragments(full_payload@, assoc_id, pkt_id, address@),
                None => full_payload@.len() > MAX_PAYLOAD,
            },
    {
        if full_payload.len() > MAX_PAYLOAD {
            None
        } else {
            Some(Packet::get_packets_from(full_payload, assoc_id, pkt_id, address))
        }
    }

    /// The number of bytes that [`Packet::write_to_buf`] appends.
    pub fn estimate_size(&self) -> (n: usize)
        requires
            self@.wf(),
        ensures
            n == spec_write_packet(self@).len(),
    {
        proof {
            lemma_packet_len(self@);
            lemma_address_len(self@.address);
        }
        let address_len: usize = match &self.address {
            Address::SocketAddress(s) => if s.is_ipv4() {
                7
            } else {
                19
            },
            Address::DomainAddress(name, _) => 4 + name.as_str().as_bytes().len(),
            Address::Absent => 1,
        };
        10 + address_len + self.payload.len()
    }

    /// Appends the packet, header included.
    pub fn write_to_buf(&self, buf: &mut Vec<u8>)
        requires
            self@.wf(),
        ensures
            final(buf)@ == old(buf)@ + spec_write_packet(self@),
    {
        self.header.write_to(buf);
        put_u16(buf, self.assoc_id);
        put_u16(buf, self.pkt_id);
        put_u8(buf, self.frag_total);
        put_u8(buf, self.frag_id);
        put_u16(buf, self.size);
        self.address.write_to_buf(buf);
        put_slice(buf, self.payload.as_slice());
        assert(buf@ =~= old(buf)@ + spec_write_packet(self@));
    }

    /// Reads the body at `pos`, behind a header already read; on success
    /// also gives the position behind it.
    pub fn read_from(header: Header, buf: &[u8], pos: usize) -> (r: Result<
        (Packet, usize),
        CodecError,
    >)
        ensures
            read_matches_view(r, spec_read_packet(header, tail(buf@, pos as int)), pos, buf@.len()),
            r matches Ok((p, _)) ==> p@.wf(),
    {
        let ghost rest = tail(buf@, pos as int);
        let assoc_id: u16 = match get_u16(buf, pos) {
            Ok(v) => v,
            Err(e) => {
                return Err(e);
            },
        };
        let pkt_id: u16 = match get_u16(buf, pos + 2) {
            Ok(v) => v,
            Err(e) => {
                return Err(e);
            },
        };
        let frag_total: u8 = match get_u8(buf, pos + 4) {
            Ok(v) => v,
            Err(e) => {
                return Err(e);
            },
        };
        let frag_id: u8 = match get_u8(buf, pos + 5) {
            Ok(v) => v,
            Err(e) => {
                return Err(e);
            },
        };
        let size: u16 = match get_u16(buf, pos + 6) {
            Ok(v) => v,
            Err(e) => {
                return Err(e);
            },
        };
        proof {
            assert(rest.subrange(0, 2) =~= buf@.subrange(pos as int, pos + 2));
            assert(rest.subrange(2, 4) =~= buf@.subrange(pos + 2, pos + 4));
            assert(rest.subrange(6, 8) =~= buf@.subrange(pos + 6, pos + 8));
            assert(tail(rest, 8) =~= tail(buf@, pos + 8));
        }
        let (address, next) = match Address::read_from(buf, pos + 8) {
            Ok(p) => p,
            Err(e) => {
                return Err(e);
            },
        };
        let n: usize = size as usize;
        if buf.len() - next < n {
            return Err(CodecError::Truncated);
        }
        let payload: Vec<u8> = copy_range(buf, next, next + n);
        assert(rest.subrange(next - pos, next - pos + n) =~= payload@);
        Ok(
            (
                Packet { header, assoc_id, pkt_id, frag_total, frag_id, size, address, payload },
                next + n,
            ),
        )
    }
}

/// The length of a written address.
pub proof fn lemma_address_len(a: AddressView)
    ensures
        spec_write_address(a).len() == (match a {
            AddressView::Socket(s) => if s.ip is V4 {
                7
            } else {
                19
            },
            AddressView::Domain(name, _) => 4 + vstd::utf8::encode_utf8(name).len(),
            AddressView::Absent => 1nat,
        }),
{
    match a {
        AddressView::Socket(s) => {
            lemma_be_bytes_len(s.port as nat, 2);
            match s.ip {
                crate::net::IpAddress::V4(ip) => lemma_be_bytes_len(ip as nat, 4),
                crate::net::IpAddress::V6(ip) => lemma_be_bytes_len(ip as nat, 16),
            }
        },
        AddressView::Domain(_, port) => {
            lemma_be_bytes_len(port as nat, 2);
        },
        AddressView::Absent => {},
    }
}

/// The length of a written packet: ten bytes, the address, the payload.
pub proof fn lemma_packet_len(p: PacketView)
    ensures
        spec_write_packet_fields(p).len() == 8,
        spec_write_packet(p).len() == 10 + spec_write_address(p.address).len() + p.payload.len(),
{
    lemma_be_bytes_len(p.assoc_id as nat, 2);
    lemma_be_bytes_len(p.pkt_id as nat, 2);
    lemma_be_bytes_len(p.size as nat, 2);
    lemma_address_len(p.address);
}

/// The body of a packet that can be written reads back as it was written,
/// whatever follows it: header fields, address and payload are the same.
#[verifier::rlimit(30)]
pub proof fn lemma_packet_round_trip(p: PacketView, rest: Seq<u8>)
    requires
        p.wf(),
    ensures
        spec_read_packet(p.header, spec_write_packet_body(p) + rest) == Ok::<
            (PacketView, nat),
            CodecError,
        >((p, spec_write_packet_body(p).len())),
{
    let fields = spec_write_packet_fields(p);
    let addr = spec_write_address(p.address);
    let bytes = spec_write_packet_body(p) + rest;
    lemma_pow256_values();
    lemma_packet_len(p);
    lemma_be_bytes_len(p.assoc_id as nat, 2);
    lemma_be_bytes_len(p.pkt_id as nat, 2);
    lemma_be_bytes_len(p.size as nat, 2);
    lemma_be_nat_of_bytes(p.assoc_id as nat, 2);
    lemma_be_nat_of_bytes(p.pkt_id as nat, 2);
    lemma_be_nat_of_bytes(p.size as nat, 2);
    assert(bytes.subrange(0, 2) =~= be_bytes(p.assoc_id as nat, 2));
    assert(bytes.subrange(2, 4) =~= be_bytes(p.pkt_id as nat, 2));
    assert(bytes.subrange(6, 8) =~= be_bytes(p.size as nat, 2));
    assert(bytes[4] == p.frag_total);
    assert(bytes[5] == p.frag_id);
    assert(tail(bytes, 8) =~= addr + (p.payload + rest));
    lemma_address_round_trip(p.address, p.payload + rest);
    let n = addr.len();
    assert(bytes.subrange(8 + n as int, 8 + n + p.size) =~= p.payload);
}

/// Cutting a payload of at most 153600 bytes gives `ceil(len / 1200)`
/// fragments, at most 128. Each names that count as its `frag_total` and
/// its own place as its `frag_id`, and carries at most 1200 bytes; put one
/// after the other, the fragments give the payload back.
pub proof fn lemma_fragments_assemble(
    payload: Seq<u8>,
    assoc_id: u16,
    pkt_id: u16,
    address: AddressView,
)
    requires
        payload.len() <= MAX_PAYLOAD,
    ensures
        spec_assemble(spec_fragments(payload, assoc_id, pkt_id, address)) == payload,
        spec_fragments(payload, assoc_id, pkt_id, address).len() == spec_frag_count(payload.len()),
        spec_frag_count(payload.len()) <= MAX_FRAGMENTS,
        spec_frag_count(payload.len()) * 1200 >= payload.len(),
        payload.len() > 0 ==> (spec_frag_count(payload.len()) - 1) * 1200 < payload.len(),
        forall|i: int|
            0 <= i < spec_frag_count(payload.len()) ==> {
                let f = #[trigger] spec_fragments(payload, assoc_id, pkt_id, address)[i];
                &&& f.frag_total == spec_frag_count(payload.len())
                &&& f.frag_id == i
                &&& f.frag_id < f.frag_total
                &&& f.assoc_id == assoc_id
                &&& f.pkt_id == pkt_id
                &&& f.size == f.payload.len()
                &&& f.payload.len() <= MAX_PAYLOAD_PER_PACKET
                &&& (i == 0 ==> f.address == address)
                &&& (i > 0 ==> f.address is Absent)
                &&& (address.wf() ==> f.wf())
            },
{
    let frags = spec_fragments(payload, assoc_id, pkt_id, address);
    lemma_assemble_prefix(payload, assoc_id, pkt_id, address, frags.len());
    assert(frags.take(frags.len() as int) =~= frags);
    assert(payload.subrange(0, payload.len() as int) =~= payload);
}

/// The first `k` fragments give the first bytes of the payload.
proof fn lemma_assemble_prefix(
    payload: Seq<u8>,
    assoc_id: u16,
    pkt_id: u16,
    address: AddressView,
    k: nat,
)
    requires
        payload.len() <= MAX_PAYLOAD,
        k <= spec_frag_count(payload.len()),
    ensures
        spec_assemble(spec_fragments(payload, assoc_id, pkt_id, address).take(k as int))
            == payload.subrange(
            0,
            if k == 0 {
                0
            } else {
                spec_frag_end(payload.len(), k - 1)
            },
        ),
    decreases k,
{
    let frags = spec_fragments(payload, assoc_id, pkt_id, address);
    let head = frags.take(k as int);
    if k == 0 {
        assert(spec_assemble(head) =~= payload.subrange(0, 0));
    } else {
        lemma_assemble_prefix(payload, assoc_id, pkt_id, address, (k - 1) as nat);
        assert(head.drop_last() =~= frags.take(k - 1));
        assert(head.last() == frags[k - 1]);
        assert(spec_assemble(head) =~= payload.subrange(0, spec_frag_end(payload.len(), k - 1)));
    }
}

} // verus!
