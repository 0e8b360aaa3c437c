//! The UDP session of one association of one connection: the address that
//! the first fragment named, and the packets that are being put together.

use super::reassembly::{ReassemblyBuffer, ReassemblyView};
use crate::protocol::tuic::address::{Address, AddressView};
use crate::protocol::tuic::command::packet::{Packet, PacketView, MAX_FRAGMENTS};
use std::collections::HashMap;
use vstd::prelude::*;

verus! {

broadcast use vstd::std_specs::hash::group_hash_axioms;

/// The packet that a session is putting together.
pub type FragmentedPacket = ReassemblyBuffer;

/// A [`UdpSession`] as a value of specifications.
pub struct SessionView {
    /// The buffers, by packet.
    pub packets: Map<u16, ReassemblyView>,
    /// The address that the last fragment with an address named.
    pub address: Option<AddressView>,
}

impl SessionView {
    /// The session of a new association.
    pub open spec fn empty() -> SessionView {
        SessionView { packets: Map::empty(), address: None }
    }

    /// The session after `packet` was accepted at `now`, and the packet
    /// that is complete, if this fragment completed one.
    ///
    /// A fragment whose packet names more than 128 fragments, or whose
    /// number is not below the count that it names, is refused. Any other
    /// is offered to the buffer of its packet, or to a new one where the
    /// packet has none. Where the buffer takes it, or has it already, an
    /// address on the packet is remembered and a new buffer is kept. A
    /// fragment that is refused leaves the session as it is.
    pub open spec fn accept(self, packet: PacketView, now: u64) -> (SessionView, Option<u16>) {
        let address = if packet.address is Absent {
            self.address
        } else {
            Some(packet.address)
        };
        if packet.frag_total > MAX_FRAGMENTS || packet.frag_id >= packet.frag_total {
            (self, None)
        } else {
            let (buffer, outcome) = (if self.packets.contains_key(packet.pkt_id) {
                self.packets[packet.pkt_id]
            } else {
                ReassemblyView::empty(packet.frag_total, now)
            }).insert(packet.frag_id, packet.payload, None, now);
            if outcome is Ok {
                (
                    SessionView { packets: self.packets.insert(packet.pkt_id, buffer), address },
                    if outcome->Ok_0 is Some {
                        Some(packet.pkt_id)
                    } else {
                        None
                    },
                )
            } else {
                (self, None)
            }
        }
    }

    /// The session after packet `pkt_id` was taken out, and its payload:
    /// what has arrived of it, in ascending order of fragment number;
    /// nothing for a packet that has no buffer or no fragment.
    pub open spec fn take(self, pkt_id: u16) -> (SessionView, Option<Seq<u8>>) {
        if self.packets.contains_key(pkt_id) {
            (
                SessionView { packets: self.packets.remove(pkt_id), address: self.address },
                if self.packets[pkt_id].frag_total == 0 {
                    None
                } else {
                    Some(self.packets[pkt_id].assembled())
                },
            )
        } else {
            (self, None)
        }
    }
}

/// The UDP session of one association.
#[derive(Debug)]
pub struct UdpSession {
    packets: HashMap<u16, ReassemblyBuffer>,
    address: Option<Address>,
}

/// The buffers of a session as values of specifications.
pub open spec fn buffer_views(packets: Map<u16, ReassemblyBuffer>) -> Map<u16, ReassemblyView> {
    Map::new(|k: u16| packets.contains_key(k), |k: u16| packets[k]@)
}

impl View for UdpSession {
    type V = SessionView;

    closed spec fn view(&self) -> SessionView {
        SessionView {
            packets: buffer_views(self.packets@),
            address: match self.address {
                Some(a) => Some(a@),
                None => None,
            },
        }
    }
}

impl UdpSession {
    /// What every session that this library hands out satisfies: each of
    /// its buffers is well formed.
    pub closed spec fn wf(&self) -> bool {
        forall|k: u16| #[trigger] self.packets@.contains_key(k) ==> self.packets@[k].wf()
    }

    /// The session of a new association.
    pub fn new() -> (s: Self)
        ensures
            s.wf(),
            s@ == SessionView::empty(),
    {
        let s = UdpSession { packets: HashMap::new(), address: None };
        assert(s@.packets =~= Map::<u16, ReassemblyView>::empty());
        s
    }

    /// The address that the session remembers.
    pub fn get_address(&self) -> (a: Option<Address>)
        ensures
            (match a {
                Some(x) => Some(x@),
                None => None,
            }) == self@.address,
    {
        match &self.address {
            Some(a) => Some(a.clone()),
            None => None,
        }
    }

    /// Remembers `addr`.
    pub fn set_address(&mut self, addr: Address)
        ensures
            final(self).wf() == old(self).wf(),
            final(self)@ == (SessionView { address: Some(addr@), ..old(self)@ }),
    {
        self.address = Some(addr);
    }

    /// How many packets the session is putting together.
    pub fn packet_count(&self) -> (n: usize)
        ensures
            n == self@.packets.len(),
    {
        assert(self@.packets.dom() =~= self.packets@.dom());
        self.packets.len()
    }

    /// Accepts one fragment of a packet of several; see
    /// [`SessionView::accept`].
    pub fn accept(&mut self, packet: Packet, now: u64) -> (done: Option<u16>)
        requires
            old(self).wf(),
        ensures
            final(self).wf(),
            (final(self)@, done) == old(self)@.accept(packet@, now),
    {
        let ghost before = self@;
        let ghost raw = self.packets@;
        let ghost want = before.accept(packet@, now).0;
        let pkt_id: u16 = packet.pkt_id;
        let frag_id: u8 = packet.frag_id;
        let frag_total: u8 = packet.frag_total;
        let Packet { address, payload, .. } = packet;
        if frag_total as usize > MAX_FRAGMENTS || frag_id >= frag_total {
            return None;
        }
        let existed: bool = self.packets.contains_key(&pkt_id);
        let mut buffer: ReassemblyBuffer = match self.packets.remove(&pkt_id) {
            Some(buffer) => buffer,
            None => {
                assert(self.packets@ =~= raw);
                ReassemblyBuffer::new(frag_total, now)
            },
        };
        let r = buffer.insert(frag_id, payload, None, now);
        match &r {
            Ok(found) => {
                let done: Option<u16> = match found {
                    Some(_) => Some(pkt_id),
                    None => None,
                };
                self.packets.insert(pkt_id, buffer);
                match address {
                    Address::Absent => {},
                    other => {
                        self.address = Some(other);
                    },
                }
                assert(self@.packets =~= want.packets);
                done
            },
            Err(_) => {
                if existed {
                    self.packets.insert(pkt_id, buffer);
                }
                assert(self@.packets =~= want.packets);
                None
            },
        }
    }

    /// Takes packet `pkt_id` out of the session; see [`SessionView::take`].
    pub fn take_fragmented_packet(&mut self, pkt_id: u16) -> (payload: Option<Vec<u8>>)
        requires
            old(self).wf(),
        ensures
            final(self).wf(),
            (
                final(self)@,
                match payload {
                    Some(p) => Some(p@),
                    None => None,
                },
            ) == old(self)@.take(pkt_id),
    {
        let ghost before = self@;
        let ghost raw = self.packets@;
        match self.packets.remove(&pkt_id) {
            Some(buffer) => {
                assert(self@.packets =~= before.packets.remove(pkt_id));
                if buffer.frag_total() == 0 {
                    None
                } else {
                    Some(buffer.payload())
                }
            },
            None => {
                assert(self.packets@ =~= raw);
                assert(self@.packets =~= before.packets);
                None
            },
        }
    }
}

} // verus!
