//! Packet: forward a UDP payload once it is whole, and frame the answer.

use crate::net::SocketAddress;
use crate::processor::tuic::command::{spec_udp_kind, Action, ActionView, ErrorKind};
use crate::processor::tuic::context::{ContextView, RuntimeContext};
use crate::processor::tuic::reassembly::{
    copy_bytes, InsertOutcome, UdpError, UdpFragment, UdpFragmentView,
};
use crate::processor::tuic::session::SessionView;
use crate::processor::tuic::udp_session_manager::{spec_received, StoreView, UdpSessionManager};
use crate::protocol::tuic::address::{Address, AddressView};
use crate::protocol::tuic::command::packet::{
    lemma_fragments_assemble, spec_fragments, spec_packet_views, spec_write_packet, Packet,
    PacketView, MAX_PAYLOAD,
};
use vstd::prelude::*;

verus! {

/// Handles Packet commands.
#[derive(Debug, Clone, Copy, PartialEq, Eq, Structural)]
pub struct PacketProcessor {}

/// The fragment that `packet` carries.
pub open spec fn spec_fragment_of(packet: PacketView) -> UdpFragmentView {
    UdpFragmentView {
        assoc_id: packet.assoc_id,
        pkt_id: packet.pkt_id,
        frag_id: packet.frag_id,
        frag_total: packet.frag_total,
        payload: packet.payload,
    }
}

/// The address that a payload of the association goes to: the one that the
/// session remembers, or none.
pub open spec fn spec_remembered(session: SessionView) -> AddressView {
    match session.address {
        Some(a) => a,
        None => AddressView::Absent,
    }
}

/// The context after a fragment of `packet`, one of several, got the
/// answer `outcome` from the reassembly store: a fragment that was refused
/// leaves it as it is; any other makes sure that the association has a
/// session, which remembers the address of the packet if it has one.
pub open spec fn spec_context_after(
    context: ContextView,
    packet: PacketView,
    outcome: InsertOutcome,
) -> ContextView {
    let session = context.session(packet.assoc_id);
    if outcome is Err {
        context
    } else {
        context.with_session(
            packet.assoc_id,
            if packet.address is Absent {
                session
            } else {
                SessionView { address: Some(packet.address), ..session }
            },
        )
    }
}

/// What is left to do for a fragment of `packet` to which the reassembly
/// store answered `outcome`: forward the payload once it is whole, to the
/// address that the session remembers; nothing while fragments are
/// missing; drop a fragment that was refused.
pub open spec fn spec_action_for(
    packet: PacketView,
    remembered: AddressView,
    outcome: InsertOutcome,
) -> ActionView {
    match outcome {
        Ok(Some(payload)) => ActionView::Forward {
            assoc_id: packet.assoc_id,
            pkt_id: packet.pkt_id,
            address: remembered,
            payload,
        },
        Ok(None) => ActionView::Done,
        Err(e) => ActionView::Reject(spec_udp_kind(e)),
    }
}

/// What the reassembly store answered, read off what is left to do.
pub open spec fn spec_outcome_of(action: ActionView) -> InsertOutcome {
    match action {
        ActionView::Forward { payload, .. } => Ok(Some(payload)),
        ActionView::Reject(ErrorKind::SessionTooLarge) => Err(UdpError::SessionTooLarge),
        ActionView::Reject(_) => Err(UdpError::InvalidFragmentId),
        _ => Ok(None),
    }
}

/// Whether `after`, `store_after` and `action` are what handling `packet`,
/// which came from `client` at time `now`, makes of `before` and
/// `store_before`.
///
/// Unless authentication has succeeded the packet is refused and nothing
/// changes. A packet that is the only fragment of its payload is forwarded
/// as it is, to its own address; its association gets a session and the
/// reassembly store is not touched. Any other is handed to the reassembly
/// store; see [`spec_received`], [`spec_context_after`] and
/// [`spec_action_for`].
pub open spec fn spec_packet_processed(
    before: ContextView,
    after: ContextView,
    store_before: StoreView,
    store_after: StoreView,
    client: SocketAddress,
    packet: PacketView,
    now: u64,
    action: ActionView,
) -> bool {
    if before.gate != Some(true) {
        &&& action == ActionView::Reject(ErrorKind::Unauthenticated)
        &&& after == before
        &&& store_after == store_before
    } else if packet.frag_total == 1 {
        &&& after == before.with_session(packet.assoc_id, before.session(packet.assoc_id))
        &&& store_after == store_before
        &&& action == (ActionView::Forward {
            assoc_id: packet.assoc_id,
            pkt_id: packet.pkt_id,
            address: packet.address,
            payload: packet.payload,
        })
    } else {
        &&& spec_received(
            store_before,
            store_after,
            client,
            spec_fragment_of(packet),
            now,
            spec_outcome_of(action),
        )
        &&& after == spec_context_after(before, packet, spec_outcome_of(action))
        &&& action == spec_action_for(
            packet,
            spec_remembered(after.session(packet.assoc_id)),
            spec_outcome_of(action),
        )
    }
}

/// The frames that answer packet `pkt_id` of association `assoc_id` with
/// `response`: the fragments of `response` in ascending order of
/// `frag_id`, each written out.
pub open spec fn spec_reply_frames(
    response: Seq<u8>,
    assoc_id: u16,
    pkt_id: u16,
    address: AddressView,
) -> Seq<Seq<u8>> {
    let fragments = spec_fragments(response, assoc_id, pkt_id, address);
    Seq::new(fragments.len(), |i: int| spec_write_packet(fragments[i]))
}

impl PacketProcessor {
    /// The processor. It keeps no state.
    pub fn new() -> (p: Self)
        ensures
            p == (PacketProcessor {  }),
    {
        PacketProcessor {  }
    }

    /// Handles `packet`, which came from `client` at time `now`; see
    /// [`spec_packet_processed`].
    pub fn process(
        &self,
        context: &mut RuntimeContext,
        sessions: &mut UdpSessionManager,
        client: SocketAddress,
        packet: &Packet,
        now: u64,
    ) -> (action: Action)
        requires
            old(context).wf(),
            old(sessions).wf(),
        ensures
            final(context).wf(),
            final(sessions).wf(),
            spec_packet_processed(
                old(context)@,
                final(context)@,
                old(sessions)@,
                final(sessions)@,
                client,
                packet@,
                now,
                action@,
            ),
    {
        if !context.is_authenticated() {
            return Action::Reject(ErrorKind::Unauthenticated);
        }
        if packet.only_one_frag() {
            context.get_session(packet.assoc_id);
            return Action::Forward {
                assoc_id: packet.assoc_id,
                pkt_id: packet.pkt_id,
                address: packet.address.clone(),
                payload: copy_bytes(&packet.payload),
            };
        }
        match sessions.receive_fragment(UdpFragment::from_packet(packet), client, now) {
            Err(e) => Action::Reject(ErrorKind::from_udp(e)),
            Ok(found) => {
                match &packet.address {
                    Address::Absent => {
                        context.get_session(packet.assoc_id);
                    },
                    other => {
                        context.set_address(packet.assoc_id, other.clone());
                    },
                }
                match found {
                    Some(payload) => {
                        let address: Address = match context.get_address(packet.assoc_id) {
                            Some(a) => a,
                            None => Address::Absent,
                        };
                        Action::Forward {
                            assoc_id: packet.assoc_id,
                            pkt_id: packet.pkt_id,
                            address,
                            payload,
                        }
                    },
                    None => Action::Done,
                }
            },
        }
    }

    /// Frames `response` as the answer to packet `pkt_id` of association
    /// `assoc_id`: one datagram for each fragment, in ascending order of
    /// `frag_id`; see [`spec_reply_frames`].
    pub fn reply(&self, response: &[u8], assoc_id: u16, pkt_id: u16, address: Address) -> (frames:
        Vec<Vec<u8>>)
        requires
            response@.len() <= MAX_PAYLOAD,
            address@.wf(),
        ensures
            frames@.len() == spec_reply_frames(response@, assoc_id, pkt_id, address@).len(),
            forall|i: int|
                0 <= i < frames@.len() ==> (#[trigger] frames@[i])@ == spec_reply_frames(
                    response@,
                    assoc_id,
                    pkt_id,
                    address@,
                )[i],
    {
        let ghost want = spec_fragments(response@, assoc_id, pkt_id, address@);
        proof {
            lemma_fragments_assemble(response@, assoc_id, pkt_id, address@);
        }
        let packets: Vec<Packet> = Packet::get_packets_from(response, assoc_id, pkt_id, address);
        let mut frames: Vec<Vec<u8>> = Vec::new();
        let mut i: usize = 0;
        while i < packets.len()
            invariant
                i <= packets@.len(),
                spec_packet_views(packets@) == want,
                want == spec_fragments(response@, assoc_id, pkt_id, address@),
                forall|j: int| 0 <= j < want.len() ==> (#[trigger] want[j]).wf(),
                frames@.len() == i,
                forall|j: int| 0 <= j < i ==> (#[trigger] frames@[j])@ == spec_write_packet(want[j]),
            decreases packets@.len() - i,
        {
            assert(spec_packet_views(packets@)[i as int] == packets@[i as int]@);
            assert(want[i as int].wf());
            let mut frame: Vec<u8> = Vec::new();
            packets[i].write_to_buf(&mut frame);
            assert(frame@ =~= spec_write_packet(want[i as int]));
            frames.push(frame);
            i = i + 1;
        }
        frames
    }
}

} // verus!
