//! Dissociate: drop everything that belongs to an association.

use crate::net::SocketAddress;
use crate::processor::tuic::command::ErrorKind;
use crate::processor::tuic::context::{ContextView, RuntimeContext};
use crate::processor::tuic::udp_session_manager::{
    spec_without_session, StoreView, UdpSessionManager,
};
use crate::protocol::tuic::command::dissociate::Dissociate;
use vstd::prelude::*;

verus! {

/// Whether `after`, `store_after` and `answer` are what handling
/// `dissociate`, which came from `client`, makes of `before` and
/// `store_before`.
///
/// Unless authentication has succeeded the command is refused and nothing
/// changes. Else the session of the association and every reassembly
/// buffer of that association of `client` are dropped, and the answer says
/// that the command was carried out. For an association that is not known
/// nothing changes, and the answer is the same.
pub open spec fn spec_dissociated(
    before: ContextView,
    after: ContextView,
    store_before: StoreView,
    store_after: StoreView,
    client: SocketAddress,
    dissociate: Dissociate,
    answer: Result<bool, ErrorKind>,
) -> bool {
    if before.gate != Some(true) {
        &&& answer == Err::<bool, ErrorKind>(ErrorKind::Unauthenticated)
        &&& after == before
        &&& store_after == store_before
    } else {
        &&& answer == Ok::<bool, ErrorKind>(true)
        &&& after == (ContextView {
            sessions: before.sessions.remove(dissociate.asso_id),
            ..before
        })
        &&& store_after == (StoreView {
            sessions: spec_without_session(store_before.sessions, client, dissociate.asso_id),
            ..store_before
        })
    }
}

/// Handles Dissociate commands.
#[derive(Debug, Clone, Copy, PartialEq, Eq, Structural)]
pub struct DissociateProcess {}

impl DissociateProcess {
    /// The processor. It keeps no state.
    pub fn new() -> (p: Self)
        ensures
            p == (DissociateProcess {  }),
    {
        DissociateProcess {  }
    }

    /// Handles `dissociate`, which came from `client`; see
    /// [`spec_dissociated`].
    pub fn process(
        &self,
        context: &mut RuntimeContext,
        sessions: &mut UdpSessionManager,
        client: SocketAddress,
        dissociate: &Dissociate,
    ) -> (done: Result<bool, ErrorKind>)
        requires
            old(context).wf(),
            old(sessions).wf(),
        ensures
            final(context).wf(),
            final(sessions).wf(),
            spec_dissociated(
                old(context)@,
                final(context)@,
                old(sessions)@,
                final(sessions)@,
                client,
                *dissociate,
                done,
            ),
    {
        if !context.is_authenticated() {
            return Err(ErrorKind::Unauthenticated);
        }
        context.remove_session(dissociate.assoc_id());
        sessions.remove_session(client, dissociate.assoc_id());
        Ok(true)
    }
}

} // verus!
