//! What the streams of one connection share: the authentication gate and
//! the UDP sessions of the connection.

use super::notifier::{spec_notify, spec_wait, OneShotNotifier, WaitStep};
use super::session::{SessionView, UdpSession};
use crate::protocol::tuic::address::{Address, AddressView};
use crate::protocol::tuic::command::packet::Packet;
use dashmap::DashMap;
use vstd::prelude::*;

verus! {

/// Where a connection stands.
#[derive(Debug, Clone, Copy, PartialEq, Eq, Structural)]
pub enum ConnectionState {
    /// No Authenticate command has been answered yet.
    Unauthenticated,
    /// Authentication has succeeded.
    Authenticated,
    /// Authentication has failed, or a command gave up waiting for it.
    Failed,
    /// The transport is closed.
    Closed,
}

/// What moves a connection from one state to another.
#[derive(Debug, Clone, Copy, PartialEq, Eq, Structural)]
pub enum ConnectionEvent {
    /// An Authenticate command was accepted.
    AuthenticateOk,
    /// An Authenticate command was refused.
    AuthenticateBad,
    /// A command gave up waiting at the auth gate.
    GateTimeout,
    /// The transport was closed.
    TransportClosed,
}

/// The state that `event` leads to from `state`. Only an unauthenticated
/// connection is moved by authentication and by a timeout at the auth gate; the
/// end of the transport closes every connection; a closed one stays
/// closed.
pub open spec fn spec_step(state: ConnectionState, event: ConnectionEvent) -> ConnectionState {
    match (state, event) {
        (ConnectionState::Closed, _) => ConnectionState::Closed,
        (_, ConnectionEvent::TransportClosed) => ConnectionState::Closed,
        (ConnectionState::Unauthenticated, ConnectionEvent::AuthenticateOk) => {
            ConnectionState::Authenticated
        },
        (ConnectionState::Unauthenticated, ConnectionEvent::AuthenticateBad) => {
            ConnectionState::Failed
        },
        (ConnectionState::Unauthenticated, ConnectionEvent::GateTimeout) => ConnectionState::Failed,
        (s, _) => s,
    }
}

/// A [`RuntimeContext`] as a value of specifications.
pub struct ContextView {
    /// The outcome of authentication, `None` until the auth gate is signalled.
    pub gate: Option<bool>,
    /// Whether the transport is closed.
    pub closed: bool,
    /// The UDP sessions, by association.
    pub sessions: Map<u16, SessionView>,
}

impl ContextView {
    /// Where the connection stands.
    pub open spec fn state(self) -> ConnectionState {
        if self.closed {
            ConnectionState::Closed
        } else {
            match self.gate {
                None => ConnectionState::Unauthenticated,
                Some(true) => ConnectionState::Authenticated,
                Some(false) => ConnectionState::Failed,
            }
        }
    }

    /// The session of association `id`: the one that is there, or that of
    /// a new association.
    pub open spec fn session(self, id: u16) -> SessionView {
        if self.sessions.contains_key(id) {
            self.sessions[id]
        } else {
            SessionView::empty()
        }
    }

    /// The context with `session` as the session of association `id`.
    pub open spec fn with_session(self, id: u16, session: SessionView) -> ContextView {
        ContextView { sessions: self.sessions.insert(id, session), ..self }
    }
}

/// The sessions that a map of sessions holds.
pub uninterp spec fn sessions_of(map: DashMap<u16, UdpSession>) -> Map<u16, UdpSession>;

/// An address that may be missing, as a value of specifications.
pub open spec fn spec_address_view(address: Option<Address>) -> Option<AddressView> {
    match address {
        Some(a) => Some(a@),
        None => None,
    }
}

/// `DashMap::new` of the crate dashmap: a map without entries.
#[verifier::external_body]
fn sessions_new() -> (made: DashMap<u16, UdpSession>)
    ensures
        sessions_of(made) == (Map::<u16, UdpSession>::empty()),
{
    DashMap::new()
}

/// `DashMap::len` of the crate dashmap: the number of entries.
#[verifier::external_body]
fn sessions_len(map: &DashMap<u16, UdpSession>) -> (n: usize)
    ensures
        sessions_of(*map).dom().finite() ==> n == sessions_of(*map).len(),
{
    map.len()
}

/// `DashMap::insert` of the crate dashmap: puts `value` under `key` and
/// hands back what was there before.
#[verifier::external_body]
fn sessions_insert(map: &mut DashMap<u16, UdpSession>, key: u16, value: UdpSession) -> (previous:
    Option<UdpSession>)
    ensures
        sessions_of(*final(map)) == sessions_of(*old(map)).insert(key, value),
        previous == (if sessions_of(*old(map)).contains_key(key) {
            Some(sessions_of(*old(map))[key])
        } else {
            None
        }),
{
    map.insert(key, value)
}

/// `DashMap::remove` of the crate dashmap: takes the entry under `key` out
/// of the map and hands it back, if there is one.
#[verifier::external_body]
fn sessions_remove(map: &mut DashMap<u16, UdpSession>, key: &u16) -> (removed: Option<
    (u16, UdpSession),
>)
    ensures
        sessions_of(*final(map)) == sessions_of(*old(map)).remove(*key),
        removed == (if sessions_of(*old(map)).contains_key(*key) {
            Some((*key, sessions_of(*old(map))[*key]))
        } else {
            None
        }),
{
    map.remove(key)
}

/// `DashMap::get` of the crate dashmap, the entry turned into the address
/// that its session remembers: `None` where `key` has no entry.
#[verifier::external_body]
fn sessions_address(map: &DashMap<u16, UdpSession>, key: &u16) -> (found: Option<Option<Address>>)
    ensures
        found is Some == sessions_of(*map).contains_key(*key),
        found matches Some(a) ==> spec_address_view(a) == sessions_of(*map)[*key]@.address,
{
    map.get(key).map(|entry| entry.value().get_address())
}

/// The shared state of one connection.
pub struct RuntimeContext {
    notifier: OneShotNotifier,
    closed: bool,
    udp_sessions: DashMap<u16, UdpSession>,
}

/// The sessions of a context as values of specifications.
pub open spec fn session_views(sessions: Map<u16, UdpSession>) -> Map<u16, SessionView> {
    Map::new(|k: u16| sessions.contains_key(k), |k: u16| sessions[k]@)
}

impl View for RuntimeContext {
    type V = ContextView;

    closed spec fn view(&self) -> ContextView {
        ContextView {
            gate: self.notifier@,
            closed: self.closed,
            sessions: session_views(sessions_of(self.udp_sessions)),
        }
    }
}

impl RuntimeContext {
    /// What every context that this library hands out satisfies: it holds
    /// finitely many sessions, each of them well formed.
    pub closed spec fn wf(&self) -> bool {
        &&& sessions_of(self.udp_sessions).dom().finite()
        &&& forall|k: u16| #[trigger]
            sessions_of(self.udp_sessions).contains_key(k) ==> sessions_of(
                self.udp_sessions,
            )[k].wf()
    }

    /// The context of a new connection, with `notifier` as its gate.
    pub fn new(notifier: OneShotNotifier) -> (c: Self)
        ensures
            c.wf(),
            c@ == (ContextView { gate: notifier@, closed: false, sessions: Map::empty() }),
    {
        let c = RuntimeContext { notifier, closed: false, udp_sessions: sessions_new() };
        assert(c@.sessions =~= Map::<u16, SessionView>::empty());
        c
    }

    /// Signals the outcome of authentication. Only the first signal
    /// counts.
    pub fn auth_done(&mut self, result: bool)
        ensures
            final(self).wf() == old(self).wf(),
            final(self)@ == (ContextView { gate: spec_notify(old(self)@.gate, result), ..old(self)@ }),
            final(self)@.state() == spec_step(
                old(self)@.state(),
                if result {
                    ConnectionEvent::AuthenticateOk
                } else {
                    ConnectionEvent::AuthenticateBad
                },
            ),
    {
        self.notifier.notify(result);
    }

    /// Records that a command gave up waiting at the auth gate: a connection
    /// that is still unauthenticated has failed.
    pub fn gate_timed_out(&mut self)
        ensures
            final(self).wf() == old(self).wf(),
            final(self)@ == (ContextView { gate: spec_notify(old(self)@.gate, false), ..old(self)@ }),
            final(self)@.state() == spec_step(old(self)@.state(), ConnectionEvent::GateTimeout),
    {
        self.notifier.notify(false);
    }

    /// Records that the transport is closed, and drops every session.
    pub fn close(&mut self)
        ensures
            final(self).wf(),
            final(self)@ == (ContextView {
                gate: old(self)@.gate,
                closed: true,
                sessions: Map::empty(),
            }),
            final(self)@.state() == spec_step(old(self)@.state(), ConnectionEvent::TransportClosed),
    {
        self.closed = true;
        self.udp_sessions = sessions_new();
        assert(self@.sessions =~= Map::<u16, SessionView>::empty());
    }

    /// The outcome of authentication, once there is one.
    pub fn wait_for_auth(&self) -> (r: Option<bool>)
        ensures
            r == self@.gate,
    {
        self.notifier.wait()
    }

    /// What a command finds at the auth gate after it has waited `waited` of at
    /// most `limit` milliseconds.
    pub fn wait_for_auth_timeout(&self, waited: u64, limit: u64) -> (r: WaitStep)
        ensures
            r == spec_wait(self@.gate, waited, limit),
    {
        self.notifier.wait_timeout(waited, limit)
    }

    /// Whether authentication has succeeded: whether commands other than
    /// Authenticate may be carried out.
    pub fn is_authenticated(&self) -> (r: bool)
        ensures
            r == (self@.gate == Some(true)),
    {
        match self.notifier.wait() {
            Some(v) => v,
            None => false,
        }
    }

    /// Whether the transport is closed.
    pub fn is_closed(&self) -> (r: bool)
        ensures
            r == self@.closed,
    {
        self.closed
    }

    /// Where the connection stands.
    pub fn state(&self) -> (s: ConnectionState)
        ensures
            s == self@.state(),
    {
        if self.closed {
            ConnectionState::Closed
        } else {
            match self.notifier.wait() {
                None => ConnectionState::Unauthenticated,
                Some(true) => ConnectionState::Authenticated,
                Some(false) => ConnectionState::Failed,
            }
        }
    }

    /// How many sessions the connection has.
    pub fn session_count(&self) -> (n: usize)
        requires
            self.wf(),
        ensures
            n == self@.sessions.len(),
    {
        assert(self@.sessions.dom() =~= sessions_of(self.udp_sessions).dom());
        sessions_len(&self.udp_sessions)
    }

    /// Whether association `associate_id` has a session.
    pub fn has_session(&self, associate_id: u16) -> (r: bool)
        ensures
            r == self@.sessions.contains_key(associate_id),
    {
        sessions_address(&self.udp_sessions, &associate_id).is_some()
    }

    /// Makes sure that association `associate_id` has a session: where it
    /// has none, it gets the session of a new association.
    pub fn get_session(&mut self, associate_id: u16)
        requires
            old(self).wf(),
        ensures
            final(self).wf(),
            final(self)@ == old(self)@.with_session(
                associate_id,
                old(self)@.session(associate_id),
            ),
    {
        let session: UdpSession = match sessions_remove(&mut self.udp_sessions, &associate_id) {
            Some((_, s)) => s,
            None => UdpSession::new(),
        };
        sessions_insert(&mut self.udp_sessions, associate_id, session);
        assert(self@.sessions =~= old(self)@.with_session(
            associate_id,
            old(self)@.session(associate_id),
        ).sessions);
    }

    /// Remembers `addr` as the address of association `associate_id`, whose
    /// session is made now if there was none.
    pub fn set_address(&mut self, associate_id: u16, addr: Address)
        requires
            old(self).wf(),
        ensures
            final(self).wf(),
            final(self)@ == old(self)@.with_session(
                associate_id,
                SessionView { address: Some(addr@), ..old(self)@.session(associate_id) },
            ),
    {
        let mut session: UdpSession = match sessions_remove(&mut self.udp_sessions, &associate_id) {
            Some((_, s)) => s,
            None => UdpSession::new(),
        };
        session.set_address(addr);
        sessions_insert(&mut self.udp_sessions, associate_id, session);
        assert(self@.sessions =~= old(self)@.with_session(
            associate_id,
            SessionView { address: Some(addr@), ..old(self)@.session(associate_id) },
        ).sessions);
    }

    /// The address that association `associate_id` remembers.
    pub fn get_address(&self, associate_id: u16) -> (a: Option<Address>)
        ensures
            spec_address_view(a) == self@.session(associate_id).address,
    {
        match sessions_address(&self.udp_sessions, &associate_id) {
            Some(a) => a,
            None => None,
        }
    }

    /// Hands one fragment of a packet of several to the session of its
    /// association, which is made now if there was none.
    pub fn accept(&mut self, packet: Packet, now: u64) -> (done: Option<u16>)
        requires
            old(self).wf(),
        ensures
            final(self).wf(),
            final(self)@ == old(self)@.with_session(
                packet.assoc_id,
                old(self)@.session(packet.assoc_id).accept(packet@, now).0,
            ),
            done == old(self)@.session(packet.assoc_id).accept(packet@, now).1,
    {
        let associate_id: u16 = packet.assoc_id;
        let ghost want = old(self)@.session(associate_id).accept(packet@, now).0;
        let mut session: UdpSession = match sessions_remove(&mut self.udp_sessions, &associate_id) {
            Some((_, s)) => s,
            None => UdpSession::new(),
        };
        let done = session.accept(packet, now);
        sessions_insert(&mut self.udp_sessions, associate_id, session);
        assert(self@.sessions =~= old(self)@.with_session(associate_id, want).sessions);
        done
    }

    /// Takes packet `pkt_id` out of the session of association
    /// `associate_id`.
    pub fn take_fragmented_packet(&mut self, associate_id: u16, pkt_id: u16) -> (payload: Option<
        Vec<u8>,
    >)
        requires
            old(self).wf(),
        ensures
            final(self).wf(),
            final(self)@ == old(self)@.with_session(
                associate_id,
                old(self)@.session(associate_id).take(pkt_id).0,
            ),
            (match payload {
                Some(p) => Some(p@),
                None => None,
            }) == old(self)@.session(associate_id).take(pkt_id).1,
    {
        let ghost want = old(self)@.session(associate_id).take(pkt_id).0;
        let mut session: UdpSession = match sessions_remove(&mut self.udp_sessions, &associate_id) {
            Some((_, s)) => s,
            None => UdpSession::new(),
        };
        let payload = session.take_fragmented_packet(pkt_id);
        sessions_insert(&mut self.udp_sessions, associate_id, session);
        assert(self@.sessions =~= old(self)@.with_session(associate_id, want).sessions);
        payload
    }

    /// Drops the session of association `associate_id`. Where there is
    /// none, nothing changes.
    pub fn remove_session(&mut self, associate_id: u16)
        ensures
            old(self).wf() ==> final(self).wf(),
            final(self)@ == (ContextView {
                sessions: old(self)@.sessions.remove(associate_id),
                ..old(self)@
            }),
            !old(self)@.sessions.contains_key(associate_id) ==> final(self)@ == old(self)@,
    {
        sessions_remove(&mut self.udp_sessions, &associate_id);
        assert(self@.sessions =~= old(self)@.sessions.remove(associate_id));
        proof {
            if !old(self)@.sessions.contains_key(associate_id) {
                assert(old(self)@.sessions.remove(associate_id) =~= old(self)@.sessions);
            }
        }
    }
}

/// The session of an association that was dropped is that of a new
/// association: nothing of the old session is left, and the sessions of the
/// other associations are as they were.
pub proof fn lemma_removed_session_is_fresh(c: ContextView, id: u16, other: u16)
    ensures
        (ContextView { sessions: c.sessions.remove(id), ..c }).session(id) == SessionView::empty(),
        other != id ==> (ContextView { sessions: c.sessions.remove(id), ..c }).session(other)
            == c.session(other),
{
}

/// A connection moves forward only: a closed connection stays closed, and
/// once authentication has ended, neither a later Authenticate command nor
/// a timeout at the auth gate changes its outcome.
pub proof fn lemma_state_machine(state: ConnectionState, event: ConnectionEvent)
    ensures
        state is Closed ==> spec_step(state, event) is Closed,
        event is TransportClosed ==> spec_step(state, event) is Closed,
        (state is Authenticated || state is Failed) && !(event is TransportClosed) ==> spec_step(
            state,
            event,
        ) == state,
        spec_step(state, event) is Authenticated ==> state is Authenticated || (state
            is Unauthenticated && event is AuthenticateOk),
{
}

} // verus!
