//! The TUIC side: authentication gate, UDP sessions, reassembly, and what
//! a connection does with each command that it reads.

pub mod bitmap;
pub mod command;
pub mod context;
pub mod notifier;
pub mod reassembly;
pub mod session;
pub mod udp_session_manager;

use crate::authenticate::connection::AuthenticationConnection;
use crate::authenticate::tuic::{
    spec_begin, spec_finish, AuthError, AuthView, TuicAuthenticationManager,
};
use crate::net::SocketAddress;
use crate::protocol::tuic::command::command::{spec_read_command, Command, CommandView};
use crate::protocol::tuic::header::{spec_read_header, Header};
use crate::wire::CodecError;
use command::authenticate::{spec_some_token, spec_verified, AuthenticateProcessor};
use command::connect::ConnectProcessor;
use command::dissociate::{spec_dissociated, DissociateProcess};
use command::heartbeat::HeartbeatProcessor;
use command::packet::{spec_packet_processed, PacketProcessor};
use command::{
    spec_auth_kind, spec_codec_kind, Action, ActionView, ErrorKind, CLOSE_UNEXPECTED_COMMAND,
};
use context::{ContextView, RuntimeContext};
use notifier::{spec_notify, spec_wait, WaitStep, DEFAULT_AUTH_TIMEOUT};
use udp_session_manager::{StoreView, UdpSessionManager};
use vstd::prelude::*;

verus! {

/// The three ways in which commands reach a connection.
#[derive(Debug, Clone, Copy, PartialEq, Eq, Structural)]
pub enum StreamRole {
    /// A stream from the client to the server: Authenticate, Packet,
    /// Dissociate.
    Unidirectional,
    /// A stream in both directions: Connect.
    Bidirectional,
    /// A datagram: Packet, Heartbeat.
    Datagram,
}

/// Everything that handling a command can change.
pub struct ProcessorView {
    pub context: ContextView,
    pub store: StoreView,
    pub auth: AuthView,
}

/// Whether `command`, coming by `role`, is the one command that does not
/// wait at the auth gate: an Authenticate on a unidirectional stream.
pub open spec fn spec_opens_gate(role: StreamRole, command: CommandView) -> bool {
    role is Unidirectional && command is Authenticate
}

/// Whether `after` and `action` are what handling the Authenticate command
/// `command` makes of `before`: the manager authenticates, the auth gate is
/// signalled with the outcome, and a failure is the reason to close the
/// stream. Sessions and reassembly store stay as they are.
pub open spec fn spec_authenticated(
    before: ProcessorView,
    after: ProcessorView,
    command: CommandView,
    now: u64,
    action: ActionView,
) -> bool {
    let a = command->Authenticate_0;
    let ok = action is Done;
    &&& after.store == before.store
    &&& after.context == (ContextView { gate: spec_notify(before.context.gate, ok), ..before.context })
    &&& match spec_begin(before.auth, a.uuid, now) {
        Err(e) => action == ActionView::Reject(spec_auth_kind(e)) && after.auth == before.auth,
        Ok(_) => exists|derived: Option<Seq<u8>>|
            {
                let (next, outcome) = spec_finish(
                    before.auth,
                    a,
                    #[trigger] spec_some_token(derived),
                    now,
                );
                after.auth == next && action == spec_auth_action(outcome)
            },
    }
}

/// What is left to do after authentication ended with `outcome`: nothing
/// after a success, and a failure is the reason to close the stream.
pub open spec fn spec_auth_action(outcome: Result<(), AuthError>) -> ActionView {
    match outcome {
        Ok(_) => ActionView::Done,
        Err(e) => ActionView::Reject(spec_auth_kind(e)),
    }
}

/// Whether a stream or datagram of `role` takes `command`. A
/// unidirectional stream takes Authenticate, Packet and Dissociate; a
/// datagram takes Packet and Heartbeat. On a bidirectional stream every
/// command is looked at.
pub open spec fn spec_takes(role: StreamRole, command: CommandView) -> bool {
    match role {
        StreamRole::Unidirectional => command is Authenticate || command is Packet || command
            is Dissociate,
        StreamRole::Datagram => command is Packet || command is Heartbeat,
        StreamRole::Bidirectional => true,
    }
}

/// Whether `after` and `action` are what handling `command` makes of
/// `before`, once authentication has succeeded.
///
/// A Packet goes to the packet processor and a Dissociate drops its
/// association. A Heartbeat is observed. A Connect on a bidirectional
/// stream starts a relay, and any other command there closes the
/// connection.
pub open spec fn spec_handled(
    role: StreamRole,
    before: ProcessorView,
    after: ProcessorView,
    client: SocketAddress,
    command: CommandView,
    consumed: usize,
    now: u64,
    action: ActionView,
) -> bool {
    &&& after.auth == before.auth
    &&& match (role, command) {
        (StreamRole::Bidirectional, CommandView::Connect(c)) => {
            &&& action == (ActionView::Relay { address: c.address, consumed })
            &&& after.context == before.context
            &&& after.store == before.store
        },
        (StreamRole::Bidirectional, _) => {
            &&& action == ActionView::CloseConnection(CLOSE_UNEXPECTED_COMMAND)
            &&& after.context == before.context
            &&& after.store == before.store
        },
        (_, CommandView::Packet(p)) => spec_packet_processed(
            before.context,
            after.context,
            before.store,
            after.store,
            client,
            p,
            now,
            action,
        ),
        (_, CommandView::Dissociate(d)) => {
            &&& action is Done
            &&& spec_dissociated(
                before.context,
                after.context,
                before.store,
                after.store,
                client,
                d,
                Ok(true),
            )
        },
        _ => {
            &&& action is Done
            &&& after.context == before.context
            &&& after.store == before.store
        },
    }
}

/// Whether `after` and `action` are what `command`, coming by `role` from
/// `client` at time `now` after it has waited `waited` of at most `limit`
/// milliseconds at the auth gate, makes of `before`.
///
/// On a closed connection every command is refused. An Authenticate on a
/// unidirectional stream is handled at once. A command that its stream or
/// datagram does not take is refused at once as unexpected, and nothing
/// changes. Every other command passes the auth gate first: while
/// authentication has not ended it waits, and gives up once the time is
/// over, which makes the connection fail; after authentication has failed
/// it is refused; only after authentication has succeeded is it handled.
pub open spec fn spec_dispatched(
    role: StreamRole,
    before: ProcessorView,
    after: ProcessorView,
    client: SocketAddress,
    command: CommandView,
    consumed: usize,
    waited: u64,
    limit: u64,
    now: u64,
    action: ActionView,
) -> bool {
    if before.context.closed {
        after == before && action == ActionView::Reject(ErrorKind::TransportClosed)
    } else if spec_opens_gate(role, command) {
        spec_authenticated(before, after, command, now, action)
    } else if !spec_takes(role, command) {
        after == before && action == ActionView::Reject(ErrorKind::UnexpectedCommand)
    } else {
        match spec_wait(before.context.gate, waited, limit) {
            WaitStep::Pending => after == before && action is Wait,
            WaitStep::TimedOut => {
                &&& action == ActionView::Reject(ErrorKind::Timeout)
                &&& after == (ProcessorView {
                    context: ContextView { gate: Some(false), ..before.context },
                    ..before
                })
            },
            WaitStep::Signalled(false) => after == before && action == ActionView::Reject(
                ErrorKind::Unauthenticated,
            ),
            WaitStep::Signalled(true) => spec_handled(
                role,
                before,
                after,
                client,
                command,
                consumed,
                now,
                action,
            ),
        }
    }
}

/// Whether `after` and `action` are what the bytes `stream`, read by
/// `role`, make of `before`.
///
/// Bytes whose header names a version or a command that does not exist
/// come from no client of this protocol: nothing changes and the
/// connection is closed. Other bytes that hold no command are refused with
/// the kind of the decoding error, and nothing changes either. Bytes that
/// hold a command are dispatched as that command.
pub open spec fn spec_processed(
    role: StreamRole,
    before: ProcessorView,
    after: ProcessorView,
    client: SocketAddress,
    stream: Seq<u8>,
    waited: u64,
    limit: u64,
    now: u64,
    action: ActionView,
) -> bool {
    if spec_read_header(stream) == Err::<(Header, nat), CodecError>(CodecError::MalformedFrame) {
        after == before && action == ActionView::CloseConnection(CLOSE_UNEXPECTED_COMMAND)
    } else {
        match spec_read_command(stream) {
            Err(e) => after == before && action == ActionView::Reject(spec_codec_kind(e)),
            Ok((command, n)) => spec_dispatched(
                role,
                before,
                after,
                client,
                command,
                n as usize,
                waited,
                limit,
                now,
                action,
            ),
        }
    }
}

/// The processor of the connections of one server: the users, the
/// reassembly store, and one handler for each command.
pub struct TuicConnectionProcessor {
    pub authenticate_processor: AuthenticateProcessor,
    pub connect_processor: ConnectProcessor,
    pub dissociate_processor: DissociateProcess,
    pub heartbeat_processor: HeartbeatProcessor,
    pub packet_processor: PacketProcessor,
    pub udp_session_manager: UdpSessionManager,
    /// How long a command waits at the auth gate, in milliseconds.
    pub auth_timeout: u64,
}

impl TuicConnectionProcessor {
    /// What the processor and `context` hold together.
    pub open spec fn view_with(&self, context: &RuntimeContext) -> ProcessorView {
        ProcessorView {
            context: context@,
            store: self.udp_session_manager@,
            auth: self.authenticate_processor.authenticate_manager@,
        }
    }

    /// What every processor that this library hands out satisfies.
    pub open spec fn wf(&self) -> bool {
        self.udp_session_manager.wf()
    }

    /// A processor for the users `user_entries`, with an empty reassembly
    /// store whose buffers expire after `udp_session_timeout` milliseconds
    /// and that is swept every `udp_cleanup_interval` milliseconds, under
    /// the limits `max_sessions` and `max_reassembly_bytes_per_session`.
    pub fn new(
        user_entries: Vec<(u128, Vec<u8>)>,
        udp_session_timeout: u64,
        udp_cleanup_interval: u64,
        max_sessions: Option<usize>,
        max_reassembly_bytes_per_session: Option<usize>,
    ) -> (p: Self)
        ensures
            p.wf(),
            p.auth_timeout == DEFAULT_AUTH_TIMEOUT,
            p.udp_session_manager@ == (StoreView {
                sessions: Map::empty(),
                session_timeout: udp_session_timeout,
                cleanup_interval: udp_cleanup_interval,
                max_sessions,
                max_reassembly_bytes_per_session,
            }),
            p.authenticate_processor.authenticate_manager@ == (AuthView {
                users: crate::authenticate::tuic::spec_user_table(user_entries@),
                failed: Map::empty(),
            }),
    {
        let authentication_manager = TuicAuthenticationManager::new(user_entries);
        let mut udp_session_manager = UdpSessionManager::new(
            udp_session_timeout,
            udp_cleanup_interval,
        );
        udp_session_manager.set_max_sessions(max_sessions);
        udp_session_manager.set_max_reassembly_bytes_per_session(max_reassembly_bytes_per_session);
        TuicConnectionProcessor {
            authenticate_processor: AuthenticateProcessor::new(authentication_manager),
            connect_processor: ConnectProcessor::new(),
            dissociate_processor: DissociateProcess::new(),
            heartbeat_processor: HeartbeatProcessor::new(),
            packet_processor: PacketProcessor::new(),
            udp_session_manager,
            auth_timeout: DEFAULT_AUTH_TIMEOUT,
        }
    }

    /// Handles `command`, which came by `role` from `client` and took
    /// `consumed` bytes of its stream; see [`spec_dispatched`].
    #[verifier::rlimit(30)]
    pub fn dispatch<C: AuthenticationConnection>(
        &mut self,
        role: StreamRole,
        context: &mut RuntimeContext,
        connection: &C,
        client: SocketAddress,
        command: &Command,
        consumed: usize,
        waited: u64,
        now: u64,
    ) -> (action: Action)
        requires
            old(self).wf(),
            old(context).wf(),
        ensures
            final(self).wf(),
            final(context).wf(),
            final(self).auth_timeout == old(self).auth_timeout,
            spec_dispatched(
                role,
                old(self).view_with(old(context)),
                final(self).view_with(final(context)),
                client,
                command@,
                consumed,
                waited,
                old(self).auth_timeout,
                now,
                action@,
            ),
    {
        if context.is_closed() {
            return Action::Reject(ErrorKind::TransportClosed);
        }
        match (role, command) {
            (StreamRole::Unidirectional, Command::Authenticate(authenticate)) => {
                let ghost before = self.authenticate_processor.authenticate_manager@;
                let r = self.authenticate_processor.verify(authenticate, connection, now);
                let ghost after = self.authenticate_processor.authenticate_manager@;
                let action: Action = match r {
                    Ok(_) => {
                        context.auth_done(true);
                        Action::Done
                    },
                    Err(e) => {
                        context.auth_done(false);
                        Action::Reject(ErrorKind::from_auth(e))
                    },
                };
                proof {
                    if spec_begin(before, authenticate.uuid, now) is Ok {
                        let derived = choose|derived: Option<Seq<u8>>|
                            spec_verified(
                                before,
                                after,
                                authenticate@,
                                #[trigger] spec_some_token(derived),
                                now,
                                r,
                            );
                        let (next, outcome) = spec_finish(
                            before,
                            authenticate@,
                            spec_some_token(derived),
                            now,
                        );
                        assert(after == next && action@ == spec_auth_action(outcome));
                    }
                }
                return action;
            },
            _ => {},
        }
        let taken: bool = match (role, command) {
            (StreamRole::Bidirectional, _) => true,
            (StreamRole::Unidirectional, Command::Packet(_)) => true,
            (StreamRole::Unidirectional, Command::Dissociate(_)) => true,
            (StreamRole::Datagram, Command::Packet(_)) => true,
            (StreamRole::Datagram, Command::Heartbeat(_)) => true,
            _ => false,
        };
        if !taken {
            return Action::Reject(ErrorKind::UnexpectedCommand);
        }
        match context.wait_for_auth_timeout(waited, self.auth_timeout) {
            WaitStep::Pending => {
                return Action::Wait;
            },
            WaitStep::TimedOut => {
                context.gate_timed_out();
                return Action::Reject(ErrorKind::Timeout);
            },
            WaitStep::Signalled(false) => {
                return Action::Reject(ErrorKind::Unauthenticated);
            },
            WaitStep::Signalled(true) => {},
        }
        match (role, command) {
            (StreamRole::Bidirectional, Command::Connect(connect)) => Action::Relay {
                address: connect.address().clone(),
                consumed,
            },
            (StreamRole::Bidirectional, _) => Action::CloseConnection(CLOSE_UNEXPECTED_COMMAND),
            (_, Command::Packet(packet)) => self.packet_processor.process(
                context,
                &mut self.udp_session_manager,
                client,
                packet,
                now,
            ),
            (_, Command::Dissociate(dissociate)) => {
                match self.dissociate_processor.process(
                    context,
                    &mut self.udp_session_manager,
                    client,
                    dissociate,
                ) {
                    Ok(_) => Action::Done,
                    Err(kind) => Action::Reject(kind),
                }
            },
            (_, Command::Heartbeat(heartbeat)) => {
                match self.heartbeat_processor.process(context, heartbeat) {
                    Ok(_) => Action::Done,
                    Err(kind) => Action::Reject(kind),
                }
            },
            _ => Action::Done,
        }
    }

    /// Reads one command from `stream` and handles it as `role` does; see
    /// [`spec_processed`].
    pub fn process<C: AuthenticationConnection>(
        &mut self,
        role: StreamRole,
        context: &mut RuntimeContext,
        connection: &C,
        client: SocketAddress,
        stream: &[u8],
        waited: u64,
        now: u64,
    ) -> (action: Action)
        requires
            old(self).wf(),
            old(context).wf(),
        ensures
            final(self).wf(),
            final(context).wf(),
            final(self).auth_timeout == old(self).auth_timeout,
            spec_processed(
                role,
                old(self).view_with(old(context)),
                final(self).view_with(final(context)),
                client,
                stream@,
                waited,
                old(self).auth_timeout,
                now,
                action@,
            ),
    {
        assert(crate::wire::tail(stream@, 0) =~= stream@);
        match Header::read_from(stream, 0) {
            Err(CodecError::MalformedFrame) => {
                return Action::CloseConnection(CLOSE_UNEXPECTED_COMMAND);
            },
            _ => {},
        }
        match Command::read_from(stream, 0) {
            Err(e) => Action::Reject(ErrorKind::from_codec(e)),
            Ok((command, consumed)) => self.dispatch(
                role,
                context,
                connection,
                client,
                &command,
                consumed,
                waited,
                now,
            ),
        }
    }

    /// Handles the bytes of one unidirectional stream.
    pub fn process_uni<C: AuthenticationConnection>(
        &mut self,
        context: &mut RuntimeContext,
        connection: &C,
        client: SocketAddress,
        stream: &[u8],
        waited: u64,
        now: u64,
    ) -> (action: Action)
        requires
            old(self).wf(),
            old(context).wf(),
        ensures
            final(self).wf(),
            final(context).wf(),
            final(self).auth_timeout == old(self).auth_timeout,
            spec_processed(
                StreamRole::Unidirectional,
                old(self).view_with(old(context)),
                final(self).view_with(final(context)),
                client,
                stream@,
                waited,
                old(self).auth_timeout,
                now,
                action@,
            ),
    {
        self.process(StreamRole::Unidirectional, context, connection, client, stream, waited, now)
    }

    /// Handles the first bytes of one bidirectional stream.
    pub fn process_bidirectional<C: AuthenticationConnection>(
        &mut self,
        context: &mut RuntimeContext,
        connection: &C,
        client: SocketAddress,
        stream: &[u8],
        waited: u64,
        now: u64,
    ) -> (action: Action)
        requires
            old(self).wf(),
            old(context).wf(),
        ensures
            final(self).wf(),
            final(context).wf(),
            final(self).auth_timeout == old(self).auth_timeout,
            spec_processed(
                StreamRole::Bidirectional,
                old(self).view_with(old(context)),
                final(self).view_with(final(context)),
                client,
                stream@,
                waited,
                old(self).auth_timeout,
                now,
                action@,
            ),
    {
        self.process(StreamRole::Bidirectional, context, connection, client, stream, waited, now)
    }

    /// Handles the bytes of one datagram.
    pub fn process_datagram<C: AuthenticationConnection>(
        &mut self,
        context: &mut RuntimeContext,
        connection: &C,
        client: SocketAddress,
        datagram: &[u8],
        waited: u64,
        now: u64,
    ) -> (action: Action)
        requires
            old(self).wf(),
            old(context).wf(),
        ensures
            final(self).wf(),
            final(context).wf(),
            final(self).auth_timeout == old(self).auth_timeout,
            spec_processed(
                StreamRole::Datagram,
                old(self).view_with(old(context)),
                final(self).view_with(final(context)),
                client,
                datagram@,
                waited,
                old(self).auth_timeout,
                now,
                action@,
            ),
    {
        self.process(StreamRole::Datagram, context, connection, client, datagram, waited, now)
    }
}

/// Before authentication has succeeded, no command but an Authenticate on
/// a unidirectional stream reaches beyond the auth gate: nothing is sent
/// upstream, and sessions, reassembly store and users stay as they are.
/// All that can change is the auth gate itself, which a command that gives up
/// waiting closes.
pub proof fn lemma_gate_guards(
    role: StreamRole,
    before: ProcessorView,
    after: ProcessorView,
    client: SocketAddress,
    command: CommandView,
    consumed: usize,
    waited: u64,
    limit: u64,
    now: u64,
    action: ActionView,
)
    requires
        spec_dispatched(role, before, after, client, command, consumed, waited, limit, now, action),
        before.context.gate != Some(true),
        !spec_opens_gate(role, command),
    ensures
        !action.is_upstream(),
        action is Wait || action is Reject,
        after.store == before.store,
        after.auth == before.auth,
        after.context.sessions == before.context.sessions,
        after.context.gate != Some(true),
{
}

/// An Authenticate command sends nothing upstream either, and leaves
/// sessions and reassembly store as they are.
pub proof fn lemma_authenticate_stays_inside(
    role: StreamRole,
    before: ProcessorView,
    after: ProcessorView,
    client: SocketAddress,
    command: CommandView,
    consumed: usize,
    waited: u64,
    limit: u64,
    now: u64,
    action: ActionView,
)
    requires
        spec_dispatched(role, before, after, client, command, consumed, waited, limit, now, action),
        command is Authenticate,
    ensures
        !action.is_upstream(),
        after.store == before.store,
        after.context.sessions == before.context.sessions,
{
}

} // verus!
