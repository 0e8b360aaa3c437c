//! The Trojan side: what a connection does with the request that it reads,
//! and how a UDP association picks its sockets.

use crate::authenticate::trojan::TrojanAuthenticationManager;
use crate::net::{spec_to_ipv6_mapped, SocketAddress};
use crate::protocol::trojan::address::{Address, AddressView};
use crate::protocol::trojan::command::{
    read_trojan_udp_frame, spec_read_request, spec_read_udp_frame, spec_write_udp_frame,
    write_trojan_udp_frame, CommandType, TrojanRequest, UdpFrame, UdpFrameView,
};
use crate::wire::{tail, CodecError};
use vstd::prelude::*;

verus! {

/// What a Trojan connection knows of itself.
#[derive(Debug, Clone, Copy, PartialEq, Eq, Structural)]
pub struct RuntimeContext {
    pub client_addr: SocketAddress,
    pub authenticated: bool,
}

impl RuntimeContext {
    /// The context of a new connection from `client_addr`, which is not
    /// authenticated.
    pub fn new(client_addr: SocketAddress) -> (c: Self)
        ensures
            c == (RuntimeContext { client_addr, authenticated: false }),
    {
        Self { client_addr, authenticated: false }
    }
}

/// What is left to do with a connection once its first bytes were looked
/// at.
#[derive(Debug, PartialEq, Eq)]
pub enum TrojanAction {
    /// The bytes end inside the request: read more and look again.
    NeedMore,
    /// Resolve `address` and relay the stream from `consumed` on to it over
    /// TCP.
    Connect { address: Address, consumed: usize },
    /// Treat the stream from `consumed` on as the frames of a UDP
    /// association.
    UdpAssociate { consumed: usize },
    /// The bytes are no request: relay them and all that follow, unchanged,
    /// to this address.
    Fallback(SocketAddress),
    /// The bytes are no request and there is nowhere to relay them: close
    /// the connection without a word.
    Close,
}

/// A [`TrojanAction`] as a value of specifications.
pub enum TrojanActionView {
    NeedMore,
    Connect { address: AddressView, consumed: usize },
    UdpAssociate { consumed: usize },
    Fallback(SocketAddress),
    Close,
}

impl View for TrojanAction {
    type V = TrojanActionView;

    open spec fn view(&self) -> TrojanActionView {
        match *self {
            TrojanAction::NeedMore => TrojanActionView::NeedMore,
            TrojanAction::Connect { address, consumed } => TrojanActionView::Connect {
                address: address@,
                consumed,
            },
            TrojanAction::UdpAssociate { consumed } => TrojanActionView::UdpAssociate { consumed },
            TrojanAction::Fallback(a) => TrojanActionView::Fallback(a),
            TrojanAction::Close => TrojanActionView::Close,
        }
    }
}

/// What is left to do with a connection that sent no request: relay it to
/// the fallback address if there is one, else close it.
pub open spec fn spec_no_request(fallback_addr: Option<SocketAddress>) -> TrojanActionView {
    match fallback_addr {
        Some(a) => TrojanActionView::Fallback(a),
        None => TrojanActionView::Close,
    }
}

/// What is left to do with a connection whose first bytes are `stream`,
/// where `hashes` open the server: the command of a request of a known
/// user is carried out; bytes that end inside a request call for more;
/// everything else is no request.
pub open spec fn spec_trojan_action(
    stream: Seq<u8>,
    hashes: Seq<Seq<u8>>,
    fallback_addr: Option<SocketAddress>,
) -> TrojanActionView {
    match spec_read_request(stream, hashes) {
        Err(_) => TrojanActionView::NeedMore,
        Ok(None) => spec_no_request(fallback_addr),
        Ok(Some((request, n))) => match request.command {
            CommandType::Connect => TrojanActionView::Connect {
                address: request.address,
                consumed: n as usize,
            },
            CommandType::UdpAssociate => TrojanActionView::UdpAssociate { consumed: n as usize },
        },
    }
}

/// The processor of the connections of one Trojan server.
pub struct TrojanConnectionProcessor {
    pub auth: TrojanAuthenticationManager,
    pub fallback_addr: Option<SocketAddress>,
}

impl TrojanConnectionProcessor {
    /// A processor for the users of `auth`, without a fallback address.
    pub fn new(auth: TrojanAuthenticationManager) -> (p: Self)
        ensures
            p.auth == auth,
            p.fallback_addr is None,
    {
        Self { auth, fallback_addr: None }
    }

    /// The processor with `fallback_addr` as its fallback address.
    pub fn with_fallback_addr(self, fallback_addr: SocketAddress) -> (p: Self)
        ensures
            p.auth == self.auth,
            p.fallback_addr == Some(fallback_addr),
    {
        Self { auth: self.auth, fallback_addr: Some(fallback_addr) }
    }

    /// What is left to do with a connection that sent no request; also the
    /// answer for a stream that ended inside a request.
    pub fn no_request(&self) -> (action: TrojanAction)
        ensures
            action@ == spec_no_request(self.fallback_addr),
    {
        match self.fallback_addr {
            Some(a) => TrojanAction::Fallback(a),
            None => TrojanAction::Close,
        }
    }

    /// Looks at the first bytes of a connection, `stream`; see
    /// [`spec_trojan_action`]. The connection is authenticated from the
    /// moment on at which its request was read.
    pub fn process_connection_tls(&self, stream: &[u8], context: &mut RuntimeContext) -> (action:
        TrojanAction)
        ensures
            action@ == spec_trojan_action(stream@, self.auth@, self.fallback_addr),
            final(context).client_addr == old(context).client_addr,
            final(context).authenticated == (old(context).authenticated || action@ is Connect
                || action@ is UdpAssociate),
            action matches TrojanAction::Connect { address, consumed } ==> address@.wf() && consumed
                <= stream@.len(),
            action matches TrojanAction::UdpAssociate { consumed } ==> consumed <= stream@.len(),
    {
        match TrojanRequest::read_from(stream, &self.auth) {
            Err(_) => TrojanAction::NeedMore,
            Ok(None) => self.no_request(),
            Ok(Some((request, consumed))) => {
                context.authenticated = true;
                match request.command {
                    CommandType::Connect => TrojanAction::Connect {
                        address: request.address,
                        consumed,
                    },
                    CommandType::UdpAssociate => TrojanAction::UdpAssociate { consumed },
                }
            },
        }
    }
}

/// The sockets from which a UDP association sends.
#[derive(Debug, Clone, Copy, PartialEq, Eq, Structural)]
pub enum UdpSocketChoice {
    /// One IPv6 socket that also speaks IPv4.
    Dual,
    /// The IPv4 socket.
    V4,
    /// The IPv6 socket.
    V6,
}

/// From which socket a payload for `target` is sent, and to which address:
/// from the dual-stack socket where there is one, an IPv4 target in its
/// IPv4-mapped form; else from the socket of the family of the target; and
/// not at all where there is no such socket.
pub open spec fn spec_udp_send_plan(
    target: SocketAddress,
    has_dual: bool,
    has_v4: bool,
    has_v6: bool,
) -> Option<(UdpSocketChoice, SocketAddress)> {
    if has_dual {
        Some((UdpSocketChoice::Dual, spec_to_ipv6_mapped(target)))
    } else if target.ip is V4 {
        if has_v4 {
            Some((UdpSocketChoice::V4, target))
        } else {
            None
        }
    } else {
        if has_v6 {
            Some((UdpSocketChoice::V6, target))
        } else {
            None
        }
    }
}

/// See [`spec_udp_send_plan`].
pub fn udp_send_plan(target: SocketAddress, has_dual: bool, has_v4: bool, has_v6: bool) -> (plan:
    Option<(UdpSocketChoice, SocketAddress)>)
    ensures
        plan == spec_udp_send_plan(target, has_dual, has_v4, has_v6),
{
    if has_dual {
        Some((UdpSocketChoice::Dual, target.to_ipv6_mapped()))
    } else if target.is_ipv4() {
        if has_v4 {
            Some((UdpSocketChoice::V4, target))
        } else {
            None
        }
    } else {
        if has_v6 {
            Some((UdpSocketChoice::V6, target))
        } else {
            None
        }
    }
}

/// What a UDP association does next with the bytes of its stream.
#[derive(Debug, PartialEq, Eq)]
pub enum UdpStep {
    /// Resolve the address of `frame` and send its payload there; the next
    /// frame starts at `next`.
    Send { frame: UdpFrame, next: usize },
    /// The bytes end inside a frame: read more and look again.
    NeedMore,
    /// The bytes are no frame: end the association.
    Stop,
}

/// Looks at the bytes of the stream of a UDP association from `pos` on: a
/// frame is to be sent, bytes that end inside a frame call for more, bytes
/// that are no frame end the association.
pub fn next_udp_frame(stream: &[u8], pos: usize) -> (step: UdpStep)
    ensures
        match step {
            UdpStep::Send { frame, next } => spec_read_udp_frame(tail(stream@, pos as int)) == Ok::<
                (UdpFrameView, nat),
                CodecError,
            >((frame@, (next - pos) as nat)) && pos <= next <= stream@.len() && frame@.wf(),
            UdpStep::NeedMore => spec_read_udp_frame(tail(stream@, pos as int)) == Err::<
                (UdpFrameView, nat),
                CodecError,
            >(CodecError::Truncated),
            UdpStep::Stop => spec_read_udp_frame(tail(stream@, pos as int)) == Err::<
                (UdpFrameView, nat),
                CodecError,
            >(CodecError::MalformedFrame),
        },
{
    match read_trojan_udp_frame(stream, pos) {
        Ok((frame, next)) => UdpStep::Send { frame, next },
        Err(CodecError::Truncated) => UdpStep::NeedMore,
        Err(CodecError::MalformedFrame) => UdpStep::Stop,
    }
}

/// The frame in which a payload that came from `src` goes back to the
/// client.
pub fn udp_reply_frame(src: SocketAddress, payload: &[u8]) -> (frame: Vec<u8>)
    requires
        payload@.len() <= u16::MAX,
    ensures
        frame@ == spec_write_udp_frame(
            UdpFrameView { dst: AddressView::Socket(src), payload: payload@ },
        ),
{
    let mut frame: Vec<u8> = Vec::new();
    write_trojan_udp_frame(&mut frame, &Address::Socket(src), payload);
    assert(frame@ =~= spec_write_udp_frame(
        UdpFrameView { dst: AddressView::Socket(src), payload: payload@ },
    ));
    frame
}

} // verus!
