//! What each command makes a connection do.

pub mod authenticate;
pub mod connect;
pub mod dissociate;
pub mod heartbeat;
pub mod packet;

use crate::authenticate::tuic::AuthError;
use crate::processor::tuic::reassembly::UdpError;
use crate::protocol::tuic::address::{Address, AddressView};
use crate::wire::CodecError;
use vstd::prelude::*;

verus! {

/// The code with which a connection is closed after a command that its
/// stream does not take.
pub const CLOSE_UNEXPECTED_COMMAND: u32 = 0xffff;

/// The ways in which handling a command can fail.
#[derive(Debug, Clone, Copy, PartialEq, Eq, Structural)]
pub enum ErrorKind {
    MalformedFrame,
    Truncated,
    UnknownUser,
    BadToken,
    RateLimited,
    DeriveFailed,
    ResolutionFailed,
    ConnectFailed,
    Timeout,
    InvalidFragmentId,
    SessionTooLarge,
    UnexpectedCommand,
    TransportClosed,
    /// Authentication has failed, so that no other command is taken.
    Unauthenticated,
}

/// What is left to do once a command was handled.
#[derive(Debug, PartialEq, Eq)]
pub enum Action {
    /// Nothing.
    Done,
    /// Authentication has not ended: wait at the auth gate and offer the command
    /// again.
    Wait,
    /// Resolve `address`, send `payload` there over UDP, and send the
    /// answer back as packet `pkt_id` of association `assoc_id`.
    Forward { assoc_id: u16, pkt_id: u16, address: Address, payload: Vec<u8> },
    /// Resolve `address` and relay the stream to it over TCP. The bytes of
    /// the stream from `consumed` on belong to the relay.
    Relay { address: Address, consumed: usize },
    /// Drop the command, and close the stream on which it came.
    Reject(ErrorKind),
    /// Close the connection with this code.
    CloseConnection(u32),
}

/// An [`Action`] as a value of specifications.
pub enum ActionView {
    Done,
    Wait,
    Forward { assoc_id: u16, pkt_id: u16, address: AddressView, payload: Seq<u8> },
    Relay { address: AddressView, consumed: usize },
    Reject(ErrorKind),
    CloseConnection(u32),
}

impl View for Action {
    type V = ActionView;

    open spec fn view(&self) -> ActionView {
        match *self {
            Action::Done => ActionView::Done,
            Action::Wait => ActionView::Wait,
            Action::Forward { assoc_id, pkt_id, address, payload } => ActionView::Forward {
                assoc_id,
                pkt_id,
                address: address@,
                payload: payload@,
            },
            Action::Relay { address, consumed } => ActionView::Relay { address: address@, consumed },
            Action::Reject(e) => ActionView::Reject(e),
            Action::CloseConnection(code) => ActionView::CloseConnection(code),
        }
    }
}

impl ActionView {
    /// Whether the action reaches beyond the connection: whether it sends
    /// anything upstream.
    pub open spec fn is_upstream(self) -> bool {
        self is Forward || self is Relay
    }
}

/// The kind of a decoding error.
pub open spec fn spec_codec_kind(e: CodecError) -> ErrorKind {
    match e {
        CodecError::Truncated => ErrorKind::Truncated,
        CodecError::MalformedFrame => ErrorKind::MalformedFrame,
    }
}

/// The kind of an authentication error.
pub open spec fn spec_auth_kind(e: AuthError) -> ErrorKind {
    match e {
        AuthError::UnknownUser => ErrorKind::UnknownUser,
        AuthError::BadToken => ErrorKind::BadToken,
        AuthError::RateLimited => ErrorKind::RateLimited,
        AuthError::DeriveFailed => ErrorKind::DeriveFailed,
    }
}

/// The kind of a reassembly error.
pub open spec fn spec_udp_kind(e: UdpError) -> ErrorKind {
    match e {
        UdpError::SessionTooLarge => ErrorKind::SessionTooLarge,
        UdpError::InvalidFragmentId => ErrorKind::InvalidFragmentId,
    }
}

impl ErrorKind {
    /// See [`spec_codec_kind`].
    pub fn from_codec(e: CodecError) -> (k: ErrorKind)
        ensures
            k == spec_codec_kind(e),
    {
        match e {
            CodecError::Truncated => ErrorKind::Truncated,
            CodecError::MalformedFrame => ErrorKind::MalformedFrame,
        }
    }

    /// See [`spec_auth_kind`].
    pub fn from_auth(e: AuthError) -> (k: ErrorKind)
        ensures
            k == spec_auth_kind(e),
    {
        match e {
            AuthError::UnknownUser => ErrorKind::UnknownUser,
            AuthError::BadToken => ErrorKind::BadToken,
            AuthError::RateLimited => ErrorKind::RateLimited,
            AuthError::DeriveFailed => ErrorKind::DeriveFailed,
        }
    }

    /// See [`spec_udp_kind`].
    pub fn from_udp(e: UdpError) -> (k: ErrorKind)
        ensures
            k == spec_udp_kind(e),
    {
        match e {
            UdpError::SessionTooLarge => ErrorKind::SessionTooLarge,
            UdpError::InvalidFragmentId => ErrorKind::InvalidFragmentId,
        }
    }
}

} // verus!
