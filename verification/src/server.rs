//! The life of a server, and what it does with clients that are none.

use crate::net::SocketAddress;
use vstd::prelude::*;

verus! {

/// Where a server stands, and since when, in milliseconds.
#[derive(Debug, Clone, Copy, PartialEq, Eq, Structural)]
pub enum ServerStatus {
    Initializing(u64),
    Running(u64),
    Stopped(u64),
}

/// Why a server cannot be started or stopped.
#[derive(Debug, Clone, Copy, PartialEq, Eq, Structural)]
pub enum ServerError {
    /// The server is still initializing.
    StillInitializing,
    /// The server was stopped at this time.
    AlreadyStopped(u64),
}

/// The status after a server in the status `status` was stopped at `now`:
/// only a running server can be stopped.
pub open spec fn spec_stop(status: ServerStatus, now: u64) -> Result<ServerStatus, ServerError> {
    match status {
        ServerStatus::Running(_) => Ok(ServerStatus::Stopped(now)),
        ServerStatus::Initializing(_) => Err(ServerError::StillInitializing),
        ServerStatus::Stopped(at) => Err(ServerError::AlreadyStopped(at)),
    }
}

/// Whether a server in the status `status` may accept connections: only a
/// running server may.
pub open spec fn spec_start(status: ServerStatus) -> Result<(), ServerError> {
    match status {
        ServerStatus::Running(_) => Ok(()),
        ServerStatus::Initializing(_) => Err(ServerError::StillInitializing),
        ServerStatus::Stopped(at) => Err(ServerError::AlreadyStopped(at)),
    }
}

impl ServerStatus {
    /// The status of a server that was made at `now`.
    pub fn new(now: u64) -> (s: Self)
        ensures
            s == ServerStatus::Initializing(now),
    {
        ServerStatus::Initializing(now)
    }

    /// The status of a server whose initialization ended at `now`.
    pub fn initialized(&self, now: u64) -> (s: Self)
        ensures
            s == ServerStatus::Running(now),
    {
        ServerStatus::Running(now)
    }

    /// See [`spec_start`].
    pub fn start(&self) -> (r: Result<(), ServerError>)
        ensures
            r == spec_start(*self),
    {
        match self {
            ServerStatus::Running(_) => Ok(()),
            ServerStatus::Initializing(_) => Err(ServerError::StillInitializing),
            ServerStatus::Stopped(at) => Err(ServerError::AlreadyStopped(*at)),
        }
    }

    /// See [`spec_stop`].
    pub fn stop(&self, now: u64) -> (r: Result<ServerStatus, ServerError>)
        ensures
            r == spec_stop(*self, now),
    {
        match self {
            ServerStatus::Running(_) => Ok(ServerStatus::Stopped(now)),
            ServerStatus::Initializing(_) => Err(ServerError::StillInitializing),
            ServerStatus::Stopped(at) => Err(ServerError::AlreadyStopped(*at)),
        }
    }
}

/// What a Trojan server does with a client that sent no request.
#[derive(Debug, Clone, Copy, PartialEq, Eq, Structural)]
pub struct FallbackHandler;

/// What is left to do with a client that sent no request.
#[derive(Debug, Clone, Copy, PartialEq, Eq, Structural)]
pub enum FallbackAction {
    /// Relay every byte, unchanged and in both directions, to this
    /// address.
    Relay(SocketAddress),
    /// Close the connection without sending anything.
    Close,
}

impl FallbackHandler {
    /// What is left to do with a client that sent no request, where
    /// `fallback_addr` is the configured fallback address and
    /// `reachable` says whether a connection to it could be made: relay
    /// where there is an address that can be reached, else close. Nothing
    /// that the protocol defines is ever sent to such a client.
    pub fn handle_fallback(fallback_addr: Option<SocketAddress>, reachable: bool) -> (action:
        FallbackAction)
        ensures
            action == (match fallback_addr {
                Some(a) => if reachable {
                    FallbackAction::Relay(a)
                } else {
                    FallbackAction::Close
                },
                None => FallbackAction::Close,
            }),
    {
        match fallback_addr {
            Some(a) => if reachable {
                FallbackAction::Relay(a)
            } else {
                FallbackAction::Close
            },
            None => FallbackAction::Close,
        }
    }
}

/// Whether `prefix`, the first bytes that a client sent, can be the start
/// of a TLS handshake: fewer than two bytes say nothing; from two on, they
/// must be the record type of a handshake and the major version 3.
pub open spec fn spec_may_be_tls(prefix: Seq<u8>) -> bool {
    prefix.len() < 2 || (prefix[0] == 0x16 && prefix[1] == 0x03)
}

/// See [`spec_may_be_tls`]. A client whose first bytes cannot be TLS is a
/// probe, and its connection is closed.
pub fn may_be_tls(prefix: &[u8]) -> (r: bool)
    ensures
        r == spec_may_be_tls(prefix@),
{
    prefix.len() < 2 || (prefix[0] == 0x16 && prefix[1] == 0x03)
}

} // verus!
