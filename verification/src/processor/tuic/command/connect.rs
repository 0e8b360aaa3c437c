//! Connect: where the TCP relay goes, and how it is set up.

use crate::net::{IpAddress, SocketAddress};
use crate::processor::tuic::command::ErrorKind;
use crate::protocol::tuic::address::spec_to_socket_address;
use crate::processor::tuic::context::RuntimeContext;
use crate::protocol::tuic::command::connect::{Connect, ConnectView};
use vstd::prelude::*;

verus! {

/// Seconds of silence after which a relay's TCP connection is probed.
pub const KEEPALIVE_IDLE_SECS: u64 = 5;

/// Seconds between two probes.
pub const KEEPALIVE_INTERVAL_SECS: u64 = 2;

/// How many probes may go unanswered.
pub const KEEPALIVE_RETRIES: u32 = 1;

/// Seconds that a closed relay connection lingers.
pub const LINGER_SECS: u64 = 0;

/// The smallest buffer of one direction of a relay.
pub const MIN_RELAY_BUFFER: usize = 8192;

/// The largest buffer of one direction of a relay.
pub const MAX_RELAY_BUFFER: usize = 16384;

/// The buffer size of one direction of a relay for which `requested` bytes
/// were asked: `requested`, but no less than 8 KiB and no more than 16.
pub open spec fn spec_relay_buffer_size(requested: usize) -> usize {
    if requested < MIN_RELAY_BUFFER {
        MIN_RELAY_BUFFER
    } else if requested > MAX_RELAY_BUFFER {
        MAX_RELAY_BUFFER
    } else {
        requested
    }
}

/// See [`spec_relay_buffer_size`].
pub fn relay_buffer_size(requested: usize) -> (size: usize)
    ensures
        size == spec_relay_buffer_size(requested),
{
    if requested < MIN_RELAY_BUFFER {
        MIN_RELAY_BUFFER
    } else if requested > MAX_RELAY_BUFFER {
        MAX_RELAY_BUFFER
    } else {
        requested
    }
}

/// Handles Connect commands.
#[derive(Debug, Clone, Copy, PartialEq, Eq, Structural)]
pub struct ConnectProcessor {}

impl ConnectProcessor {
    /// The processor. It keeps no state.
    pub fn new() -> (p: Self)
        ensures
            p == (ConnectProcessor {  }),
    {
        ConnectProcessor {  }
    }

    /// Where the relay for `connect` goes. Unless authentication has
    /// succeeded the command is refused with `Unauthenticated`, whatever it
    /// names. Else the target is the address of the command once its name is
    /// resolved and the local-address filter has run, or `ResolutionFailed`
    /// where the address names nothing. `resolved` is the first address
    /// that the resolver gave for a domain address.
    pub fn process(
        &self,
        context: &RuntimeContext,
        connect: &Connect,
        resolved: Option<SocketAddress>,
        local_ips: &[IpAddress],
    ) -> (target: Result<SocketAddress, ErrorKind>)
        ensures
            target == spec_connect_target(context@.gate, connect@, resolved, local_ips@),
    {
        if !context.is_authenticated() {
            return Err(ErrorKind::Unauthenticated);
        }
        match connect.address().to_socket_address(resolved, local_ips) {
            Some(a) => Ok(a),
            None => Err(ErrorKind::ResolutionFailed),
        }
    }
}

/// Where the relay for `connect` goes on a connection whose authentication
/// has the outcome `gate`; see [`ConnectProcessor::process`].
pub open spec fn spec_connect_target(
    gate: Option<bool>,
    connect: ConnectView,
    resolved: Option<SocketAddress>,
    local_ips: Seq<IpAddress>,
) -> Result<SocketAddress, ErrorKind> {
    if gate != Some(true) {
        Err(ErrorKind::Unauthenticated)
    } else {
        match spec_to_socket_address(connect.address, resolved, local_ips) {
            Some(a) => Ok(a),
            None => Err(ErrorKind::ResolutionFailed),
        }
    }
}

} // verus!
