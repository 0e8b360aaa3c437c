//! What authentication needs of a transport connection.

use crate::net::SocketAddress;
use vstd::prelude::*;

verus! {

/// A transport connection, as far as authentication uses it. Nothing is
/// assumed of what an implementation returns.
pub trait AuthenticationConnection {
    /// The address of the peer.
    fn remote_address(&self) -> SocketAddress;

    /// 32 bytes of keying material of the TLS session for `label` and
    /// `context`, or `None` where the session cannot export any.
    fn export_keying_material(&self, label: &[u8], context: &[u8]) -> Option<[u8; 32]>;
}

} // verus!
