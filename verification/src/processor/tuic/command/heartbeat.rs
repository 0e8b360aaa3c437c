//! Heartbeat: nothing to do.

use crate::processor::tuic::command::ErrorKind;
use crate::processor::tuic::context::RuntimeContext;
use crate::protocol::tuic::command::heartbeat::Heartbeat;
use vstd::prelude::*;

verus! {

/// Handles Heartbeat commands.
#[derive(Debug, Clone, Copy, PartialEq, Eq, Structural)]
pub struct HeartbeatProcessor {}

impl HeartbeatProcessor {
    /// The processor. It keeps no state.
    pub fn new() -> (p: Self)
        ensures
            p == (HeartbeatProcessor {  }),
    {
        HeartbeatProcessor {  }
    }

    /// Observes `heartbeat`. Unless authentication has succeeded the
    /// heartbeat is refused. Else the answer says that it was taken; a
    /// heartbeat is never answered and changes nothing.
    pub fn process(&self, context: &RuntimeContext, heartbeat: &Heartbeat) -> (taken: Result<
        bool,
        ErrorKind,
    >)
        ensures
            taken == (if context@.gate == Some(true) {
                Ok::<bool, ErrorKind>(true)
            } else {
                Err::<bool, ErrorKind>(ErrorKind::Unauthenticated)
            }),
    {
        if context.is_authenticated() {
            Ok(true)
        } else {
            Err(ErrorKind::Unauthenticated)
        }
    }
}

} // verus!
