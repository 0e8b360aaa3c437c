//! The authentication gate: a signal that is given once and read by many.

use vstd::prelude::*;

verus! {

/// How long a command waits at the auth gate before it gives up, in
/// milliseconds.
pub const DEFAULT_AUTH_TIMEOUT: u64 = 3000;

/// What a command that waits at the auth gate finds.
#[derive(Debug, Clone, Copy, PartialEq, Eq, Structural)]
pub enum WaitStep {
    /// Authentication has ended, with this outcome.
    Signalled(bool),
    /// Authentication has not ended and the time to wait is over.
    TimedOut,
    /// Authentication has not ended and there is time left to wait.
    Pending,
}

/// What the auth gate shows after `waited` of at most `limit` milliseconds, in
/// the state `state`: the outcome once there is one, however long it took;
/// else whether the time is over.
pub open spec fn spec_wait(state: Option<bool>, waited: u64, limit: u64) -> WaitStep {
    match state {
        Some(v) => WaitStep::Signalled(v),
        None => if waited >= limit {
            WaitStep::TimedOut
        } else {
            WaitStep::Pending
        },
    }
}

/// The state after the outcome `v` was signalled in the state `state`:
/// only the first signal counts.
pub open spec fn spec_notify(state: Option<bool>, v: bool) -> Option<bool> {
    match state {
        Some(first) => Some(first),
        None => Some(v),
    }
}

impl WaitStep {
    /// Whether a command that found this may go on: only after
    /// authentication has succeeded.
    pub open spec fn spec_admits(self) -> bool {
        self == WaitStep::Signalled(true)
    }

    /// See [`WaitStep::spec_admits`].
    #[verifier::when_used_as_spec(spec_admits)]
    pub fn admits(self) -> (r: bool)
        ensures
            r == self.spec_admits(),
    {
        match self {
            WaitStep::Signalled(v) => v,
            _ => false,
        }
    }
}

/// The auth gate. Its view is the outcome of authentication, `None` until it is
/// signalled.
#[derive(Debug)]
pub struct OneShotNotifier {
    state: Option<bool>,
}

impl View for OneShotNotifier {
    type V = Option<bool>;

    closed spec fn view(&self) -> Option<bool> {
        self.state
    }
}

impl OneShotNotifier {
    /// A gate that was not signalled yet.
    pub fn new() -> (n: Self)
        ensures
            n@ is None,
    {
        OneShotNotifier { state: None }
    }

    /// Signals the outcome `v`. Every call but the first changes nothing.
    pub fn notify(&mut self, v: bool)
        ensures
            final(self)@ == spec_notify(old(self)@, v),
    {
        if self.state.is_none() {
            self.state = Some(v);
        }
    }

    /// The outcome, once there is one.
    pub fn wait(&self) -> (r: Option<bool>)
        ensures
            r == self@,
    {
        self.state
    }

    /// What a command finds that has waited `waited` of at most `dur`
    /// milliseconds; see [`spec_wait`].
    pub fn wait_timeout(&self, waited: u64, dur: u64) -> (r: WaitStep)
        ensures
            r == spec_wait(self@, waited, dur),
    {
        match self.state {
            Some(v) => WaitStep::Signalled(v),
            None => if waited >= dur {
                WaitStep::TimedOut
            } else {
                WaitStep::Pending
            },
        }
    }
}

/// A signal is given once: after the first, no later signal changes the
/// outcome, and every reader finds the first outcome however long it
/// waited.
pub proof fn lemma_signal_once(state: Option<bool>, first: bool, second: bool, waited: u64, limit: u64)
    ensures
        spec_notify(spec_notify(state, first), second) == spec_notify(state, first),
        state is None ==> spec_wait(spec_notify(state, first), waited, limit) == WaitStep::Signalled(
            first,
        ),
        spec_wait(None, waited, limit).spec_admits() == false,
{
}

} // verus!
