//! Authenticate: derive the token that the client should have sent and
//! compare.

use crate::authenticate::connection::AuthenticationConnection;
use crate::authenticate::tuic::{
    exporter_label, spec_begin, spec_finish, AuthError, AuthView, TuicAuthenticationManager,
};
use crate::protocol::tuic::command::authenticate::Authenticate;
use vstd::prelude::*;

verus! {

/// Handles Authenticate commands.
pub struct AuthenticateProcessor {
    pub authenticate_manager: TuicAuthenticationManager,
}

impl AuthenticateProcessor {
    /// A processor that authenticates against `authenticate_manager`.
    pub fn new(authenticate_manager: TuicAuthenticationManager) -> (p: Self)
        ensures
            p.authenticate_manager == authenticate_manager,
    {
        Self { authenticate_manager }
    }

    /// Authenticates `connection` with `authenticate` at time `now`.
    ///
    /// A user that is unknown or shut out is refused before anything is
    /// asked of the connection, and the manager stays as it is. Else the
    /// connection is asked for keying material under the user id as label
    /// and the password as context, and the manager compares and keeps
    /// count: whatever the connection derived, manager and answer are what
    /// [`spec_finish`] says of it.
    pub fn verify<C: AuthenticationConnection>(
        &mut self,
        authenticate: &Authenticate,
        connection: &C,
        now: u64,
    ) -> (r: Result<bool, AuthError>)
        ensures
            r != Ok::<bool, AuthError>(false),
            match spec_begin(old(self).authenticate_manager@, authenticate.uuid, now) {
                Err(e) => r == Err::<bool, AuthError>(e) && final(self).authenticate_manager@
                    == old(self).authenticate_manager@,
                Ok(_) => exists|derived: Option<Seq<u8>>|
                    spec_verified(
                        old(self).authenticate_manager@,
                        final(self).authenticate_manager@,
                        authenticate@,
                        #[trigger] spec_some_token(derived),
                        now,
                        r,
                    ),
            },
    {
        let uuid: u128 = authenticate.uuid();
        let derived: Option<[u8; 32]> = match self.authenticate_manager.begin(uuid, now) {
            Err(e) => {
                return Err(e);
            },
            Ok(password) => {
                let label: Vec<u8> = exporter_label(uuid);
                connection.export_keying_material(label.as_slice(), password.as_slice())
            },
        };
        let ghost token: Option<Seq<u8>> = match derived {
            Some(t) => Some(t@),
            None => None,
        };
        let r = self.authenticate_manager.finish(authenticate, derived, now);
        let answer: Result<bool, AuthError> = match r {
            Ok(()) => Ok(true),
            Err(e) => Err(e),
        };
        assert(spec_verified(
            old(self).authenticate_manager@,
            self.authenticate_manager@,
            authenticate@,
            spec_some_token(token),
            now,
            answer,
        ));
        answer
    }
}

/// What the connection derived: a name for the one thing that
/// [`AuthenticateProcessor::verify`] leaves open.
pub open spec fn spec_some_token(derived: Option<Seq<u8>>) -> Option<Seq<u8>> {
    derived
}

/// Whether the manager `after` and the answer `answer` are what the second
/// half of authentication makes of the manager `before` when the
/// connection derived `derived`.
pub open spec fn spec_verified(
    before: AuthView,
    after: AuthView,
    command: crate::protocol::tuic::command::authenticate::AuthenticateView,
    derived: Option<Seq<u8>>,
    now: u64,
    answer: Result<bool, AuthError>,
) -> bool {
    let (next, outcome) = spec_finish(before, command, derived, now);
    &&& after == next
    &&& answer == match outcome {
        Ok(_) => Ok::<bool, AuthError>(true),
        Err(e) => Err::<bool, AuthError>(e),
    }
}

} // verus!
