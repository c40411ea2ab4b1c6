//! The ways in which a request can fail.

use vstd::prelude::*;

verus! {

/// Every failure is final where it is found; none is retried except a
/// mistyped password, which the authentication loop bounds.
#[derive(Clone, Copy, Debug, PartialEq, Eq, Structural)]
pub enum Failure {
    /// Bad or missing command-line arguments, or no command given.
    UsageError,
    /// The requested command is in no directory of the search path.
    CommandNotFound,
    /// There is no policy document.
    ConfigNotFound,
    /// The policy document is not well-formed markup.
    ConfigParseError,
    /// A policy entry that should list commands has another shape.
    MalformedPolicy,
    /// The policy does not grant the request.
    PermissionDenied,
    /// The identity database has no record of the user.
    UnknownIdentity,
    /// The credential database has no record of the user.
    NoSuchCredential,
    /// The record of the user lacks a field, or a field cannot be read.
    MalformedRecord,
    /// The credential is tagged with an algorithm other than the supported ones.
    UnsupportedAlgorithm,
    /// Every password attempt was used up.
    AuthenticationFailed,
    /// The identity could not be changed, or the command could not be started.
    TransitionFailed,
}

impl Failure {
    /// The status with which a process that met this failure exits.
    pub open spec fn spec_exit_code(self) -> i32 {
        1
    }

    /// The status with which a process that met this failure exits.
    #[verifier::when_used_as_spec(spec_exit_code)]
    pub fn exit_code(self) -> (code: i32)
        ensures
            code == self.spec_exit_code(),
            code != 0,
    {
        1
    }
}

} // verus!
