//! Failures of calls that never reach verification.

use vstd::prelude::*;

verus! {

/// What went wrong in a call that never reached verification.
#[derive(Clone, Copy, PartialEq, Eq, Structural, Debug)]
pub enum ErrorReason {
    /// A host name holds a NUL byte before its last byte.
    InvalidHostName,
    /// A lookup location with an empty name.
    InvalidDirectory,
    /// An IP address is neither 4 nor 16 bytes long.
    InvalidIpLength,
    /// A signing key does not belong to the signing certificate.
    KeyCertMismatch,
    /// A message to sign or verify has no content where content is needed.
    NoContent,
    /// A message carries no signer information.
    NoSigners,
}

/// A failure of a call itself, as opposed to a verification outcome.
#[derive(Clone, Copy, PartialEq, Eq, Structural, Debug)]
pub struct ErrorStack {
    pub reason: ErrorReason,
}

impl ErrorStack {
    pub fn new(reason: ErrorReason) -> (r: ErrorStack)
        ensures
            r.reason == reason,
    {
        ErrorStack { reason }
    }
}

} // verus!
