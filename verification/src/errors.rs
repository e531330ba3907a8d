use vstd::prelude::*;

verus! {

/// The error kinds surfaced by the sealed-credential subsystem.
///
/// `InvalidParameters` reports a derivation cost outside the supported range,
/// `AuthenticationFailure` a wrong password or tampered ciphertext,
/// `DecodeError` a malformed stored payload, and `IOFailure` a failed read or
/// write of the credential file (raised by the surrounding application code).
#[derive(Clone, Copy, Debug, PartialEq, Eq, Structural)]
pub enum CoreError {
    InvalidParameters,
    AuthenticationFailure,
    DecodeError,
    IOFailure,
}

impl CoreError {
    /// True exactly when the error is recoverable by prompting for a password.
    pub fn is_authentication_failure(&self) -> (b: bool)
        ensures
            b == (*self == CoreError::AuthenticationFailure),
    {
        matches!(*self, CoreError::AuthenticationFailure)
    }
}

} // verus!
