//! The failure taxonomy shared by every component of the vault.

use vstd::prelude::*;

verus! {

/// The class of a failure.
#[derive(Debug, Clone, Copy, PartialEq, Eq, Structural)]
pub enum ErrorKind {
    /// A local read or write failed.
    IOFailure,
    /// A snapshot could not be parsed or produced.
    SerializationFailure,
    /// Key derivation or authenticated decryption failed. A wrong passphrase
    /// and corrupted data are deliberately not told apart.
    CryptoFailure,
    /// The remote backend was unreachable, timed out, or answered with an
    /// error status other than "not found".
    NetworkFailure,
    /// The remote backend rejected a write because the revision it was
    /// tagged with is no longer current.
    ConflictFailure,
    /// The operation referred to a record or backend that does not exist.
    NotFoundFailure,
    /// A request asked for something that cannot be produced, such as a
    /// password from an empty set of characters.
    InvalidInput,
}

/// A failure: its class and an opaque message for the caller.
#[derive(Debug)]
pub struct VaultError {
    pub kind: ErrorKind,
    pub message: String,
}

impl VaultError {
    /// Builds a failure of class `kind` carrying `message`.
    pub fn new(kind: ErrorKind, message: &str) -> (e: VaultError)
        ensures
            e.kind == kind,
            e.message@ == message@,
    {
        VaultError { kind, message: message.to_owned() }
    }

    /// The message, as an owned string.
    pub fn to_string(&self) -> (s: String)
        ensures
            s@ == self.message@,
    {
        self.message.clone()
    }

    /// A copy of this failure.
    pub fn duplicate(&self) -> (e: VaultError)
        ensures
            e.kind == self.kind,
            e.message@ == self.message@,
    {
        VaultError { kind: self.kind, message: self.message.clone() }
    }
}

} // verus!
