//! The error kinds of the keystore.
use vstd::prelude::*;

verus! {

/// What went wrong with a keystore request.
#[derive(Clone, Copy, Debug, PartialEq, Eq, Structural)]
pub enum LairError {
    /// Malformed request, wrong-length key, or an index out of range where one
    /// in range is required.
    BadInput,
    /// A lookup by public key, SNI or digest found no entry.
    UnknownKey,
    /// The entry could not be stored (the index space is exhausted).
    StoreWriteFailed,
    /// The system random source refused to produce bytes.
    EntropyUnavailable,
    /// The cryptographic library rejected the key material.
    KeyDerivationFailed,
    /// The client declined to give the unlock passphrase.
    PassphraseRefused,
    /// A frame or correlation-id inconsistency on the wire.
    ProtocolViolation,
}

/// Result type of keystore operations.
pub type LairResult<T> = Result<T, LairError>;

} // verus!
