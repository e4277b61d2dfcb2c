//! Failures of the snapshot lifecycle.

use vstd::prelude::*;

verus! {

/// What can go wrong while a snapshot is generated, moved or applied.
#[derive(Clone, Copy, Debug, PartialEq, Eq, Structural)]
pub enum SnapError {
    /// The target index was superseded before the work finished.
    Canceled,
    /// A transfer ran past its deadline.
    SendTimeout,
    /// The transport kept failing until no attempt was left.
    SendFailed,
    /// Received bytes do not match the declared checksum.
    Corrupted,
    /// The receive limit is exhausted; the caller parks and retries.
    AdmissionRejected,
    /// The storage engine refused the ingestion.
    ApplyFailed,
    /// The stream repeats a snapshot that is already known: harmless, the
    /// receiver discards the stream without failing.
    StaleDuplicate,
    /// A live entry with the same key is registered.
    AlreadyExists,
    /// The entry is absent, is not in the expected state, or the lifecycle has no such edge.
    InvalidTransition,
    /// No entry with that key is registered.
    NotFound,
    /// The entry has no holder left to release.
    NotHeld,
    /// The entry cannot take one more holder.
    TooManyHolders,
}

impl SnapError {
    /// Conditions that are handled by starting generation or transfer over.
    pub open spec fn spec_is_recoverable(self) -> bool {
        self == SnapError::Canceled || self == SnapError::AdmissionRejected || self
            == SnapError::SendTimeout || self == SnapError::SendFailed || self
            == SnapError::Corrupted
    }

    #[verifier::when_used_as_spec(spec_is_recoverable)]
    pub fn is_recoverable(self) -> (b: bool)
        ensures
            b == self.spec_is_recoverable(),
    {
        match self {
            SnapError::Canceled
            | SnapError::AdmissionRejected
            | SnapError::SendTimeout
            | SnapError::SendFailed
            | SnapError::Corrupted => true,
            _ => false,
        }
    }
}

} // verus!
