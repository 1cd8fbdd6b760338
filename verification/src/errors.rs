//! The error taxonomy of the update pipeline.

use vstd::prelude::*;

verus! {

/// Every failure the pipeline can surface. Each component returns the kind
/// that describes its own failure; the orchestrator forwards kinds verbatim.
#[derive(Clone, Copy, Debug, PartialEq, Eq, Structural)]
pub enum UpdateError {
    /// A version string does not parse as dot-separated non-negative
    /// integers with an optional pre-release suffix.
    InvalidVersion,
    /// The transport failed while fetching the manifest or an asset.
    NetworkError,
    /// The fetched release manifest is not well formed.
    ManifestParseError,
    /// No asset in the manifest matches the running platform.
    NoMatchingAsset,
    /// Writing the artifact to local storage failed.
    DiskWriteError,
    /// The downloaded byte count disagrees with the announced size.
    SizeMismatch,
    /// The artifact's signature is missing, malformed, or does not match
    /// the trusted key.
    SignatureInvalid,
    /// A second `apply` was requested while one is already in flight.
    UpdateInProgress,
    /// The caller cancelled the in-flight `apply`.
    Cancelled,
}

/// The retry policy: only a transport failure during `check` may be
/// retried, and only once. `SignatureInvalid` and `NoMatchingAsset` are
/// never retried — retrying cannot change their outcome — and a transport
/// failure during `apply` needs an explicit user-triggered retry.
pub open spec fn spec_retry_allowed(e: UpdateError, during_check: bool, attempts_made: u64) -> bool {
    e == UpdateError::NetworkError && during_check && attempts_made < 1
}

impl UpdateError {
    /// Decides whether a failed operation may be retried automatically:
    /// exactly one retry, and only for a transport failure during
    /// `check`.
    pub fn retry_allowed(&self, during_check: bool, attempts_made: u64) -> (r: bool)
        ensures
            r == spec_retry_allowed(*self, during_check, attempts_made),
    {
        match self {
            UpdateError::NetworkError => during_check && attempts_made < 1,
            _ => false,
        }
    }

    /// A short human-readable description of the failure kind.
    pub fn describe(&self) -> &'static str {
        match self {
            UpdateError::InvalidVersion => "version string is malformed",
            UpdateError::NetworkError => "network transport failed",
            UpdateError::ManifestParseError => "release manifest is malformed",
            UpdateError::NoMatchingAsset => "no asset matches this platform",
            UpdateError::DiskWriteError => "writing the artifact failed",
            UpdateError::SizeMismatch => "downloaded size disagrees with the announced size",
            UpdateError::SignatureInvalid => "artifact signature is missing or does not match the trusted key",
            UpdateError::UpdateInProgress => "an update is already being applied",
            UpdateError::Cancelled => "the update was cancelled",
        }
    }
}

} // verus!
