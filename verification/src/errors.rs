//! Error taxonomy of the convergence checks.

use vstd::prelude::*;

verus! {

/// Terminal failures a caller can observe.
///
/// Transient conditions (a not-yet-propagated download, an index that has
/// not been regenerated) are never represented here: a probe absorbs them
/// as a retry, and they surface only as a timeout — a
/// `ContentNotAvailable` without an underlying cause — when the deadline
/// elapses first.
#[derive(Clone, Debug)]
pub enum BintrayError {
    /// The service answered an API call with an error message of its own.
    BintrayApiError { message: Vec<u8> },
    /// The resource's current state must be fetched before this call.
    CallGetFirst,
    /// Terminal failure of a poll. With a cause attached: the transport
    /// failed and the poll settled fatally on it. Without one: the overall
    /// deadline elapsed before any probe settled.
    ContentNotAvailable { transport_error: Option<Vec<u8>> },
    /// A probe answered with an HTTP status outside the recognized
    /// success and not-yet-available sets; fatal.
    UnexpectedStatus { status: u16, body: Vec<u8> },
    /// The service reported the content available without returning its
    /// checksum, and the caller supplied none to compare against.
    ContentChecksumNotReturned,
    /// An indexation wait needs the content's checksum populated before
    /// any polling starts.
    ContentChecksumRequired,
    /// Indexation waits apply only to Debian and RPM repositories.
    OnlyForIndexedPackages,
    /// The RPM index reports its package checksums in an algorithm this
    /// client cannot verify.
    RpmRepoChecksumUnsupported,
}

} // verus!
