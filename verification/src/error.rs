use vstd::prelude::*;

verus! {

/// The failures a bucket operation can surface.
///
/// Key absence and a failed conditional are *not* errors: a get on a missing
/// key returns `None`, and a get whose conditional fails returns an object
/// with no body.
#[derive(Debug, Clone, Copy, PartialEq, Eq, Structural)]
pub enum Error {
    /// A body stream was requested a second time from the same body handle.
    BodyAlreadyConsumed,
    /// A byte range did not resolve to exactly one canonical form.
    InvalidRange,
    /// A checksum supplied with a put disagreed with the stored content's
    /// computed hash; the write was not committed.
    IntegrityMismatch,
    /// The chunk source of a streamed upload failed mid-transfer; the write
    /// was aborted before commit.
    StreamFailure,
    /// An opaque failure of the transport under an adapter that drives this
    /// client against a remote store.  The in-memory model never produces it.
    TransportError,
}

} // verus!
