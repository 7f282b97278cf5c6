//! Error taxonomy of the track session core.

use vstd::prelude::*;

verus! {

/// Caller-visible failure of a registry operation.
///
/// Any acquisition-time failure (metadata, availability, format, IO) is
/// collapsed into the single `LoadFailed` category; the root cause is
/// diagnosed internally as an [`AcquireError`] but is not part of the
/// external contract.
#[derive(Clone, Copy, Debug, PartialEq, Eq, Structural)]
pub enum TrackError {
    /// An operation was attempted on an id that is not registered.
    NotOpen,
    /// Acquisition of an absent track failed, whatever the internal reason.
    LoadFailed,
    /// A read on an already-open stream failed.
    IoError,
}

/// Internal diagnosis of an acquisition failure.
#[derive(Clone, Copy, Debug, PartialEq, Eq, Structural)]
pub enum AcquireError {
    /// Metadata for the id could not be resolved.
    MetadataError,
    /// The track and all of its alternatives are unavailable.
    Unavailable,
    /// None of the offered encodings is supported.
    UnsupportedFormat,
    /// Fetching or windowing the content stream failed.
    IoError,
}

/// Failure of a raw stream operation.
#[derive(Clone, Copy, Debug, PartialEq, Eq, Structural)]
pub enum StreamError {
    /// The underlying transport failed to produce bytes.
    Io,
    /// A seek target fell outside the addressable range.
    InvalidSeek,
}

} // verus!
