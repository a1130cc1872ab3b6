//! The ways in which planning or supervising one file can fail.

use vstd::prelude::*;

verus! {

/// A failure that ends the work on the current file.
#[derive(Debug, PartialEq, Eq)]
pub enum TrimError {
    /// The two trim expressions pin the same boundary twice.
    ConflictingTrimSpec,
    /// The resolved window is empty or ends before it begins.
    ImpossibleWindow,
    /// The duration probe failed or reported no positive duration.
    DurationProbeFailed,
    /// The input path names no file with a stem and an extension.
    InvalidInputPath,
    /// The transcoder failed; the bytes are what it wrote last.
    TranscodeFailed(Vec<u8>),
    /// A stream of the transcoder could not be read or written.
    StreamIOFailure,
}

} // verus!
