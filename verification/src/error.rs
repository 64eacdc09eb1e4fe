use vstd::prelude::*;

verus! {

/// The ways in which applying a patch can fail.
///
/// Every failure is detected at the moment the offending data is used and
/// aborts the whole apply operation; no partial output is returned.
#[derive(Clone, Copy, Debug, PartialEq, Eq, Structural)]
pub enum Error {
    /// A nonsensical tuning parameter (a zero buffer size), rejected before
    /// any work is done.
    InvalidConfiguration,
    /// The patch container does not begin with the expected magic tag.
    InvalidHeader,
    /// The patch container is shorter than its header, or the declared
    /// segment lengths exceed the bytes that are actually present.
    TruncatedPatch,
    /// The control stream ends in the middle of a triple.
    TruncatedControl,
    /// A triple asks for more diff or extra bytes than its stream holds.
    StreamOverrun,
    /// A compressed segment could not be decompressed.
    CorruptStream,
    /// A triple would read source bytes past the end of the source buffer.
    SourceOverrun,
    /// A triple would read source bytes at a negative cursor position.
    InvalidSeek,
    /// The reconstructed output does not have the declared target length.
    SizeMismatch,
}

} // verus!
