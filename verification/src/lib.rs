//! Shrinks Office Open XML packages (`.docx`, `.pptx`): such a package is a
//! ZIP archive holding XML parts and embedded media.  The library rewrites the
//! archive with maximum compression, minifies the XML parts, re-encodes raster
//! images at a caller-supplied quality, and accounts for what was saved.
//!
//! The library works on in-memory byte buffers; opening files, timing and
//! presentation belong to the caller.
use vstd::prelude::*;

pub mod classify;
pub mod minify;
pub mod imaging;
pub mod pptx;
pub mod report;
pub mod ziparc;

verus! {

/// A fatal outcome of a package rewrite.  Per-image failures are not here:
/// they are recovered internally by keeping the original bytes.
#[derive(Clone, Copy, PartialEq, Eq, Structural, Debug)]
pub enum CompressError {
    /// The input file name matches neither supported container kind.
    UnsupportedContainer,
    /// The source could not be read at all (reserved for callers doing I/O).
    OpenError,
    /// The source bytes are not a readable ZIP container.
    ArchiveFormatError,
    /// A text part is not valid UTF-8.
    EncodingError,
    /// Writing an entry of the destination archive failed.
    OutputError,
    /// Closing the destination archive failed.
    FinalizeError,
}

/// A per-image outcome of re-encoding.  All of these are recovered by the
/// archive rewriter, which falls back to the original bytes.
#[derive(Clone, Copy, PartialEq, Eq, Structural, Debug)]
pub enum RecodeError {
    /// Content sniffing found no format with a re-encoding rule.
    UnsupportedFormat,
    /// The format was recognised but pixel decoding failed.
    DecodeError,
    /// Re-encoding the decoded pixels failed.
    EncodeError,
    /// The re-encoded bytes are not strictly smaller than the input.
    NoImprovement,
}

} // verus!
