//! Errors raised while reading an archive.
use vstd::prelude::*;

verus! {

/// A format feature that is recognised but deliberately not supported.
#[derive(Debug, Clone, Copy, PartialEq, Eq, Structural)]
pub enum Feature {
    /// Archives spread over several disks or volumes.
    SpannedArchive,
}

impl Feature {
    /// A human-readable name of the feature.
    pub fn name(&self) -> (r: &'static str)
        ensures
            r@ == "Spanned/split files"@,
    {
        match self {
            Feature::SpannedArchive => "Spanned/split files",
        }
    }
}

/// Why reading an archive failed.
#[derive(Debug, Clone, Copy, PartialEq, Eq, Structural)]
pub enum ZipError {
    /// A record's signature was absent: the value found, then the one expected.
    UnexpectedHeaderError(u32, u32),
    /// The archive uses a feature this reader does not support.
    FeatureNotSupported(Feature),
    /// A directory entry names a compression method that is not known.
    UnsupportedCompressionError(u16),
    /// An entry was requested by an index past the end of the directory.
    EntryIndexOutOfBounds,
    /// The bytes ended inside a record or one of its fields.
    UnexpectedEof,
    /// A name or comment is not valid UTF-8.
    InvalidText,
}

} // verus!
