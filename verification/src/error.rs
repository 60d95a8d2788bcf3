//! What can go wrong.

use vstd::prelude::*;

verus! {

/// Why a conversion failed. Every failure ends the conversion.
#[derive(Clone, Copy, Debug, PartialEq, Eq, Structural)]
pub enum ConvertError {
    /// The type set holds no kind: neither the caller nor detection told one.
    UnresolvedType,
    /// The input is corrupt, truncated or not of the format it was taken for.
    Decode,
    /// The output could not be written.
    Io,
    /// The zip entry of this index carries no unix permissions.
    Metadata { entry: usize },
}

/// Why the two paths of an invocation are refused.
#[derive(Clone, Copy, Debug, PartialEq, Eq, Structural)]
pub enum PathError {
    /// The source is missing or is no file.
    SourceMissing,
    /// The destination exists and overwriting was not allowed.
    DestinationExists,
}

} // verus!
