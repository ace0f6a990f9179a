//! The ways in which the library's operations fail.

use vstd::prelude::*;

verus! {

/// A failure of one of the library's operations.
#[derive(Clone, Copy, Debug, PartialEq, Eq, Structural)]
pub enum FdepError {
    /// The current directory was needed to locate the package but could not be read.
    CurrentDirUnavailable,
    /// A package's manifest path has no parent directory.
    ManifestWithoutParent,
    /// The arguments meant for fdep could not be encoded as JSON.
    SerializeArgs,
    /// The JSON that should carry the arguments meant for fdep could not be decoded.
    DeserializeArgs,
}

} // verus!
