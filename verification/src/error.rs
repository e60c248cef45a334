//! The library's error taxonomy.

use vstd::prelude::*;

verus! {

/// The shape mismatch behind an `Error::InvalidOperation`: we only record
/// the first object; the second object is assumed to be of the opposite kind.
#[derive(Clone, Copy, Debug, PartialEq, Eq, Structural)]
pub enum OperationKind {
    /// A tree root was compared against its own ancestor or descendant.
    Child,
    /// A directory was compared against a non-directory.
    Dir,
    /// A file was compared against a non-file.
    File,
    /// A hash was asserted against a non-file.
    Hash,
    /// A hash was requested of something that is not a file.
    HashDir,
}

/// `std::io::Error` is carried through library results so the caller keeps
/// the original OS-level cause of a failed read.
#[verifier::external_type_specification]
#[verifier::external_body]
pub struct ExIoError(std::io::Error);

#[derive(Debug)]
pub enum Error {
    /// A category mismatch between the two objects of an operation.
    InvalidOperation(OperationKind),
    /// An underlying read failed; the OS-level cause is preserved.
    Io(std::io::Error),
    /// An algorithm token matched no known member.
    UnknownAlgorithm(String),
    /// The algorithm is recognized but has no manifest-verification support.
    UnsupportedAlgorithm(crate::alg::Algorithm),
    /// A manifest file could not be parsed.
    HashFile,
}

} // verus!
