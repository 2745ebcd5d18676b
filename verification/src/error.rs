use vstd::prelude::*;

verus! {

/// Failure taxonomy shared by every operation of the crate.
///
/// "Rotation not due" is deliberately not an error: it is reported as the
/// absence of a rotation event, never as one of these variants.
#[derive(Clone, Copy, Debug, PartialEq, Eq)]
pub enum PqcError {
    /// Malformed, empty or zero-length input to an operation.
    InvalidInput(&'static str),
    /// A signature was checked and did not match.
    VerifyFailed,
    /// Fewer valid shares were supplied than reconstruction requires.
    InsufficientShares,
    /// Two shares in one combine call carry the same share index.
    DuplicateShareIndex,
    /// Shares in one combine call disagree on key identity metadata.
    ShareMismatch,
}

/// Result alias used by every fallible operation of the crate.
pub type PqcResult<T> = Result<T, PqcError>;

} // verus!
