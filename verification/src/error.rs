//! Error taxonomy shared by the plan compiler, the maintenance plan assembler
//! and the orchestration loop.

use vstd::prelude::*;

verus! {

/// The error kinds the execution core can surface.
///
/// `Internal` is a structural error: a malformed plan reached the compiler or
/// an incomplete pipeline was produced. The four table-conflict kinds are the
/// only ones the orchestration loop may retry, and only in run-to-exhaustion
/// mode. `AbortedQuery` is a cooperative cancellation and is always fatal.
#[derive(Clone, Copy, Debug, PartialEq, Eq, Structural)]
pub enum ErrorKind {
    Internal,
    TableLockExpired,
    TableAlreadyLocked,
    TableVersionMismatched,
    UnresolvableConflict,
    TableNotWritable,
    AbortedQuery,
    StorageOther,
}

impl ErrorKind {
    /// A conflict-style error: retryable when the loop runs to exhaustion.
    pub open spec fn is_conflict(self) -> bool {
        match self {
            ErrorKind::TableLockExpired => true,
            ErrorKind::TableAlreadyLocked => true,
            ErrorKind::TableVersionMismatched => true,
            ErrorKind::UnresolvableConflict => true,
            _ => false,
        }
    }

    /// Runtime test matching `is_conflict`.
    pub fn conflict(&self) -> (r: bool)
        ensures
            r == self.is_conflict(),
    {
        match self {
            ErrorKind::TableLockExpired => true,
            ErrorKind::TableAlreadyLocked => true,
            ErrorKind::TableVersionMismatched => true,
            ErrorKind::UnresolvableConflict => true,
            _ => false,
        }
    }
}

} // verus!
