//! The error kinds the transaction core can surface.

use vstd::prelude::*;

verus! {

/// What can go wrong while reading through or committing a transaction.
///
/// - `StorageError`: a snapshot read failed remotely; surfaced as-is to the
///   caller of the read.
/// - `ConflictError`: prewrite found a competing write or an incompatible
///   lock; the whole transaction aborts and nothing becomes visible.
/// - `PrimaryCommitError`: the commit of the primary key failed after a
///   successful prewrite; prewritten locks may be orphaned in the store, so
///   this must never be swallowed.
/// - `InternalConsistencyFault`: the snapshot's batched read returned more or
///   fewer results than the undetermined keys submitted; a programming
///   contract violation, not retryable.
///
/// Failures of secondary commits are swallowed by design (the primary's
/// outcome alone defines the transaction's result), so no kind exists for
/// them.
#[derive(Clone, Copy, Debug, PartialEq, Eq, Structural)]
pub enum Error {
    StorageError,
    ConflictError,
    PrimaryCommitError,
    InternalConsistencyFault,
}

} // verus!
