//! Timestamps of the store's multi-version history, and the snapshot anchor.

use vstd::prelude::*;

verus! {

/// A point in the store's multi-version history: a (physical, logical) pair,
/// ordered first by the physical component, then by the logical one.
///
/// Timestamps are allocated by the external timestamp oracle; the core never
/// fabricates one.
#[derive(Clone, Copy, Debug, PartialEq, Eq, Structural)]
pub struct Timestamp {
    pub physical: u64,
    pub logical: u64,
}

/// The strict order on timestamps: physical first, then logical.
pub open spec fn ts_lt(a: Timestamp, b: Timestamp) -> bool {
    a.physical < b.physical || (a.physical == b.physical && a.logical < b.logical)
}

impl Timestamp {
    /// Whether this timestamp is strictly earlier than `other`.
    pub fn is_before(&self, other: &Timestamp) -> (r: bool)
        ensures
            r == ts_lt(*self, *other),
    {
        self.physical < other.physical
            || (self.physical == other.physical && self.logical < other.logical)
    }
}

/// The transaction's fixed, read-only view of the store.
///
/// It is pinned to the start timestamp: every read the transaction delegates
/// to the snapshot provider observes the store as of this timestamp.  The
/// provider that actually resolves keys against the store lives outside this
/// crate; the snapshot value itself only anchors the read view.
#[derive(Clone, Copy, Debug, PartialEq, Eq, Structural)]
pub struct Snapshot {
    pub timestamp: Timestamp,
}

} // verus!
