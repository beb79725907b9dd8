//! Client-side engine for optimistic, snapshot-isolated transactions against a
//! multi-versioned key-value store.
//!
//! A transaction buffers reads, writes, deletes and explicit locks against a
//! consistent point-in-time view anchored by a snapshot timestamp.  Reads are
//! answered from the local mutation buffer whenever it determines the value
//! (read-your-own-writes); only undetermined keys are handed to the snapshot
//! provider.  `commit` drains the buffer through a two-phase (prewrite /
//! commit-primary / commit-secondary) state machine with a deterministically
//! selected primary key as the atomicity anchor.
//!
//! Network-bound work (snapshot reads, the prewrite and commit requests) is
//! performed by the surrounding driver; this crate computes the requests and
//! consumes their outcomes, so every decision the protocol makes is verified.

pub mod kv;
pub mod timestamp;
pub mod mutation;
pub mod error;
pub mod buffer;
pub mod transaction;
pub mod reads;
pub mod commit;

pub use kv::Key;
pub use kv::Value;
pub use timestamp::Timestamp;
pub use timestamp::Snapshot;
pub use mutation::Mutation;
pub use mutation::MutationValue;
pub use error::Error;
pub use buffer::MutationBuffer;
pub use transaction::Transaction;
pub use reads::BatchGetPlan;
pub use commit::CommitCoordinator;
pub use commit::CommitState;
pub use commit::KeyMutation;
pub use commit::PrewriteRequest;
pub use commit::CommitRequest;
pub use commit::PrewriteOutcome;
pub use commit::PrimaryCommitOutcome;
