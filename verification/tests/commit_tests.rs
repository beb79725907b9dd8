//! Two-phase commit: primary selection, phase order, asymmetric failure
//! semantics.

use txn_core::CommitState;
use txn_core::CommitCoordinator;
use txn_core::Error;
use txn_core::Key;
use txn_core::Mutation;
use txn_core::PrewriteOutcome;
use txn_core::PrimaryCommitOutcome;
use txn_core::Snapshot;
use txn_core::Timestamp;
use txn_core::Transaction;
use txn_core::Value;

fn mock_txn() -> Transaction {
    let snapshot = Snapshot {
        timestamp: Timestamp {
            physical: 0,
            logical: 0,
        },
    };
    Transaction::new(snapshot)
}

fn key(bytes: &[u8]) -> Key {
    Key::from(bytes.to_vec())
}

fn value(bytes: &[u8]) -> Value {
    Value::from(bytes.to_vec())
}

fn commit_ts() -> Timestamp {
    Timestamp {
        physical: 1,
        logical: 0,
    }
}

/// Mutations on ["b", "a", "c"]: the coordinator selects "a" (the lowest
/// key) as primary, prewrites all three, commits the primary, and stays
/// committed even when every secondary commit fails.
#[test]
fn commit_walks_phases_with_lowest_key_as_primary() {
    let mut txn = mock_txn();
    txn.set(key(b"b"), value(b"1"));
    txn.set(key(b"a"), value(b"2"));
    txn.set(key(b"c"), value(b"3"));

    let mut coordinator = CommitCoordinator::begin(txn);
    assert_eq!(coordinator.state(), CommitState::Active);

    let prewrite = coordinator.prewrite_request().unwrap();
    assert_eq!(coordinator.state(), CommitState::Prewriting);
    assert_eq!(prewrite.primary, key(b"a"));
    assert_eq!(
        prewrite.start_ts,
        Timestamp {
            physical: 0,
            logical: 0
        }
    );
    assert_eq!(prewrite.mutations.len(), 3);
    let keys: Vec<Key> = prewrite.mutations.iter().map(|m| m.key.clone()).collect();
    assert_eq!(keys, vec![key(b"a"), key(b"b"), key(b"c")]);
    assert!(prewrite
        .mutations
        .iter()
        .all(|m| matches!(m.mutation, Mutation::Put(_))));

    coordinator.prewrite_succeeded();
    assert_eq!(coordinator.state(), CommitState::PrimaryCommitting);

    let primary_req = coordinator.primary_commit_request(commit_ts());
    assert_eq!(primary_req.key, key(b"a"));
    assert!(primary_req.is_primary);
    assert_eq!(primary_req.commit_ts, commit_ts());

    let secondary_reqs = coordinator.primary_committed();
    assert_eq!(coordinator.state(), CommitState::SecondaryCommitting);
    let secondary_keys: Vec<Key> = secondary_reqs.iter().map(|r| r.key.clone()).collect();
    assert_eq!(secondary_keys, vec![key(b"b"), key(b"c")]);
    assert!(secondary_reqs.iter().all(|r| !r.is_primary));
    assert!(secondary_reqs.iter().all(|r| r.commit_ts == commit_ts()));

    // Both secondaries fail; the transaction is committed regardless.
    coordinator.secondaries_finished(&vec![false, false]);
    assert_eq!(coordinator.state(), CommitState::Committed);
}

#[test]
fn commit_succeeds_despite_secondary_failures() {
    let mut txn = mock_txn();
    txn.set(key(b"b"), value(b"1"));
    txn.set(key(b"a"), value(b"2"));
    txn.set(key(b"c"), value(b"3"));
    let r = txn.commit(
        PrewriteOutcome::Succeeded,
        commit_ts(),
        PrimaryCommitOutcome::Succeeded,
        &vec![false, false],
    );
    assert_eq!(r, Ok(()));
}

/// A conflict on any key aborts the whole transaction: `commit` reports
/// `ConflictError` and nothing was ever applied (all mutations stayed in the
/// local buffer; no request past the prewrite is issued).
#[test]
fn prewrite_conflict_aborts_whole_transaction() {
    let mut txn = mock_txn();
    txn.set(key(b"k1"), value(b"v1"));
    txn.set(key(b"k2"), value(b"v2"));
    let r = txn.commit(
        PrewriteOutcome::Conflicted,
        commit_ts(),
        PrimaryCommitOutcome::Succeeded,
        &vec![],
    );
    assert_eq!(r, Err(Error::ConflictError));
}

#[test]
fn prewrite_conflict_moves_coordinator_to_aborted() {
    let mut txn = mock_txn();
    txn.set(key(b"k"), value(b"v"));
    let mut coordinator = CommitCoordinator::begin(txn);
    let _ = coordinator.prewrite_request().unwrap();
    let e = coordinator.prewrite_conflicted();
    assert_eq!(e, Error::ConflictError);
    assert_eq!(coordinator.state(), CommitState::Aborted);
}

#[test]
fn primary_commit_failure_is_distinguished() {
    let mut txn = mock_txn();
    txn.set(key(b"k"), value(b"v"));
    let r = txn.commit(
        PrewriteOutcome::Succeeded,
        commit_ts(),
        PrimaryCommitOutcome::Failed,
        &vec![],
    );
    assert_eq!(r, Err(Error::PrimaryCommitError));
}

#[test]
fn empty_transaction_commits_trivially() {
    let txn = mock_txn();
    let r = txn.commit(
        PrewriteOutcome::Conflicted,
        commit_ts(),
        PrimaryCommitOutcome::Failed,
        &vec![],
    );
    assert_eq!(r, Ok(()));

    let txn = mock_txn();
    let mut coordinator = CommitCoordinator::begin(txn);
    assert!(coordinator.prewrite_request().is_none());
    assert_eq!(coordinator.state(), CommitState::Committed);
}

/// Byte-lexicographic order puts a proper prefix first, so "a" beats "ab"
/// for primary selection, and the empty key beats everything.
#[test]
fn primary_selection_respects_lexicographic_order() {
    let mut txn = mock_txn();
    txn.set(key(b"ab"), value(b"1"));
    txn.set(key(b"a"), value(b"2"));
    let mut coordinator = CommitCoordinator::begin(txn);
    let prewrite = coordinator.prewrite_request().unwrap();
    assert_eq!(prewrite.primary, key(b"a"));

    let mut txn = mock_txn();
    txn.set(key(b"a"), value(b"1"));
    txn.set(key(b""), value(b"2"));
    let mut coordinator = CommitCoordinator::begin(txn);
    let prewrite = coordinator.prewrite_request().unwrap();
    assert_eq!(prewrite.primary, key(b""));
}

/// Locks participate in prewrite exactly like writes: they must be visible
/// to conflict detection on the store side.
#[test]
fn locks_participate_in_prewrite() {
    let mut txn = mock_txn();
    txn.set(key(b"b"), value(b"1"));
    txn.lock_keys(vec![key(b"a")]);
    let mut coordinator = CommitCoordinator::begin(txn);
    let prewrite = coordinator.prewrite_request().unwrap();
    assert_eq!(prewrite.mutations.len(), 2);
    assert_eq!(prewrite.primary, key(b"a"));
    assert!(matches!(prewrite.mutations[0].mutation, Mutation::Lock));
    assert!(matches!(prewrite.mutations[1].mutation, Mutation::Put(_)));
}
