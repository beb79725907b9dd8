//! Buffered reads: read-your-own-writes, deletes, locks, and batched
//! reassembly in request order.

use txn_core::Error;
use txn_core::Key;
use txn_core::Mutation;
use txn_core::MutationValue;
use txn_core::Snapshot;
use txn_core::Timestamp;
use txn_core::Transaction;
use txn_core::Value;

fn mock_txn() -> Transaction {
    let snapshot = Snapshot {
        timestamp: Timestamp {
            physical: 0,
            logical: 0,
        },
    };
    Transaction::new(snapshot)
}

fn key(bytes: &[u8]) -> Key {
    Key::from(bytes.to_vec())
}

fn value(bytes: &[u8]) -> Value {
    Value::from(bytes.to_vec())
}

/// A reply standing in for a snapshot that must not be consulted: if the
/// result ever depends on it, the read errors out visibly.
fn poisoned_reply() -> Result<Option<Value>, Error> {
    Err(Error::StorageError)
}

#[test]
fn set_and_get_from_buffer() {
    let mut txn = mock_txn();
    txn.set(key(b"key1"), value(b"value1"));
    txn.set(key(b"key2"), value(b"value2"));
    assert_eq!(
        txn.get_from_mutations(&key(b"key1"))
            .resolve(poisoned_reply())
            .unwrap()
            .unwrap(),
        b"value1".to_vec().into()
    );

    txn.delete(key(b"key2"));
    txn.set(key(b"key1"), value(b"value"));
    let plan = txn.batch_get_plan(&vec![key(b"key2"), key(b"key1")]);
    assert_eq!(
        plan.merge(Ok(vec![])).unwrap(),
        vec![
            (Key::from(b"key2".to_vec()), None),
            (
                Key::from(b"key1".to_vec()),
                Some(Value::from(b"value".to_vec()))
            ),
        ]
    );
}

#[test]
fn get_after_set_never_touches_snapshot() {
    let mut txn = mock_txn();
    txn.set(key(b"key1"), value(b"value1"));
    txn.set(key(b"key2"), value(b"value2"));
    let r = txn.get_from_mutations(&key(b"key1")).resolve(poisoned_reply());
    assert_eq!(r.unwrap(), Some(value(b"value1")));
}

#[test]
fn get_after_delete_never_touches_snapshot() {
    let mut txn = mock_txn();
    txn.set(key(b"k"), value(b"v"));
    txn.delete(key(b"k"));
    let r = txn.get_from_mutations(&key(b"k")).resolve(poisoned_reply());
    assert_eq!(r.unwrap(), None);
}

#[test]
fn get_without_mutation_reads_snapshot_value() {
    let txn = mock_txn();
    let projected = txn.get_from_mutations(&key(b"missing"));
    assert!(matches!(projected, MutationValue::Undetermined));
    let r = projected.resolve(Ok(Some(value(b"from-snapshot"))));
    assert_eq!(r.unwrap(), Some(value(b"from-snapshot")));
}

#[test]
fn get_without_mutation_propagates_storage_error() {
    let txn = mock_txn();
    let r = txn
        .get_from_mutations(&key(b"missing"))
        .resolve(Err(Error::StorageError));
    assert_eq!(r, Err(Error::StorageError));
}

#[test]
fn lock_never_determines_a_value() {
    let mut txn = mock_txn();
    txn.lock_keys(vec![key(b"k")]);
    let projected = txn.get_from_mutations(&key(b"k"));
    assert!(matches!(projected, MutationValue::Undetermined));
    let r = projected.resolve(Ok(Some(value(b"stored"))));
    assert_eq!(r.unwrap(), Some(value(b"stored")));
}

#[test]
fn lock_is_non_destructive() {
    let mut txn = mock_txn();
    txn.set(key(b"k"), value(b"v"));
    txn.lock_keys(vec![key(b"k")]);
    let r = txn.get_from_mutations(&key(b"k")).resolve(poisoned_reply());
    assert_eq!(r.unwrap(), Some(value(b"v")));
}

#[test]
fn lock_keys_handles_duplicates() {
    let mut txn = mock_txn();
    txn.lock_keys(vec![key(b"k"), key(b"k")]);
    assert!(matches!(
        txn.get_from_mutations(&key(b"k")),
        MutationValue::Undetermined
    ));
}

#[test]
fn batch_get_keeps_input_order_with_duplicates() {
    let mut txn = mock_txn();
    txn.set(key(b"a"), value(b"1"));
    let keys = vec![key(b"b"), key(b"a"), key(b"b")];
    let plan = txn.batch_get_plan(&keys);
    assert_eq!(plan.undetermined, vec![key(b"b"), key(b"b")]);
    let replies = vec![
        (key(b"b"), Some(value(b"x"))),
        (key(b"b"), None),
    ];
    let out = plan.merge(Ok(replies)).unwrap();
    assert_eq!(
        out,
        vec![
            (key(b"b"), Some(value(b"x"))),
            (key(b"a"), Some(value(b"1"))),
            (key(b"b"), None),
        ]
    );
}

#[test]
fn batch_get_miscounted_replies_fail_fast() {
    let mut txn = mock_txn();
    txn.set(key(b"a"), value(b"1"));
    let plan = txn.batch_get_plan(&vec![key(b"a"), key(b"b")]);
    // One undetermined key, two replies: the snapshot broke its contract.
    let out = plan.merge(Ok(vec![
        (key(b"b"), None),
        (key(b"b"), None),
    ]));
    assert_eq!(out, Err(Error::InternalConsistencyFault));
}

#[test]
fn batch_get_propagates_storage_error() {
    let txn = mock_txn();
    let plan = txn.batch_get_plan(&vec![key(b"a")]);
    let out = plan.merge(Err(Error::StorageError));
    assert_eq!(out, Err(Error::StorageError));
}

#[test]
fn projection_is_total_over_mutations() {
    let put = Mutation::Put(value(b"v"));
    assert!(matches!(
        put.get_value(),
        MutationValue::Determined(Some(v)) if v == value(b"v")
    ));
    assert!(matches!(
        Mutation::Delete.get_value(),
        MutationValue::Determined(None)
    ));
    assert!(matches!(
        Mutation::Lock.get_value(),
        MutationValue::Undetermined
    ));
}

#[test]
fn last_writer_wins_in_buffer() {
    let mut txn = mock_txn();
    txn.set(key(b"k"), value(b"first"));
    txn.set(key(b"k"), value(b"second"));
    let r = txn.get_from_mutations(&key(b"k")).resolve(poisoned_reply());
    assert_eq!(r.unwrap(), Some(value(b"second")));
}

#[test]
fn accessors_expose_the_snapshot_timestamp() {
    let txn = mock_txn();
    assert_eq!(
        txn.start_ts(),
        Timestamp {
            physical: 0,
            logical: 0
        }
    );
    assert_eq!(txn.snapshot().timestamp, txn.start_ts());
}

#[test]
fn timestamps_order_physical_then_logical() {
    let a = Timestamp {
        physical: 1,
        logical: 5,
    };
    let b = Timestamp {
        physical: 2,
        logical: 0,
    };
    let c = Timestamp {
        physical: 2,
        logical: 1,
    };
    assert!(a.is_before(&b));
    assert!(b.is_before(&c));
    assert!(!c.is_before(&b));
    assert!(!b.is_before(&b));
}
