//! The transaction object: one snapshot, one mutation buffer.
//!
//! All mutating calls only touch the in-memory buffer; nothing becomes
//! visible to the cluster before `commit`.  A transaction is exclusively
//! owned and driven by one logical caller at a time; it is not safe for
//! unsynchronized concurrent mutation.

use vstd::prelude::*;
use crate::kv::Key;
use crate::kv::Value;
use crate::timestamp::Snapshot;
use crate::timestamp::Timestamp;
use crate::mutation::Mutation;
use crate::mutation::MutationValue;
use crate::mutation::MutationView;
use crate::mutation::project_mutation;
use crate::buffer::MutationBuffer;
use crate::buffer::EntryView;
use crate::buffer::entries_sorted;
use crate::buffer::lookup;

verus! {

/// How a set of lock requests merges with the mutation a key already holds:
/// an existing mutation always wins; a requested lock fills an absent slot
/// only.
pub open spec fn lock_merge(prev: Option<MutationView>, requested: bool) -> Option<
    MutationView,
> {
    if prev is Some {
        prev
    } else if requested {
        Some(MutationView::Lock)
    } else {
        None
    }
}

/// The byte sequences of a list of keys.
pub open spec fn key_views(keys: Seq<Key>) -> Seq<Seq<u8>> {
    keys.map(|i: int, k: Key| k@)
}

proof fn lemma_contains_push(s: Seq<Seq<u8>>, v: Seq<u8>, x: Seq<u8>)
    ensures
        s.push(v).contains(x) == (s.contains(x) || x == v),
{
    if s.contains(x) {
        let idx = choose|idx: int| 0 <= idx < s.len() && s[idx] == x;
        assert(s.push(v)[idx] == x);
    }
    if x == v {
        assert(s.push(v)[s.len() as int] == x);
    }
    if s.push(v).contains(x) {
        let idx = choose|idx: int| 0 <= idx < s.push(v).len() && s.push(v)[idx] == x;
        if idx < s.len() {
            assert(s[idx] == x);
        }
    }
}

/// A set of staged reads, writes, deletes and locks against one consistent
/// point-in-time view of the store.
pub struct Transaction {
    pub snapshot: Snapshot,
    pub mutations: MutationBuffer,
}

impl View for Transaction {
    type V = Seq<EntryView>;

    open spec fn view(&self) -> Seq<EntryView> {
        self.mutations@
    }
}

impl Transaction {
    /// The transaction's invariant: its buffer keys are strictly sorted.
    pub open spec fn wf(&self) -> bool {
        entries_sorted(self@)
    }

    /// Opens a transaction over a fresh snapshot, with an empty buffer.
    pub fn new(snapshot: Snapshot) -> (r: Transaction)
        ensures
            r@ == Seq::<EntryView>::empty(),
            r.wf(),
            r.snapshot == snapshot,
    {
        Transaction { snapshot, mutations: MutationBuffer::new() }
    }

    /// Stages a write of `value` under `key`, replacing any pending mutation
    /// for that key.
    pub fn set(&mut self, key: Key, value: Value)
        requires
            old(self).wf(),
        ensures
            final(self).wf(),
            final(self).snapshot == old(self).snapshot,
            final(self)@.len() > 0,
            old(self)@.len() <= final(self)@.len() <= old(self)@.len() + 1,
            forall|k: Seq<u8>|
                #[trigger] lookup(final(self)@, k) == if k == key@ {
                    Some(MutationView::Put(value@))
                } else {
                    lookup(old(self)@, k)
                },
    {
        self.mutations.insert(key, Mutation::Put(value));
    }

    /// Stages a deletion of `key`, replacing any pending mutation for that
    /// key.
    pub fn delete(&mut self, key: Key)
        requires
            old(self).wf(),
        ensures
            final(self).wf(),
            final(self).snapshot == old(self).snapshot,
            final(self)@.len() > 0,
            old(self)@.len() <= final(self)@.len() <= old(self)@.len() + 1,
            forall|k: Seq<u8>|
                #[trigger] lookup(final(self)@, k) == if k == key@ {
                    Some(MutationView::Delete)
                } else {
                    lookup(old(self)@, k)
                },
    {
        self.mutations.insert(key, Mutation::Delete);
    }

    /// Registers a lock intent for each key that has no pending mutation yet.
    ///
    /// Non-destructive: a key already carrying a `Put`, `Delete` or `Lock`
    /// keeps it unchanged.
    #[verifier::rlimit(30)]
    pub fn lock_keys(&mut self, keys: Vec<Key>)
        requires
            old(self).wf(),
        ensures
            final(self).wf(),
            final(self).snapshot == old(self).snapshot,
            forall|k: Seq<u8>|
                #[trigger] lookup(final(self)@, k) == lock_merge(
                    lookup(old(self)@, k),
                    key_views(keys@).contains(k),
                ),
    {
        let mut i: usize = 0;
        proof {
            assert(key_views(keys@.take(0)) =~= Seq::<Seq<u8>>::empty());
        }
        while i < keys.len()
            invariant
                i <= keys.len(),
                self.wf(),
                self.snapshot == old(self).snapshot,
                forall|k: Seq<u8>|
                    #[trigger] lookup(self@, k) == lock_merge(
                        lookup(old(self)@, k),
                        key_views(keys@.take(i as int)).contains(k),
                    ),
            decreases keys.len() - i,
        {
            let ghost prefix = key_views(keys@.take(i as int));
            let ghost cur = self@;
            let present = self.mutations.contains_key(&keys[i]);
            if !present {
                let locked = keys[i].clone();
                self.mutations.insert(locked, Mutation::Lock);
            }
            proof {
                assert(key_views(keys@.take(i + 1)) =~= prefix.push(keys@[i as int]@));
                assert forall|k: Seq<u8>|
                    #[trigger] lookup(self@, k) == lock_merge(
                        lookup(old(self)@, k),
                        key_views(keys@.take(i + 1)).contains(k),
                    ) by {
                    lemma_contains_push(prefix, keys@[i as int]@, k);
                    assert(lookup(cur, k) == lock_merge(
                        lookup(old(self)@, k),
                        prefix.contains(k),
                    ));
                }
            }
            i = i + 1;
        }
        proof {
            assert(keys@.take(keys@.len() as int) =~= keys@);
        }
    }

    /// What a read of `key` would see from the buffered mutations alone.
    ///
    /// `Determined` answers never consult the snapshot: this is the
    /// read-your-own-writes path of `get`.  An `Undetermined` answer means
    /// the caller must delegate the read to the snapshot provider.
    pub fn get_from_mutations(&self, key: &Key) -> (r: MutationValue)
        ensures
            r@ == project_mutation(lookup(self@, key@)),
    {
        self.mutations.project(key)
    }

    /// The timestamp the transaction started at: its snapshot's timestamp,
    /// immutable for the transaction's lifetime.
    pub fn start_ts(&self) -> (r: Timestamp)
        ensures
            r == self.snapshot.timestamp,
    {
        self.snapshot().timestamp
    }

    /// The snapshot the transaction is operating on.
    pub fn snapshot(&self) -> (r: &Snapshot)
        ensures
            *r == self.snapshot,
    {
        &self.snapshot
    }

    /// Consumes the transaction into its snapshot and its buffer; the single
    /// terminal step, used by the commit coordinator.
    pub fn into_parts(self) -> (r: (Snapshot, MutationBuffer))
        ensures
            r.0 == self.snapshot,
            r.1@ == self@,
    {
        let Transaction { snapshot, mutations } = self;
        (snapshot, mutations)
    }
}

} // verus!
