//! Read-merge logic: buffer-over-snapshot resolution for single and batched
//! reads.
//!
//! A read first consults the mutation buffer.  When the buffer determines the
//! value the snapshot is never involved; only undetermined keys are fanned
//! out, in one batched call, to the snapshot provider, and its replies are
//! spliced back into the caller's original key order.

use vstd::prelude::*;
use crate::kv::Key;
use crate::kv::Value;
use crate::error::Error;
use crate::mutation::MutationValue;
use crate::mutation::MutationValueView;
use crate::mutation::project_mutation;
use crate::buffer::lookup;
use crate::buffer::EntryView;
use crate::mutation::MutationView;
use crate::transaction::Transaction;
use crate::transaction::key_views;
use crate::transaction::lock_merge;

verus! {

/// The mathematical value of a read reply: bytes in place of values.
pub open spec fn reply_view(r: Result<Option<Value>, Error>) -> Result<
    Option<Seq<u8>>,
    Error,
> {
    match r {
        Ok(Some(v)) => Ok(Some(v@)),
        Ok(None) => Ok(None),
        Err(e) => Err(e),
    }
}

/// How a single read resolves: a value the buffer determined is returned
/// outright; otherwise the snapshot's reply — value or storage failure — is
/// passed through unchanged.
pub open spec fn resolve_view(
    local: MutationValueView,
    reply: Result<Option<Seq<u8>>, Error>,
) -> Result<Option<Seq<u8>>, Error> {
    match local {
        MutationValueView::Determined(v) => Ok(v),
        MutationValueView::Undetermined => reply,
    }
}

impl MutationValue {
    /// Completes a single read from this buffer projection and the snapshot's
    /// reply.
    ///
    /// The reply is consulted only when the projection is `Undetermined`; a
    /// determined projection fixes the result no matter what the snapshot
    /// would have said, which is what lets the driver skip the snapshot call
    /// entirely on that path.
    pub fn resolve(self, snapshot_reply: Result<Option<Value>, Error>) -> (r: Result<
        Option<Value>,
        Error,
    >)
        ensures
            reply_view(r) == resolve_view(self@, reply_view(snapshot_reply)),
    {
        match self {
            MutationValue::Determined(v) => Ok(v),
            MutationValue::Undetermined => snapshot_reply,
        }
    }
}

/// The bytes of an optional value.
pub open spec fn option_bytes(v: Option<Value>) -> Option<Seq<u8>> {
    match v {
        Some(x) => Some(x@),
        None => None,
    }
}

/// One planned slot as mathematics: the key and its buffer projection.
pub type SlotView = (Seq<u8>, MutationValueView);

/// The mathematical value of the planned slots.
pub open spec fn slot_views(s: Seq<(Key, MutationValue)>) -> Seq<SlotView> {
    s.map(|i: int, e: (Key, MutationValue)| (e.0@, e.1@))
}

/// The mathematical value of a list of key/value pairs.
pub open spec fn pair_views(s: Seq<(Key, Option<Value>)>) -> Seq<(Seq<u8>, Option<Seq<u8>>)> {
    s.map(|i: int, e: (Key, Option<Value>)| (e.0@, option_bytes(e.1)))
}

/// The slots a batched read must fan out to the snapshot: the keys of the
/// undetermined slots, in slot order, duplicates preserved.
pub open spec fn undet_of_slots(s: Seq<SlotView>) -> Seq<Seq<u8>>
    decreases s.len(),
{
    if s.len() == 0 {
        Seq::empty()
    } else {
        undet_of_slots(s.drop_last()) + (match s.last().1 {
            MutationValueView::Undetermined => seq![s.last().0],
            MutationValueView::Determined(_) => Seq::empty(),
        })
    }
}

/// Unfolds `undet_of_slots` one slot at a time from the left.
pub proof fn lemma_undet_extend(s: Seq<SlotView>, i: int)
    requires
        0 <= i < s.len(),
    ensures
        undet_of_slots(s.take(i + 1)) == undet_of_slots(s.take(i)) + (match s[i].1 {
            MutationValueView::Undetermined => seq![s[i].0],
            MutationValueView::Determined(_) => Seq::<Seq<u8>>::empty(),
        }),
{
    assert(s.take(i + 1).drop_last() =~= s.take(i));
    assert(s.take(i + 1).last() == s[i]);
}

/// Each undetermined slot owns exactly one position in the fan-out list: the
/// one indexed by the number of undetermined slots before it, and that
/// position carries the slot's key.
pub proof fn lemma_undet_slot_key(s: Seq<SlotView>, i: int)
    requires
        0 <= i < s.len(),
        s[i].1 is Undetermined,
    ensures
        undet_of_slots(s.take(i)).len() < undet_of_slots(s).len(),
        undet_of_slots(s)[undet_of_slots(s.take(i)).len() as int] == s[i].0,
    decreases s.len(),
{
    if i == s.len() - 1 {
        assert(s.take(i) =~= s.drop_last());
        assert(s.last() == s[i]);
    } else {
        lemma_undet_slot_key(s.drop_last(), i);
        assert(s.drop_last().take(i) =~= s.take(i));
    }
}

/// The number of undetermined slots strictly before slot `i`.
pub open spec fn undet_rank(slots: Seq<SlotView>, i: int) -> int {
    undet_of_slots(slots.take(i)).len() as int
}

/// The reassembled results of a batched read: each determined slot keeps its
/// buffered answer, and each undetermined slot consumes the next unconsumed
/// snapshot reply, in the order the replies came back.
pub open spec fn merged(
    slots: Seq<SlotView>,
    replies: Seq<(Seq<u8>, Option<Seq<u8>>)>,
) -> Seq<(Seq<u8>, Option<Seq<u8>>)> {
    Seq::new(
        slots.len(),
        |i: int|
            match slots[i].1 {
                MutationValueView::Determined(v) => (slots[i].0, v),
                MutationValueView::Undetermined => replies[undet_rank(slots, i)],
            },
    )
}

/// The local half of a batched read: every requested key with its buffer
/// projection, in request order, plus the keys that must be fanned out to
/// the snapshot.
pub struct BatchGetPlan {
    pub slots: Vec<(Key, MutationValue)>,
    pub undetermined: Vec<Key>,
}

impl BatchGetPlan {
    /// The plan's invariant: the fan-out list is exactly the keys of the
    /// undetermined slots, in slot order.
    pub open spec fn wf(&self) -> bool {
        key_views(self.undetermined@) == undet_of_slots(slot_views(self.slots@))
    }

    /// Completes a batched read by reassembling the snapshot's replies into
    /// the original request order.
    ///
    /// A failed batched read propagates as-is.  A reply list whose length
    /// differs from the fan-out list is a violated snapshot contract and
    /// fails fast with `InternalConsistencyFault`; otherwise each
    /// undetermined slot takes the next unconsumed reply.
    #[verifier::rlimit(30)]
    pub fn merge(self, replies: Result<Vec<(Key, Option<Value>)>, Error>) -> (r: Result<
        Vec<(Key, Option<Value>)>,
        Error,
    >)
        requires
            self.wf(),
        ensures
            match replies {
                Err(e) => r == Err::<Vec<(Key, Option<Value>)>, Error>(e),
                Ok(rs) => if rs@.len() != self.undetermined@.len() {
                    r == Err::<Vec<(Key, Option<Value>)>, Error>(
                        Error::InternalConsistencyFault,
                    )
                } else {
                    r is Ok && pair_views(r->Ok_0@) == merged(
                        slot_views(self.slots@),
                        pair_views(rs@),
                    )
                },
            },
    {
        let rs = match replies {
            Ok(rs) => rs,
            Err(e) => {
                return Err(e);
            },
        };
        if rs.len() != self.undetermined.len() {
            return Err(Error::InternalConsistencyFault);
        }
        let ghost sv = slot_views(self.slots@);
        let ghost pv = pair_views(rs@);
        proof {
            assert(key_views(self.undetermined@).len() == self.undetermined@.len());
        }
        let total: usize = rs.len();
        let mut out: Vec<(Key, Option<Value>)> = Vec::new();
        let mut j: usize = 0;
        let mut i: usize = 0;
        proof {
            assert(sv.take(0) =~= Seq::<SlotView>::empty());
        }
        while i < self.slots.len()
            invariant
                i <= self.slots@.len(),
                sv == slot_views(self.slots@),
                pv == pair_views(rs@),
                key_views(self.undetermined@) == undet_of_slots(sv),
                rs@.len() == self.undetermined@.len(),
                sv.len() == self.slots@.len(),
                pv.len() == rs@.len(),
                total == rs@.len(),
                j == undet_rank(sv, i as int),
                j <= total,
                out@.len() == i,
                forall|x: int|
                    0 <= x < i ==> pair_views(out@)[x] == merged(sv, pv)[x],
            decreases self.slots@.len() - i,
        {
            let ghost out_pre = out@;
            match &self.slots[i].1 {
                MutationValue::Determined(v) => {
                    let vv = match v {
                        Some(x) => Some(x.clone()),
                        None => None,
                    };
                    out.push((self.slots[i].0.clone(), vv));
                },
                MutationValue::Undetermined => {
                    proof {
                        lemma_undet_slot_key(sv, i as int);
                        assert(key_views(self.undetermined@).len()
                            == self.undetermined@.len());
                        assert(undet_of_slots(sv).len() == rs@.len());
                        assert(undet_rank(sv, i as int) < undet_of_slots(sv).len());
                        assert(j < total);
                    }
                    let vv = match &rs[j].1 {
                        Some(x) => Some(x.clone()),
                        None => None,
                    };
                    out.push((rs[j].0.clone(), vv));
                    j = j + 1;
                },
            }
            proof {
                lemma_undet_extend(sv, i as int);
                assert(pair_views(out@) =~= pair_views(out_pre).push(
                    (out@.last().0@, option_bytes(out@.last().1)),
                ));
                assert forall|x: int| 0 <= x < i + 1 implies pair_views(out@)[x]
                    == merged(sv, pv)[x] by {
                    if x < i {
                        assert(pair_views(out_pre)[x] == merged(sv, pv)[x]);
                    }
                }
            }
            i = i + 1;
        }
        proof {
            assert(pair_views(out@) =~= merged(sv, pv));
        }
        Ok(out)
    }
}

impl Transaction {
    /// The local half of `batch_get`: projects every requested key through
    /// the buffer, in request order (duplicates preserved), and collects the
    /// keys the snapshot must still resolve.
    #[verifier::rlimit(30)]
    pub fn batch_get_plan(&self, keys: &Vec<Key>) -> (r: BatchGetPlan)
        ensures
            r.wf(),
            slot_views(r.slots@).len() == keys@.len(),
            forall|i: int|
                0 <= i < keys@.len() ==> slot_views(r.slots@)[i] == (
                    keys@[i]@,
                    project_mutation(lookup(self@, keys@[i]@)),
                ),
    {
        let mut slots: Vec<(Key, MutationValue)> = Vec::new();
        let mut undetermined: Vec<Key> = Vec::new();
        let mut i: usize = 0;
        proof {
            assert(slot_views(slots@) =~= Seq::<SlotView>::empty());
            assert(key_views(undetermined@) =~= Seq::<Seq<u8>>::empty());
        }
        while i < keys.len()
            invariant
                i <= keys@.len(),
                slots@.len() == i,
                key_views(undetermined@) == undet_of_slots(slot_views(slots@)),
                forall|x: int|
                    0 <= x < i ==> slot_views(slots@)[x] == (
                        keys@[x]@,
                        project_mutation(lookup(self@, keys@[x]@)),
                    ),
            decreases keys@.len() - i,
        {
            let ghost slots_pre = slots@;
            let ghost undet_pre = undetermined@;
            let mv = self.get_from_mutations(&keys[i]);
            let is_undet = match &mv {
                MutationValue::Undetermined => true,
                MutationValue::Determined(_) => false,
            };
            if is_undet {
                undetermined.push(keys[i].clone());
            }
            slots.push((keys[i].clone(), mv));
            proof {
                assert(slot_views(slots@) =~= slot_views(slots_pre).push(
                    (slots@.last().0@, slots@.last().1@),
                ));
                assert(slot_views(slots@).drop_last() =~= slot_views(slots_pre));
                if is_undet {
                    assert(key_views(undetermined@) =~= key_views(undet_pre).push(
                        keys@[i as int]@,
                    ));
                } else {
                    assert(key_views(undetermined@) =~= key_views(undet_pre));
                }
            }
            i = i + 1;
        }
        BatchGetPlan { slots, undetermined }
    }
}

/// Read-your-own-writes for a buffered write: once the buffer holds `Put(v)`
/// for a key, a read of that key yields `v` no matter what the snapshot
/// would have replied — the snapshot need not be consulted at all.
pub proof fn lemma_read_own_write(
    buf: Seq<EntryView>,
    k: Seq<u8>,
    v: Seq<u8>,
    reply: Result<Option<Seq<u8>>, Error>,
)
    requires
        lookup(buf, k) == Some(MutationView::Put(v)),
    ensures
        resolve_view(project_mutation(lookup(buf, k)), reply) == Ok::<
            Option<Seq<u8>>,
            Error,
        >(Some(v)),
{
}

/// Read-your-own-deletes: once the buffer holds `Delete` for a key, a read
/// of that key yields `None` without consulting the snapshot.
pub proof fn lemma_read_own_delete(
    buf: Seq<EntryView>,
    k: Seq<u8>,
    reply: Result<Option<Seq<u8>>, Error>,
)
    requires
        lookup(buf, k) == Some(MutationView::Delete),
    ensures
        resolve_view(project_mutation(lookup(buf, k)), reply) == Ok::<
            Option<Seq<u8>>,
            Error,
        >(None),
{
}

/// A key with no buffered mutation reads exactly the snapshot's value for
/// it: the snapshot's reply passes through unchanged.
pub proof fn lemma_read_defers_to_snapshot(
    buf: Seq<EntryView>,
    k: Seq<u8>,
    reply: Result<Option<Seq<u8>>, Error>,
)
    requires
        lookup(buf, k) is None,
    ensures
        resolve_view(project_mutation(lookup(buf, k)), reply) == reply,
{
}

/// A lock never determines a value: a key whose only buffered mutation is a
/// freshly requested lock still reads through to the snapshot.
pub proof fn lemma_lock_queries_snapshot(reply: Result<Option<Seq<u8>>, Error>)
    ensures
        resolve_view(project_mutation(lock_merge(None, true)), reply) == reply,
{
}

/// Locking is non-destructive: a lock request on a key that already carries
/// a mutation leaves that mutation unchanged — in particular a prior
/// `Put(v)` stays `Put(v)`.
pub proof fn lemma_lock_non_destructive(prev: MutationView)
    ensures
        lock_merge(Some(prev), true) == Some(prev),
{
}

/// Batched reads preserve the caller's key order: when the snapshot answers
/// each fanned-out key in submission order (one reply per submitted key,
/// carrying that key), the reassembled results list the requested keys in
/// exactly the original order, duplicates included.
pub proof fn lemma_batch_get_order(
    slots: Seq<SlotView>,
    replies: Seq<(Seq<u8>, Option<Seq<u8>>)>,
)
    requires
        replies.len() == undet_of_slots(slots).len(),
        forall|j: int|
            0 <= j < replies.len() ==> (#[trigger] replies[j]).0 == undet_of_slots(
                slots,
            )[j],
    ensures
        merged(slots, replies).len() == slots.len(),
        forall|i: int|
            0 <= i < slots.len() ==> (#[trigger] merged(slots, replies)[i]).0 == slots[
                i
            ].0,
{
    assert forall|i: int| 0 <= i < slots.len() implies (#[trigger] merged(
        slots,
        replies,
    )[i]).0 == slots[i].0 by {
        match slots[i].1 {
            MutationValueView::Determined(_) => {},
            MutationValueView::Undetermined => {
                lemma_undet_slot_key(slots, i);
            },
        }
    }
}

} // verus!
