//! The mutation buffer: an ordered mapping from key to the single pending
//! mutation for that key.
//!
//! The buffer is kept as a vector of entries strictly sorted by the
//! byte-lexicographic key order, so iteration for commit purposes walks the
//! keys in their total order — the property that makes primary-key selection
//! deterministic.

use vstd::prelude::*;
use vstd::pervasive::VecAdditionalExecFns;
use crate::kv::Key;
use crate::kv::lex_lt;
use crate::kv::lemma_lex_lt_irreflexive;
use crate::kv::lemma_lex_lt_transitive;
use crate::kv::lemma_lex_lt_connected;
use crate::mutation::Mutation;
use crate::mutation::MutationValue;
use crate::mutation::MutationView;
use crate::mutation::project_mutation;

verus! {

/// One buffered entry as mathematics: the key's bytes and the mutation.
pub type EntryView = (Seq<u8>, MutationView);

/// Whether the keys of `s` are strictly increasing in the byte-lexicographic
/// order (so in particular no key repeats).
pub open spec fn entries_sorted(s: Seq<EntryView>) -> bool {
    forall|i: int, j: int|
        #![trigger s[i], s[j]]
        0 <= i < j < s.len() ==> lex_lt(s[i].0, s[j].0)
}

/// The mutation `s` holds for key `k`: the first entry whose key is `k`, if
/// any.  On a sorted sequence there is at most one.
pub open spec fn lookup(s: Seq<EntryView>, k: Seq<u8>) -> Option<MutationView>
    decreases s.len(),
{
    if s.len() == 0 {
        None
    } else if s[0].0 == k {
        Some(s[0].1)
    } else {
        lookup(s.skip(1), k)
    }
}

/// Splitting a sequence splits its lookup: the left part wins when it holds
/// the key.
pub proof fn lemma_lookup_append(s1: Seq<EntryView>, s2: Seq<EntryView>, k: Seq<u8>)
    ensures
        lookup(s1 + s2, k) == if lookup(s1, k) is Some {
            lookup(s1, k)
        } else {
            lookup(s2, k)
        },
    decreases s1.len(),
{
    if s1.len() == 0 {
        assert(s1 + s2 =~= s2);
    } else {
        assert((s1 + s2)[0] == s1[0]);
        if s1[0].0 == k {
        } else {
            assert((s1 + s2).skip(1) =~= s1.skip(1) + s2);
            lemma_lookup_append(s1.skip(1), s2, k);
        }
    }
}

/// A key that appears on no entry is not found.
pub proof fn lemma_lookup_absent(s: Seq<EntryView>, k: Seq<u8>)
    requires
        forall|j: int| 0 <= j < s.len() ==> (#[trigger] s[j]).0 != k,
    ensures
        lookup(s, k) is None,
    decreases s.len(),
{
    if s.len() > 0 {
        lemma_lookup_absent(s.skip(1), k);
    }
}

/// Lookup on a one-entry sequence.
pub proof fn lemma_lookup_single(e: EntryView, k: Seq<u8>)
    ensures
        lookup(seq![e], k) == if e.0 == k {
            Some(e.1)
        } else {
            None::<MutationView>
        },
{
    if e.0 == k {
    } else {
        assert(seq![e].skip(1) =~= Seq::<EntryView>::empty());
        assert(lookup(Seq::<EntryView>::empty(), k) is None);
    }
}

/// The ordered mapping from key to its single pending mutation.
pub struct MutationBuffer {
    entries: Vec<(Key, Mutation)>,
}

impl View for MutationBuffer {
    type V = Seq<EntryView>;

    closed spec fn view(&self) -> Seq<EntryView> {
        self.entries@.map(|i: int, e: (Key, Mutation)| (e.0@, e.1@))
    }
}

impl MutationBuffer {
    /// The buffer's invariant: entries strictly sorted by key.
    pub open spec fn wf(&self) -> bool {
        entries_sorted(self@)
    }

    /// An empty buffer.
    pub fn new() -> (r: MutationBuffer)
        ensures
            r@ == Seq::<EntryView>::empty(),
            r.wf(),
    {
        let r = MutationBuffer { entries: Vec::new() };
        proof {
            assert(r@ =~= Seq::<EntryView>::empty());
        }
        r
    }

    /// How many keys hold a pending mutation.
    pub fn len(&self) -> (r: usize)
        ensures
            r == self@.len(),
    {
        self.entries.len()
    }

    /// Whether no mutation is pending.
    pub fn is_empty(&self) -> (r: bool)
        ensures
            r == (self@.len() == 0),
    {
        self.entries.len() == 0
    }

    /// Whether `key` holds a pending mutation.
    pub fn contains_key(&self, key: &Key) -> (r: bool)
        ensures
            r == (lookup(self@, key@) is Some),
    {
        let mut i: usize = 0;
        proof {
            assert(self@.skip(0) =~= self@);
        }
        while i < self.entries.len()
            invariant
                i <= self@.len(),
                self@.len() == self.entries@.len(),
                lookup(self@, key@) == lookup(self@.skip(i as int), key@),
            decreases self@.len() - i,
        {
            if self.entries[i].0.same_as(key) {
                return true;
            }
            proof {
                assert(self@.skip(i as int)[0] == self@[i as int]);
                assert(self@.skip(i as int).skip(1) =~= self@.skip(i + 1));
            }
            i = i + 1;
        }
        false
    }

    /// Projects the buffered mutation for `key` (or its absence) onto what a
    /// read of `key` would see.
    pub fn project(&self, key: &Key) -> (r: MutationValue)
        ensures
            r@ == project_mutation(lookup(self@, key@)),
    {
        let mut i: usize = 0;
        proof {
            assert(self@.skip(0) =~= self@);
        }
        while i < self.entries.len()
            invariant
                i <= self@.len(),
                self@.len() == self.entries@.len(),
                lookup(self@, key@) == lookup(self@.skip(i as int), key@),
            decreases self@.len() - i,
        {
            if self.entries[i].0.same_as(key) {
                proof {
                    assert(self@.skip(i as int)[0] == self@[i as int]);
                }
                return self.entries[i].1.get_value();
            }
            proof {
                assert(self@.skip(i as int)[0] == self@[i as int]);
                assert(self@.skip(i as int).skip(1) =~= self@.skip(i + 1));
            }
            i = i + 1;
        }
        MutationValue::Undetermined
    }

    /// Records `mutation` as the pending mutation for `key`, replacing any
    /// previous one (last writer wins; no history is kept).
    #[verifier::rlimit(30)]
    pub fn insert(&mut self, key: Key, mutation: Mutation)
        requires
            old(self).wf(),
        ensures
            final(self).wf(),
            final(self)@.len() > 0,
            old(self)@.len() <= final(self)@.len() <= old(self)@.len() + 1,
            forall|k: Seq<u8>|
                #[trigger] lookup(final(self)@, k) == if k == key@ {
                    Some(mutation@)
                } else {
                    lookup(old(self)@, k)
                },
    {
        let ghost pre_all: Seq<EntryView> = self@;
        let mut i: usize = 0;
        while i < self.entries.len() && self.entries[i].0.is_below(&key)
            invariant
                i <= self@.len(),
                self@.len() == self.entries@.len(),
                *self == *old(self),
                forall|j: int| 0 <= j < i ==> lex_lt(#[trigger] self@[j].0, key@),
            decreases self@.len() - i,
        {
            i = i + 1;
        }
        let ghost pre = pre_all.take(i as int);
        assert(forall|j: int| 0 <= j < pre.len() ==> lex_lt(#[trigger] pre[j].0, key@));
        if i < self.entries.len() && self.entries[i].0.same_as(&key) {
            // Replace in place: the key set and its order are unchanged.
            self.entries.set(i, (key, mutation));
            proof {
                let post = self@;
                let mid = seq![(key@, mutation@)];
                assert(post =~= pre_all.update(i as int, (key@, mutation@)));
                assert forall|x: int, y: int| 0 <= x < y < post.len() implies lex_lt(
                    post[x].0,
                    post[y].0,
                ) by {
                    assert(pre_all[i as int].0 == key@);
                    assert(post[x].0 == pre_all[x].0);
                    assert(post[y].0 == pre_all[y].0);
                    assert(lex_lt(pre_all[x].0, pre_all[y].0));
                }
                assert(pre_all =~= pre + pre_all.skip(i as int));
                assert(pre_all.skip(i as int) =~= seq![pre_all[i as int]] + pre_all.skip(
                    i + 1,
                ));
                assert(post =~= pre + (mid + pre_all.skip(i + 1)));
                assert forall|k: Seq<u8>|
                    #[trigger] lookup(post, k) == if k == key@ {
                        Some(mutation@)
                    } else {
                        lookup(pre_all, k)
                    } by {
                    lemma_lookup_append(pre, mid + pre_all.skip(i + 1), k);
                    lemma_lookup_append(mid, pre_all.skip(i + 1), k);
                    lemma_lookup_single((key@, mutation@), k);
                    lemma_lookup_append(pre, pre_all.skip(i as int), k);
                    lemma_lookup_append(seq![pre_all[i as int]], pre_all.skip(i + 1), k);
                    lemma_lookup_single(pre_all[i as int], k);
                    if k == key@ {
                        lemma_lex_lt_irreflexive(k);
                        lemma_lookup_absent(pre, k);
                    }
                }
            }
        } else {
            // All keys before position i are below `key`, and the key at i
            // (when present) is above it, so inserting here keeps the order.
            proof {
                if i < self.entries.len() {
                    if !lex_lt(key@, pre_all[i as int].0) {
                        lemma_lex_lt_connected(pre_all[i as int].0, key@);
                    }
                    assert(lex_lt(key@, pre_all[i as int].0));
                }
            }
            self.entries.insert(i, (key, mutation));
            proof {
                let post = self@;
                let mid = seq![(key@, mutation@)];
                assert(post =~= pre + (mid + pre_all.skip(i as int)));
                // Sortedness of the spliced sequence.
                assert forall|x: int, y: int| 0 <= x < y < post.len() implies lex_lt(
                    post[x].0,
                    post[y].0,
                ) by {
                    let n = pre_all.len();
                    assert(post.len() == n + 1);
                    if x < i {
                        assert(post[x] == pre_all[x]);
                    } else if x == i {
                        assert(post[x] == (key@, mutation@));
                    } else {
                        assert(post[x] == pre_all[x - 1]);
                    }
                    if y < i {
                        assert(post[y] == pre_all[y]);
                    } else if y == i {
                        assert(post[y] == (key@, mutation@));
                    } else {
                        assert(post[y] == pre_all[y - 1]);
                    }
                    if y == i {
                        // post[x] is an entry before position i, hence below key.
                        assert(lex_lt(pre_all[x].0, key@));
                    } else if x == i {
                        // key is below pre_all[i], and transitively below later ones.
                        if y - 1 > i {
                            assert(lex_lt(pre_all[i as int].0, pre_all[y - 1].0));
                            lemma_lex_lt_transitive(
                                key@,
                                pre_all[i as int].0,
                                pre_all[y - 1].0,
                            );
                        }
                    } else if x < i && y > i {
                        assert(lex_lt(pre_all[x].0, pre_all[y - 1].0));
                    } else {
                        if x > i {
                            assert(lex_lt(pre_all[x - 1].0, pre_all[y - 1].0));
                        } else {
                            assert(lex_lt(pre_all[x].0, pre_all[y].0));
                        }
                    }
                }
                assert forall|k: Seq<u8>|
                    #[trigger] lookup(post, k) == if k == key@ {
                        Some(mutation@)
                    } else {
                        lookup(pre_all, k)
                    } by {
                    lemma_lookup_append(pre, mid + pre_all.skip(i as int), k);
                    lemma_lookup_append(mid, pre_all.skip(i as int), k);
                    lemma_lookup_single((key@, mutation@), k);
                    lemma_lookup_append(pre, pre_all.skip(i as int), k);
                    assert(pre_all =~= pre + pre_all.skip(i as int));
                    if k == key@ {
                        lemma_lex_lt_irreflexive(k);
                        lemma_lookup_absent(pre, k);
                    }
                }
            }
        }
    }

    /// Hands the ordered entries out for the commit phase.
    pub fn into_entries(self) -> (r: Vec<(Key, Mutation)>)
        ensures
            r@.len() == self@.len(),
            forall|i: int|
                0 <= i < r@.len() ==> ((#[trigger] r@[i]).0@, r@[i].1@) == self@[i],
    {
        self.entries
    }
}

} // verus!
