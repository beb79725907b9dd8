//! The commit coordinator: the two-phase commit state machine.
//!
//! `Active → Prewriting → PrimaryCommitting → SecondaryCommitting →
//! Committed`, with `Aborted` reachable from `Prewriting` on a conflict.
//! The coordinator converts the drained buffer into wire-ready mutation
//! records, selects the primary key deterministically (the first key in the
//! buffer's total order), and walks the phases one guarded transition at a
//! time.  The driver performs each emitted request over the network and
//! hands the outcome back; the coordinator decides everything else.
//!
//! Success of the primary commit is the atomicity boundary: after it the
//! transaction is committed whatever happens to the secondaries, so
//! secondary outcomes are consumed and deliberately discarded.

use vstd::prelude::*;
use crate::kv::Key;
use crate::kv::lex_lt;
use crate::timestamp::Timestamp;
use crate::timestamp::ts_lt;
use crate::mutation::Mutation;
use crate::error::Error;
use crate::buffer::EntryView;
use crate::buffer::entries_sorted;
use crate::transaction::Transaction;

verus! {

/// A wire-ready mutation record: the mutation paired with its key, as sent
/// in a prewrite.
pub struct KeyMutation {
    pub key: Key,
    pub mutation: Mutation,
}

/// The mathematical value of a list of wire mutation records.
pub open spec fn km_views(s: Seq<KeyMutation>) -> Seq<EntryView> {
    s.map(|i: int, km: KeyMutation| (km.key@, km.mutation@))
}

/// The prewrite phase's single logical request: every buffered mutation with
/// its key, the designated primary key, and the start timestamp.
pub struct PrewriteRequest {
    pub mutations: Vec<KeyMutation>,
    pub primary: Key,
    pub start_ts: Timestamp,
}

/// A commit request for one key, tagged with its role and both timestamps.
pub struct CommitRequest {
    pub key: Key,
    pub is_primary: bool,
    pub start_ts: Timestamp,
    pub commit_ts: Timestamp,
}

/// The phases of two-phase commit.
#[derive(Clone, Copy, Debug, PartialEq, Eq, Structural)]
pub enum CommitState {
    Active,
    Prewriting,
    PrimaryCommitting,
    SecondaryCommitting,
    Committed,
    Aborted,
}

/// What the store answered to the prewrite of the whole mutation set.
#[derive(Clone, Copy, Debug, PartialEq, Eq, Structural)]
pub enum PrewriteOutcome {
    Succeeded,
    Conflicted,
}

/// What the store answered to the commit of the primary key.
#[derive(Clone, Copy, Debug, PartialEq, Eq, Structural)]
pub enum PrimaryCommitOutcome {
    Succeeded,
    Failed,
}

/// The two-phase commit state machine over a drained mutation buffer.
///
/// Transitions are guarded by the current state: no phase can be skipped,
/// and neither `Aborted` nor a failed primary commit can be re-entered into
/// a later phase.
pub struct CommitCoordinator {
    state: CommitState,
    entries: Vec<(Key, Mutation)>,
    start_ts: Timestamp,
    commit_ts: Option<Timestamp>,
}

impl CommitCoordinator {
    /// The current phase.
    pub closed spec fn state_spec(&self) -> CommitState {
        self.state
    }

    /// The drained buffer entries, in key order.
    pub closed spec fn entries_spec(&self) -> Seq<EntryView> {
        self.entries@.map(|i: int, e: (Key, Mutation)| (e.0@, e.1@))
    }

    /// The transaction's start timestamp.
    pub closed spec fn start_ts_spec(&self) -> Timestamp {
        self.start_ts
    }

    /// The commit timestamp, once allocated.
    pub closed spec fn commit_ts_spec(&self) -> Option<Timestamp> {
        self.commit_ts
    }

    /// The coordinator's invariant: entries strictly sorted by key; any
    /// phase past `Active` that still issues requests has a mutation to
    /// commit, and the secondary phase has its commit timestamp.
    pub open spec fn wf(&self) -> bool {
        &&& entries_sorted(self.entries_spec())
        &&& ((self.state_spec() is Prewriting || self.state_spec() is PrimaryCommitting
            || self.state_spec() is SecondaryCommitting) ==> self.entries_spec().len()
            > 0)
        &&& (self.state_spec() is SecondaryCommitting ==> self.commit_ts_spec() is Some)
    }

    /// Drains a transaction into a coordinator in the `Active` phase.
    pub fn begin(txn: Transaction) -> (r: CommitCoordinator)
        requires
            txn.wf(),
        ensures
            r.wf(),
            r.state_spec() == CommitState::Active,
            r.entries_spec() == txn@,
            r.start_ts_spec() == txn.snapshot.timestamp,
            r.commit_ts_spec() is None,
    {
        let (snapshot, buffer) = txn.into_parts();
        let entries = buffer.into_entries();
        let r = CommitCoordinator {
            state: CommitState::Active,
            entries,
            start_ts: snapshot.timestamp,
            commit_ts: None,
        };
        proof {
            assert(r.entries_spec() =~= txn@);
        }
        r
    }

    /// The current phase, for the driver.
    pub fn state(&self) -> (r: CommitState)
        ensures
            r == self.state_spec(),
    {
        self.state
    }

    /// Enters the prewrite phase and emits its single logical request:
    /// every buffered mutation — locks included, since they participate in
    /// conflict detection like writes — with the primary key chosen as the
    /// first key in the buffer's total order.
    ///
    /// A transaction that buffered nothing has nothing to prewrite and
    /// nothing the store could ever observe: it moves straight to
    /// `Committed` and no request is emitted.
    pub fn prewrite_request(&mut self) -> (r: Option<PrewriteRequest>)
        requires
            old(self).wf(),
            old(self).state_spec() == CommitState::Active,
        ensures
            final(self).wf(),
            final(self).entries_spec() == old(self).entries_spec(),
            final(self).start_ts_spec() == old(self).start_ts_spec(),
            final(self).commit_ts_spec() == old(self).commit_ts_spec(),
            old(self).entries_spec().len() == 0 ==> r is None && final(self).state_spec()
                == CommitState::Committed,
            old(self).entries_spec().len() > 0 ==> {
                &&& r is Some
                &&& final(self).state_spec() == CommitState::Prewriting
                &&& km_views(r->0.mutations@) == old(self).entries_spec()
                &&& r->0.primary@ == old(self).entries_spec()[0].0
                &&& r->0.start_ts == old(self).start_ts_spec()
            },
    {
        if self.entries.len() == 0 {
            self.state = CommitState::Committed;
            return None;
        }
        let primary = self.entries[0].0.clone();
        let mut mutations: Vec<KeyMutation> = Vec::new();
        let mut i: usize = 0;
        proof {
            assert(km_views(mutations@) =~= Seq::<EntryView>::empty());
        }
        while i < self.entries.len()
            invariant
                i <= self.entries@.len(),
                mutations@.len() == i,
                forall|x: int|
                    0 <= x < i ==> km_views(mutations@)[x] == self.entries_spec()[x],
            decreases self.entries@.len() - i,
        {
            let ghost pre = mutations@;
            mutations.push(
                KeyMutation {
                    key: self.entries[i].0.clone(),
                    mutation: self.entries[i].1.clone(),
                },
            );
            proof {
                assert(km_views(mutations@) =~= km_views(pre).push(
                    (mutations@.last().key@, mutations@.last().mutation@),
                ));
            }
            i = i + 1;
        }
        self.state = CommitState::Prewriting;
        proof {
            assert(km_views(mutations@) =~= self.entries_spec());
        }
        Some(PrewriteRequest { mutations, primary, start_ts: self.start_ts })
    }

    /// The store accepted the whole prewrite: advance to the primary commit
    /// phase.
    pub fn prewrite_succeeded(&mut self)
        requires
            old(self).wf(),
            old(self).state_spec() == CommitState::Prewriting,
        ensures
            final(self).wf(),
            final(self).state_spec() == CommitState::PrimaryCommitting,
            final(self).entries_spec() == old(self).entries_spec(),
            final(self).start_ts_spec() == old(self).start_ts_spec(),
            final(self).commit_ts_spec() == old(self).commit_ts_spec(),
    {
        self.state = CommitState::PrimaryCommitting;
    }

    /// The store reported a conflict on some key: the whole transaction
    /// aborts, nothing becomes visible, and the caller receives the
    /// conflict.
    pub fn prewrite_conflicted(&mut self) -> (r: Error)
        requires
            old(self).wf(),
            old(self).state_spec() == CommitState::Prewriting,
        ensures
            final(self).wf(),
            final(self).state_spec() == CommitState::Aborted,
            final(self).entries_spec() == old(self).entries_spec(),
            r == Error::ConflictError,
    {
        self.state = CommitState::Aborted;
        Error::ConflictError
    }

    /// Records the commit timestamp the oracle allocated and emits the
    /// commit request for the primary key alone.
    pub fn primary_commit_request(&mut self, commit_ts: Timestamp) -> (r: CommitRequest)
        requires
            old(self).wf(),
            old(self).state_spec() == CommitState::PrimaryCommitting,
            old(self).commit_ts_spec() is None,
            ts_lt(old(self).start_ts_spec(), commit_ts),
        ensures
            final(self).wf(),
            final(self).state_spec() == CommitState::PrimaryCommitting,
            final(self).entries_spec() == old(self).entries_spec(),
            final(self).start_ts_spec() == old(self).start_ts_spec(),
            final(self).commit_ts_spec() == Some(commit_ts),
            r.key@ == old(self).entries_spec()[0].0,
            r.is_primary,
            r.start_ts == old(self).start_ts_spec(),
            r.commit_ts == commit_ts,
    {
        self.commit_ts = Some(commit_ts);
        CommitRequest {
            key: self.entries[0].0.clone(),
            is_primary: true,
            start_ts: self.start_ts,
            commit_ts,
        }
    }

    /// The primary key's commit record is durable: the transaction is now
    /// committed for every observer.  Emits the best-effort commit requests
    /// for all secondary keys, in key order, under the same commit
    /// timestamp.
    pub fn primary_committed(&mut self) -> (r: Vec<CommitRequest>)
        requires
            old(self).wf(),
            old(self).state_spec() == CommitState::PrimaryCommitting,
            old(self).commit_ts_spec() is Some,
        ensures
            final(self).wf(),
            final(self).state_spec() == CommitState::SecondaryCommitting,
            final(self).entries_spec() == old(self).entries_spec(),
            final(self).start_ts_spec() == old(self).start_ts_spec(),
            final(self).commit_ts_spec() == old(self).commit_ts_spec(),
            r@.len() == old(self).entries_spec().len() - 1,
            forall|x: int|
                0 <= x < r@.len() ==> {
                    &&& (#[trigger] r@[x]).key@ == old(self).entries_spec()[x + 1].0
                    &&& !r@[x].is_primary
                    &&& r@[x].start_ts == old(self).start_ts_spec()
                    &&& Some(r@[x].commit_ts) == old(self).commit_ts_spec()
                },
    {
        let commit_ts = self.commit_ts.unwrap();
        let mut requests: Vec<CommitRequest> = Vec::new();
        let mut i: usize = 1;
        while i < self.entries.len()
            invariant
                1 <= i <= self.entries@.len(),
                requests@.len() == i - 1,
                Some(commit_ts) == self.commit_ts_spec(),
                forall|x: int|
                    0 <= x < i - 1 ==> {
                        &&& (#[trigger] requests@[x]).key@ == self.entries_spec()[x + 1].0
                        &&& !requests@[x].is_primary
                        &&& requests@[x].start_ts == self.start_ts_spec()
                        &&& requests@[x].commit_ts == commit_ts
                    },
            decreases self.entries@.len() - i,
        {
            requests.push(
                CommitRequest {
                    key: self.entries[i].0.clone(),
                    is_primary: false,
                    start_ts: self.start_ts,
                    commit_ts,
                },
            );
            i = i + 1;
        }
        self.state = CommitState::SecondaryCommitting;
        requests
    }

    /// The primary key's commit failed after a successful prewrite: the
    /// store may hold orphaned locks with no committed primary to anchor
    /// them.  The coordinator stays in `PrimaryCommitting` and the caller
    /// receives the distinguished, must-not-be-swallowed error.
    pub fn primary_commit_failed(&self) -> (r: Error)
        requires
            self.state_spec() == CommitState::PrimaryCommitting,
        ensures
            r == Error::PrimaryCommitError,
    {
        Error::PrimaryCommitError
    }

    /// The secondary commits have been issued and their outcomes collected.
    ///
    /// The outcomes are deliberately ignored: secondary commits are
    /// best-effort, and any secondary left uncommitted is cleaned up lazily
    /// by a later transaction's lock resolution.  The transaction is
    /// committed regardless.
    pub fn secondaries_finished(&mut self, outcomes: &Vec<bool>)
        requires
            old(self).wf(),
            old(self).state_spec() == CommitState::SecondaryCommitting,
        ensures
            final(self).wf(),
            final(self).state_spec() == CommitState::Committed,
            final(self).entries_spec() == old(self).entries_spec(),
    {
        self.state = CommitState::Committed;
    }
}

/// The primary key — the first entry of the sorted buffer — is minimal in
/// the byte-lexicographic order among all mutated keys, which is what makes
/// its selection deterministic across retries.
pub proof fn lemma_primary_minimal(entries: Seq<EntryView>)
    requires
        entries_sorted(entries),
        entries.len() > 0,
    ensures
        forall|i: int|
            0 <= i < entries.len() ==> entries[0].0 == (#[trigger] entries[i]).0 || lex_lt(
                entries[0].0,
                entries[i].0,
            ),
{
}

impl Transaction {
    /// Commits the transaction's actions, consuming it.
    ///
    /// The given outcomes are what the store and the oracle answered while
    /// the driver ran the phases: the prewrite's outcome, the allocated
    /// commit timestamp, the primary commit's outcome, and the outcomes of
    /// the best-effort secondary commits.
    ///
    /// The result is decided by the prewrite and the primary commit alone:
    /// a conflict aborts with `ConflictError` and nothing becomes visible; a
    /// failed primary commit surfaces `PrimaryCommitError`; once both
    /// succeed the commit succeeds, whatever happened to the secondaries —
    /// their outcomes do not appear in the result at all.  A transaction
    /// with an empty buffer commits trivially.
    pub fn commit(
        self,
        prewrite: PrewriteOutcome,
        commit_ts: Timestamp,
        primary: PrimaryCommitOutcome,
        secondaries: &Vec<bool>,
    ) -> (r: Result<(), Error>)
        requires
            self.wf(),
            ts_lt(self.snapshot.timestamp, commit_ts),
        ensures
            self@.len() == 0 ==> r == Ok::<(), Error>(()),
            self@.len() > 0 ==> r == (match (prewrite, primary) {
                (PrewriteOutcome::Conflicted, _) => Err::<(), Error>(Error::ConflictError),
                (PrewriteOutcome::Succeeded, PrimaryCommitOutcome::Failed) => Err::<
                    (),
                    Error,
                >(Error::PrimaryCommitError),
                (PrewriteOutcome::Succeeded, PrimaryCommitOutcome::Succeeded) => Ok::<
                    (),
                    Error,
                >(()),
            }),
    {
        let mut coordinator = CommitCoordinator::begin(self);
        match coordinator.prewrite_request() {
            None => Ok(()),
            Some(_prewrite_req) => {
                match prewrite {
                    PrewriteOutcome::Conflicted => Err(coordinator.prewrite_conflicted()),
                    PrewriteOutcome::Succeeded => {
                        coordinator.prewrite_succeeded();
                        let _primary_req = coordinator.primary_commit_request(commit_ts);
                        match primary {
                            PrimaryCommitOutcome::Failed => Err(
                                coordinator.primary_commit_failed(),
                            ),
                            PrimaryCommitOutcome::Succeeded => {
                                let _secondary_reqs = coordinator.primary_committed();
                                coordinator.secondaries_finished(secondaries);
                                Ok(())
                            },
                        }
                    },
                }
            },
        }
    }
}

} // verus!
