//! Buffered mutations and their projection onto reads.

use vstd::prelude::*;
use crate::kv::Value;

verus! {

/// The single pending action a transaction holds for one key.
///
/// Setting a new mutation for a key replaces the previous one; no history is
/// kept.  `Lock` registers an intent to guard the key without changing its
/// value.
#[derive(Debug)]
pub enum Mutation {
    Put(Value),
    Delete,
    Lock,
}

/// The mathematical value of a [`Mutation`]: the same variants over byte
/// sequences.
pub enum MutationView {
    Put(Seq<u8>),
    Delete,
    Lock,
}

impl View for Mutation {
    type V = MutationView;

    open spec fn view(&self) -> MutationView {
        match self {
            Mutation::Put(v) => MutationView::Put(v@),
            Mutation::Delete => MutationView::Delete,
            Mutation::Lock => MutationView::Lock,
        }
    }
}

/// What a read of a key would see given the key's buffered mutation, if any:
/// either the buffer determines the answer, or the snapshot must be asked.
#[derive(Debug)]
pub enum MutationValue {
    Determined(Option<Value>),
    Undetermined,
}

/// The mathematical value of a [`MutationValue`].
pub enum MutationValueView {
    Determined(Option<Seq<u8>>),
    Undetermined,
}

impl View for MutationValue {
    type V = MutationValueView;

    open spec fn view(&self) -> MutationValueView {
        match self {
            MutationValue::Determined(Some(v)) => MutationValueView::Determined(Some(v@)),
            MutationValue::Determined(None) => MutationValueView::Determined(None),
            MutationValue::Undetermined => MutationValueView::Undetermined,
        }
    }
}

/// Projects a key's buffered mutation (or its absence) onto what a read would
/// see: a `Put` determines its value, a `Delete` determines absence, and a
/// `Lock` or no mutation leaves the value undetermined.
pub open spec fn project_mutation(m: Option<MutationView>) -> MutationValueView {
    match m {
        Some(MutationView::Put(v)) => MutationValueView::Determined(Some(v)),
        Some(MutationView::Delete) => MutationValueView::Determined(None),
        Some(MutationView::Lock) => MutationValueView::Undetermined,
        None => MutationValueView::Undetermined,
    }
}

impl Mutation {
    /// The projection of this mutation onto a read, total over all variants
    /// and free of side effects.
    pub fn get_value(&self) -> (r: MutationValue)
        ensures
            r@ == project_mutation(Some(self@)),
    {
        match self {
            Mutation::Put(v) => MutationValue::Determined(Some(v.clone())),
            Mutation::Delete => MutationValue::Determined(None),
            Mutation::Lock => MutationValue::Undetermined,
        }
    }
}

impl Clone for Mutation {
    fn clone(&self) -> (r: Mutation)
        ensures
            r@ == self@,
    {
        match self {
            Mutation::Put(v) => Mutation::Put(v.clone()),
            Mutation::Delete => Mutation::Delete,
            Mutation::Lock => Mutation::Lock,
        }
    }
}

} // verus!
