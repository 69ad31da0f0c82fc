//! The memoizing slot inside a lazy entity view.
//!
//! A view wraps a stable id and a slot that starts empty. The first time a
//! field is read, one fetch runs and its outcome — success or failure — is
//! stored; the slot then never changes for the rest of the node's lifetime,
//! so every later read observes that one outcome without a new fetch.

use vstd::prelude::*;

use crate::errors::FetchError;

verus! {

/// How a slot changes when a fetch outcome is offered: an empty slot takes
/// it, a filled slot keeps what it already holds.
pub open spec fn fill_spec<V>(
    slot: Option<Result<V, FetchError>>,
    outcome: Result<V, FetchError>,
) -> Option<Result<V, FetchError>> {
    if slot is Some {
        slot
    } else {
        Some(outcome)
    }
}

/// A slot fills exactly once: whatever outcome a later fetch would offer, a
/// filled slot is unchanged, so concurrent first reads that serialize their
/// fills all observe the outcome of the single fetch that won.
pub proof fn lemma_fill_once<V>(
    slot: Option<Result<V, FetchError>>,
    first_outcome: Result<V, FetchError>,
    later_outcome: Result<V, FetchError>,
)
    ensures
        fill_spec(fill_spec(slot, first_outcome), later_outcome) == fill_spec(
            slot,
            first_outcome,
        ),
{
}

/// The single-assignment slot of one lazy entity view.
pub struct LazySlot<V> {
    slot: Option<Result<V, FetchError>>,
}

impl<V> LazySlot<V> {
    /// What the slot holds: nothing yet, or the one memoized outcome.
    pub closed spec fn slot_view(&self) -> Option<Result<V, FetchError>> {
        self.slot
    }

    /// An empty slot: no fetch has completed for this view.
    pub fn new() -> (r: Self)
        ensures
            r.slot_view() is None,
    {
        LazySlot { slot: None }
    }

    /// A slot pre-filled with a record that is already at hand, so no fetch
    /// will ever run for this view.
    pub fn from_value(value: V) -> (r: Self)
        ensures
            r.slot_view() == Some(Ok::<V, FetchError>(value)),
    {
        LazySlot { slot: Some(Ok(value)) }
    }

    /// Whether the one fetch for this view has already completed. A caller
    /// runs the fetch only when this is false.
    pub fn is_filled(&self) -> (r: bool)
        ensures
            r == (self.slot_view() is Some),
    {
        match &self.slot {
            Some(_) => true,
            None => false,
        }
    }

    /// Offers a fetch outcome to the slot. An empty slot memoizes it; a
    /// filled slot ignores it, keeping the first outcome for every reader.
    pub fn fill(&mut self, outcome: Result<V, FetchError>)
        ensures
            final(self).slot_view() == fill_spec(old(self).slot_view(), outcome),
    {
        if self.is_filled() {
            return ;
        }
        self.slot = Some(outcome);
    }

    /// The memoized outcome, read without any fetch.
    pub fn get(&self) -> (r: &Result<V, FetchError>)
        requires
            self.slot_view() is Some,
        ensures
            match self.slot_view() {
                Some(outcome) => *r == outcome,
                None => false,
            },
    {
        self.slot.as_ref().unwrap()
    }
}

} // verus!
