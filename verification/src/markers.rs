//! Marker components that switch replication on for an entity and off for single
//! component types.
use std::marker::PhantomData;
use vstd::prelude::*;

verus! {

/// Marks an entity for replication: only entities that carry it are replicated.
#[derive(Clone, Copy, Debug, PartialEq, Eq, Structural)]
pub struct Replication;

/// Replication is ignored for `T` on the entities that carry this marker.
///
/// The marker holds nothing. There is one marker type for each component type `T`, so
/// that a component type can be excluded on an entity without touching the others.
pub struct Ignored<T>(PhantomData<T>);

impl<T> Ignored<T> {
    /// The marker for `T`.
    pub closed spec fn marker() -> Ignored<T> {
        Ignored(PhantomData)
    }
}

impl<T> Default for Ignored<T> {
    fn default() -> (marker: Self)
        ensures
            marker == Ignored::<T>::marker(),
    {
        Self(PhantomData)
    }
}

} // verus!
