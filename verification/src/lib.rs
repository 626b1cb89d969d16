//! Rules that say which component types are replicated over the network, and the
//! functions that write, read, remap and remove such components.
//!
//! A component type is known inside one process by a [`ComponentId`] that the entity
//! store hands out, and on the wire by a [`ReplicationId`]: the position at which the
//! type was registered. Peers agree on the second as long as they register the same
//! types in the same order.
use vstd::prelude::*;

pub mod codec;
pub mod entity;
pub mod id_map;
pub mod mapping;
pub mod markers;
pub mod rules;
pub mod wire;

verus! {

/// Identifier that the entity store assigns to a component type within one process.
#[derive(Clone, Copy, Debug, PartialEq, Eq, Structural)]
pub struct ComponentId(pub usize);

/// Identifier of a replicated component type that is the same on every peer:
/// the position of its rule in [`rules::ReplicationRules`].
#[derive(Clone, Copy, Debug, PartialEq, Eq, Structural)]
pub struct ReplicationId(pub usize);

} // verus!
