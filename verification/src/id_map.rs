//! The table from component types to the positions of their rules.
use crate::ComponentId;
use crate::ReplicationId;
use bevy::utils::HashMap;
use vstd::prelude::*;

verus! {

/// Hash table from component-type indices to positions in the list of rules.
///
/// The table itself is `bevy::utils::HashMap<usize, usize>`; nothing of its inside
/// is visible to proofs, which speak of it through [`id_map_contents`] only.
#[verifier::external_body]
pub struct IdMap {
    table: HashMap<usize, usize>,
}

/// The key-value pairs that the table holds.
pub uninterp spec fn id_map_contents(m: IdMap) -> Map<usize, usize>;

/// The contents of a table without keys.
pub open spec fn no_ids() -> Map<usize, usize> {
    Map::empty()
}

impl View for IdMap {
    type V = Map<usize, usize>;

    open spec fn view(&self) -> Map<usize, usize> {
        id_map_contents(*self)
    }
}

impl IdMap {
    /// Calls `HashMap::default`, which creates an empty table.
    #[verifier::external_body]
    pub(crate) fn new() -> (m: IdMap)
        ensures
            id_map_contents(m) == no_ids(),
    {
        IdMap { table: HashMap::default() }
    }

    /// Calls `HashMap::insert`: afterwards the table maps `key` to `value` and is
    /// otherwise as before. The result is the value that `key` had before, if any.
    #[verifier::external_body]
    pub(crate) fn insert(&mut self, key: usize, value: usize) -> (previous: Option<usize>)
        ensures
            id_map_contents(*final(self)) == id_map_contents(*old(self)).insert(key, value),
            previous == (if id_map_contents(*old(self)).contains_key(key) {
                Some(id_map_contents(*old(self))[key])
            } else {
                None
            }),
    {
        self.table.insert(key, value)
    }

    /// Calls `HashMap::get`: the value stored for `key`, or `None` where the table has
    /// no such key.
    #[verifier::external_body]
    pub(crate) fn get(&self, key: usize) -> (value: Option<usize>)
        ensures
            value == (if id_map_contents(*self).contains_key(key) {
                Some(id_map_contents(*self)[key])
            } else {
                None
            }),
    {
        self.table.get(&key).copied()
    }

    /// The position of the rule for a component type, or `None` where the table does
    /// not hold the type.
    pub fn replication_id(&self, component_id: ComponentId) -> (id: Option<ReplicationId>)
        ensures
            id == (if self@.contains_key(component_id.0) {
                Some(ReplicationId(self@[component_id.0]))
            } else {
                None
            }),
    {
        match self.get(component_id.0) {
            Some(position) => Some(ReplicationId(position)),
            None => None,
        }
    }
}

} // verus!
