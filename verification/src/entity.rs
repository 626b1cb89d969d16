//! The components of one entity, as far as replication touches them.
use crate::codec::Component;
use crate::codec::ComponentValue;
use crate::ComponentId;
use std::collections::HashMap;
use vstd::prelude::*;

verus! {

/// Writable handle to the components of one entity.
///
/// An entity holds at most one component of each type.
pub struct EntityMut {
    components: HashMap<usize, Component>,
}

impl View for EntityMut {
    type V = Map<ComponentId, ComponentValue>;

    /// The components of the entity by their types.
    closed spec fn view(&self) -> Map<ComponentId, ComponentValue> {
        Map::new(
            |id: ComponentId| self.components@.contains_key(id.0),
            |id: ComponentId| self.components@[id.0]@,
        )
    }
}

impl EntityMut {
    /// An entity without components.
    pub fn new() -> (entity: EntityMut)
        ensures
            entity@ == no_components(),
    {
        let entity = EntityMut { components: HashMap::new() };
        assert(entity@ =~= no_components());
        entity
    }

    /// Whether the entity has a component of the type.
    pub fn contains(&self, component_id: ComponentId) -> (found: bool)
        ensures
            found == self@.contains_key(component_id),
    {
        self.components.contains_key(&component_id.0)
    }

    /// The component of the type, if the entity has one.
    pub fn get(&self, component_id: ComponentId) -> (component: Option<&Component>)
        ensures
            match component {
                Some(found) => self@.contains_key(component_id) && self@[component_id] == found@,
                None => !self@.contains_key(component_id),
            },
    {
        self.components.get(&component_id.0)
    }

    /// Puts the component on the entity, in place of the one of the same type if
    /// the entity has one.
    pub fn insert(&mut self, component_id: ComponentId, component: Component)
        ensures
            final(self)@ == old(self)@.insert(component_id, component@),
    {
        self.components.insert(component_id.0, component);
        assert(self@ =~= old(self)@.insert(component_id, component@));
    }

    /// Takes the component of the type off the entity; does nothing if the entity has
    /// none.
    pub fn remove(&mut self, component_id: ComponentId)
        ensures
            final(self)@ == old(self)@.remove(component_id),
    {
        self.components.remove(&component_id.0);
        assert(self@ =~= old(self)@.remove(component_id));
    }
}

/// The components of an entity that has none.
pub open spec fn no_components() -> Map<ComponentId, ComponentValue> {
    Map::empty()
}

} // verus!
