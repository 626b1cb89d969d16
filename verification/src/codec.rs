//! Components on the wire: the default functions that write a component, put a read
//! component on an entity, map the entities inside it, and remove it.
//!
//! What the bytes of a component are is decided where the component's type is known:
//! the host serializes a component before it hands it over, and deserializes the
//! received bytes before it hands over what came out. The functions here append
//! those bytes and nothing else, and say what happens for every outcome of reading.
use crate::entity::EntityMut;
use crate::mapping::lemma_client_mapper_is_only_read;
use crate::mapping::lemma_map_all_len;
use crate::mapping::map_all;
use crate::mapping::ClientMapper;
use crate::mapping::Entity;
use crate::mapping::MapNetworkEntities;
use crate::mapping::Mapper;
use crate::mapping::PLACEHOLDER_BITS;
use crate::wire::ReplicationError;
use crate::ComponentId;
use vstd::prelude::*;

verus! {

/// A component as replication sees it: its serialized bytes, and the entities that
/// it refers to, in the order in which they are visited.
#[derive(Clone, Debug, PartialEq, Eq)]
pub struct Component {
    /// The entities that the component refers to.
    pub entities: Vec<Entity>,
    /// The serialized bytes of the component: what it is on the wire.
    pub payload: Vec<u8>,
}

/// What a [`Component`] holds.
pub struct ComponentValue {
    /// The entities that the component refers to.
    pub entities: Seq<Entity>,
    /// The serialized bytes of the component.
    pub payload: Seq<u8>,
}

impl View for Component {
    type V = ComponentValue;

    open spec fn view(&self) -> ComponentValue {
        ComponentValue { entities: self.entities@, payload: self.payload@ }
    }
}

/// Default serialization function: appends the serialized bytes of the component to
/// `out`, and nothing else. Neither a length nor the entities are written.
pub fn serialize_component(component: &Component, out: &mut Vec<u8>) -> (written: Result<
    (),
    ReplicationError,
>)
    ensures
        written is Ok,
        final(out)@ == old(out)@ + component@.payload,
{
    out.extend_from_slice(component.payload.as_slice());
    Ok(())
}

impl MapNetworkEntities for Component {
    open spec fn entities(&self) -> Seq<Entity> {
        self.entities@
    }

    /// Maps the entities of the component in place, from the first to the last; their
    /// number and the payload stay as they are.
    fn map_entities<T: Mapper>(&mut self, mapper: &mut T)
        ensures
            final(self).payload@ == old(self).payload@,
            final(self).entities@.len() == old(self).entities@.len(),
    {
        let count: usize = self.entities.len();
        let mut i: usize = 0;
        while i < count
            invariant
                i <= count,
                count == self.entities@.len(),
                count == old(self).entities@.len(),
                self.payload@ == old(self).payload@,
                self.entities@.take(i as int) == map_all(
                    *old(mapper),
                    old(self).entities@.take(i as int),
                ).0,
                *mapper == map_all(*old(mapper), old(self).entities@.take(i as int)).1,
                forall|j: int| i <= j < count ==> self.entities@[j] == old(self).entities@[j],
            decreases count - i,
        {
            let ghost done = self.entities@.take(i as int);
            let remote = self.entities[i];
            let local = mapper.map(remote);
            self.entities.set(i, local);
            proof {
                let next = old(self).entities@.take(i + 1);
                assert(next.drop_last() =~= old(self).entities@.take(i as int));
                assert(next.last() == remote);
                assert(self.entities@.take(i + 1) =~= done.push(local));
            }
            i = i + 1;
        }
        assert(self.entities@.take(count as int) =~= self.entities@);
        assert(old(self).entities@.take(count as int) =~= old(self).entities@);
    }
}

/// The component with each of its entities replaced by the mapper's answer for it.
pub open spec fn mapped_value<M: Mapper>(mapper: M, component: ComponentValue) -> ComponentValue {
    ComponentValue {
        entities: map_all(mapper, component.entities).0,
        payload: component.payload,
    }
}

/// Mapping keeps the number of entities and the payload of a component.
pub proof fn lemma_mapped_value_shape<M: Mapper>(mapper: M, component: ComponentValue)
    ensures
        mapped_value(mapper, component).entities.len() == component.entities.len(),
        mapped_value(mapper, component).payload == component.payload,
{
    lemma_map_all_len(mapper, component.entities);
}

/// A component that refers to no entity is the same after mapping, and the mapper is
/// not asked: for such components reading with and without mapping agree.
pub proof fn lemma_mapped_without_entities<M: Mapper>(mapper: M, component: ComponentValue)
    requires
        component.entities.len() == 0,
    ensures
        mapped_value(mapper, component) == component,
        map_all(mapper, component.entities).1 == mapper,
{
    assert(map_all(mapper, component.entities).0 =~= component.entities);
}

/// Remapping: when a component that refers to one entity is mapped, and the mapper
/// answers `local` for that entity, the component that comes out refers to `local`,
/// and its payload is the one that it had.
pub proof fn lemma_reference_is_remapped<M: Mapper>(
    mapper: M,
    component: ComponentValue,
    local: Entity,
)
    requires
        component.entities.len() == 1,
        mapper.mapped(component.entities[0]) == local,
    ensures
        mapped_value(mapper, component) == (
            ComponentValue { entities: seq![local], payload: component.payload }
        ),
{
    let entities = component.entities;
    assert(entities.drop_last() =~= Seq::<Entity>::empty());
    assert(map_all(mapper, entities.drop_last()) == (Seq::<Entity>::empty(), mapper));
    assert(map_all(mapper, entities).0 =~= seq![local]);
}

/// No entity is made up on a miss: when a component that refers to an entity which
/// the table does not know is mapped through a [`ClientMapper`], the component that
/// comes out refers to the placeholder, and the mapper, with its table, is as it was
/// before.
pub proof fn lemma_unknown_reference_becomes_placeholder(
    mapper: ClientMapper,
    component: ComponentValue,
)
    requires
        component.entities.len() == 1,
        mapper.table().local(component.entities[0]) is None,
    ensures
        mapped_value(mapper, component) == (
            ComponentValue { entities: seq![Entity(PLACEHOLDER_BITS)], payload: component.payload }
        ),
        map_all(mapper, component.entities).1 == mapper,
{
    lemma_reference_is_remapped(mapper, component, Entity(PLACEHOLDER_BITS));
    lemma_client_mapper_is_only_read(mapper, component.entities);
}

/// Removing is idempotent: taking a component type off an entity a second time
/// changes nothing.
pub proof fn lemma_remove_twice(
    components: Map<ComponentId, ComponentValue>,
    component_id: ComponentId,
)
    ensures
        components.remove(component_id).remove(component_id) == components.remove(component_id),
        !components.contains_key(component_id) ==> components.remove(component_id) == components,
{
    assert(components.remove(component_id).remove(component_id) =~= components.remove(
        component_id,
    ));
    if !components.contains_key(component_id) {
        assert(components.remove(component_id) =~= components);
    }
}

/// Default deserialization function: takes what the reading of a component from the
/// received bytes gave, and puts the component on the entity as the component of
/// type `component_id`, in place of the one that the entity may have had.
///
/// Where the reading failed the result is [`ReplicationError::Decoding`] and the
/// entity stays as it was.
pub fn deserialize_component(
    entity: &mut EntityMut,
    component_id: ComponentId,
    decoded: Result<Component, Box<bincode::ErrorKind>>,
) -> (read: Result<(), ReplicationError>)
    ensures
        match decoded {
            Ok(component) => {
                &&& read is Ok
                &&& final(entity)@ == old(entity)@.insert(component_id, component@)
            },
            Err(_) => {
                &&& read matches Err(error) && error == ReplicationError::Decoding
                &&& final(entity)@ == old(entity)@
            },
        },
{
    match decoded {
        Ok(component) => {
            entity.insert(component_id, component);
            Ok(())
        },
        Err(_) => Err(ReplicationError::Decoding),
    }
}

/// Like [`deserialize_component`], but also maps the entities of the component before
/// it is put on the entity: the mapper is asked once for each, in order.
///
/// Where the reading failed the result is [`ReplicationError::Decoding`]; the entity
/// stays as it was, and the mapper is not asked.
pub fn deserialize_mapped_component<M: Mapper>(
    entity: &mut EntityMut,
    component_id: ComponentId,
    mapper: &mut M,
    decoded: Result<Component, Box<bincode::ErrorKind>>,
) -> (read: Result<(), ReplicationError>)
    ensures
        match decoded {
            Ok(component) => {
                &&& read is Ok
                &&& final(entity)@ == old(entity)@.insert(
                    component_id,
                    mapped_value(*old(mapper), component@),
                )
                &&& *final(mapper) == map_all(*old(mapper), component@.entities).1
            },
            Err(_) => {
                &&& read matches Err(error) && error == ReplicationError::Decoding
                &&& final(entity)@ == old(entity)@
                &&& *final(mapper) == *old(mapper)
            },
        },
{
    match decoded {
        Ok(component) => {
            let mut component = component;
            component.map_entities(mapper);
            entity.insert(component_id, component);
            Ok(())
        },
        Err(_) => Err(ReplicationError::Decoding),
    }
}

/// Removes the component of type `component_id` from the entity; does nothing if the
/// entity has none.
pub fn remove_component(entity: &mut EntityMut, component_id: ComponentId)
    ensures
        final(entity)@ == old(entity)@.remove(component_id),
{
    entity.remove(component_id);
}

} // verus!
