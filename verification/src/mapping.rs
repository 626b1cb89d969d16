//! Entities, and the mapping of a peer's entities to those of this process.
use std::collections::HashMap;
use vstd::prelude::*;

verus! {

/// The bits of the entity that stands for "no entity": index `u32::MAX`,
/// generation zero.
pub const PLACEHOLDER_BITS: u64 = 0xffff_ffff;

/// Reference to an entity, held as the bits that identify it.
#[derive(Clone, Copy, Debug, PartialEq, Eq, Structural)]
pub struct Entity(pub u64);

impl Entity {
    /// The entity that stands for "no entity". It is what a reference becomes when
    /// the peer's entity is not known here.
    pub fn placeholder() -> (entity: Entity)
        ensures
            entity == Entity(PLACEHOLDER_BITS),
    {
        Entity(PLACEHOLDER_BITS)
    }
}

/// Maps the entities of a peer to entities of this process.
///
/// `mapped` and `after` describe `map`: what it answers, and the state in which it
/// leaves the mapper. Nothing is assumed about either, so a mapper may change with
/// every call.
pub trait Mapper: Sized {
    /// What `map` answers for `entity` in this state.
    spec fn mapped(&self, entity: Entity) -> Entity;

    /// The state of the mapper after `map` was called for `entity` in this state.
    spec fn after(&self, entity: Entity) -> Self;

    /// The entity of this process that stands for `entity` of the peer.
    fn map(&mut self, entity: Entity) -> (local: Entity)
        ensures
            local == old(self).mapped(entity),
            *final(self) == old(self).after(entity),
    ;
}

/// The outcome of calling `map` once for each of `entities`, from the first to the
/// last: the answers in the same order, and the state in which the mapper is left.
pub open spec fn map_all<M: Mapper>(mapper: M, entities: Seq<Entity>) -> (Seq<Entity>, M)
    decreases entities.len(),
{
    if entities.len() == 0 {
        (Seq::empty(), mapper)
    } else {
        let (answers, state) = map_all(mapper, entities.drop_last());
        (answers.push(state.mapped(entities.last())), state.after(entities.last()))
    }
}

/// There is one answer for each entity.
pub proof fn lemma_map_all_len<M: Mapper>(mapper: M, entities: Seq<Entity>)
    ensures
        map_all(mapper, entities).0.len() == entities.len(),
    decreases entities.len(),
{
    if entities.len() > 0 {
        lemma_map_all_len(mapper, entities.drop_last());
    }
}

/// Maps entities inside a component.
///
/// A miss never creates an entity: what an unknown entity becomes is the mapper's
/// answer, and nothing else.
pub trait MapNetworkEntities: Sized {
    /// The entities that the value refers to, in the order in which
    /// `map_entities` visits them.
    spec fn entities(&self) -> Seq<Entity>;

    /// Replaces each entity that the value refers to by the mapper's answer for it,
    /// asking the mapper once per reference, in order.
    fn map_entities<T: Mapper>(&mut self, mapper: &mut T)
        ensures
            final(self).entities() == map_all(*old(mapper), old(self).entities()).0,
            *final(mapper) == map_all(*old(mapper), old(self).entities()).1,
    ;
}

/// Table from the entities of a peer to the entities of this process that stand for
/// them.
pub struct NetworkEntityMap {
    server_to_client: HashMap<u64, u64>,
}

impl NetworkEntityMap {
    /// The entity of this process that stands for `remote`, if the table knows one.
    pub closed spec fn local(&self, remote: Entity) -> Option<Entity> {
        if self.server_to_client@.contains_key(remote.0) {
            Some(Entity(self.server_to_client@[remote.0]))
        } else {
            None
        }
    }

    /// A table that knows no entity.
    pub fn new() -> (map: NetworkEntityMap)
        ensures
            forall|remote: Entity| #[trigger] map.local(remote) is None,
    {
        NetworkEntityMap { server_to_client: HashMap::new() }
    }

    /// Lets `local` stand for `remote` from now on.
    pub fn insert(&mut self, remote: Entity, local: Entity)
        ensures
            final(self).local(remote) == Some(local),
            forall|other: Entity|
                other != remote ==> #[trigger] final(self).local(other) == old(self).local(other),
    {
        self.server_to_client.insert(remote.0, local.0);
        assert forall|other: Entity| other != remote implies #[trigger] self.local(other) == old(
            self,
        ).local(other) by {
            assert(other.0 != remote.0);
        }
    }

    /// The entity of this process that stands for `remote`, or `None` where the table
    /// knows none.
    pub fn get(&self, remote: Entity) -> (local: Option<Entity>)
        ensures
            local == self.local(remote),
    {
        match self.server_to_client.get(&remote.0) {
            Some(bits) => Some(Entity(*bits)),
            None => None,
        }
    }
}

/// Maps the entities of a peer by looking them up in a [`NetworkEntityMap`].
///
/// An entity that the table does not know becomes [`Entity::placeholder`]. The table
/// is only read: no entry and no entity is ever created by mapping.
pub struct ClientMapper<'a> {
    entity_map: &'a NetworkEntityMap,
}

impl<'a> ClientMapper<'a> {
    /// The table that the mapper reads.
    pub closed spec fn table(&self) -> NetworkEntityMap {
        *self.entity_map
    }

    /// A mapper that reads `entity_map`.
    pub fn new(entity_map: &'a NetworkEntityMap) -> (mapper: ClientMapper<'a>)
        ensures
            mapper.table() == *entity_map,
    {
        ClientMapper { entity_map }
    }
}

impl<'a> Mapper for ClientMapper<'a> {
    open spec fn mapped(&self, entity: Entity) -> Entity {
        match self.table().local(entity) {
            Some(local) => local,
            None => Entity(PLACEHOLDER_BITS),
        }
    }

    open spec fn after(&self, entity: Entity) -> Self {
        *self
    }

    fn map(&mut self, entity: Entity) -> (local: Entity) {
        match self.entity_map.get(entity) {
            Some(local) => local,
            None => Entity::placeholder(),
        }
    }
}

/// Hands out the entities of a list, one for each call, in order. It serves to put
/// mapped entities back into a component whose entities were listed before.
///
/// Once the list is used up, the answer is [`Entity::placeholder`].
pub struct Replay {
    entities: Vec<Entity>,
    next: usize,
}

impl Replay {
    /// The list of answers.
    pub closed spec fn answers(&self) -> Seq<Entity> {
        self.entities@
    }

    /// The number of answers that were given.
    pub closed spec fn given(&self) -> nat {
        self.next as nat
    }

    /// A mapper that will answer with `entities`, from the first on.
    pub fn new(entities: Vec<Entity>) -> (replay: Replay)
        ensures
            replay.answers() == entities@,
            replay.given() == 0,
    {
        Replay { entities, next: 0 }
    }
}

impl Mapper for Replay {
    open spec fn mapped(&self, entity: Entity) -> Entity {
        if self.given() < self.answers().len() {
            self.answers()[self.given() as int]
        } else {
            Entity(PLACEHOLDER_BITS)
        }
    }

    closed spec fn after(&self, entity: Entity) -> Self {
        if self.next < self.entities@.len() {
            Replay { entities: self.entities, next: (self.next + 1) as usize }
        } else {
            *self
        }
    }

    fn map(&mut self, entity: Entity) -> (local: Entity) {
        if self.next < self.entities.len() {
            let local = self.entities[self.next];
            self.next = self.next + 1;
            local
        } else {
            Entity::placeholder()
        }
    }
}

/// One call moves a [`Replay`] to its next answer and leaves the list as it is.
pub proof fn lemma_replay_step(replay: Replay, entity: Entity)
    ensures
        replay.after(entity).answers() == replay.answers(),
        replay.after(entity).given() == if replay.given() < replay.answers().len() {
            replay.given() + 1
        } else {
            replay.given()
        },
{
    assert(replay.entities@.len() == replay.entities.len());
}

/// Asked as often as it has answers, a fresh [`Replay`] gives exactly its list,
/// whatever it is asked.
pub proof fn lemma_replay_gives_its_list(replay: Replay, asked: Seq<Entity>)
    requires
        replay.given() == 0,
        asked.len() <= replay.answers().len(),
    ensures
        map_all(replay, asked).0 == replay.answers().take(asked.len() as int),
        map_all(replay, asked).1.answers() == replay.answers(),
        map_all(replay, asked).1.given() == asked.len(),
    decreases asked.len(),
{
    if asked.len() == 0 {
        assert(map_all(replay, asked).0 =~= replay.answers().take(0));
    } else {
        lemma_replay_gives_its_list(replay, asked.drop_last());
        let state = map_all(replay, asked.drop_last()).1;
        lemma_replay_step(state, asked.last());
        assert(map_all(replay, asked).0 =~= replay.answers().take(asked.len() as int));
    }
}

/// Mapping through a [`ClientMapper`] leaves the mapper, and with it the table, as
/// it was: whatever is looked up, no entry is made.
pub proof fn lemma_client_mapper_is_only_read(mapper: ClientMapper, entities: Seq<Entity>)
    ensures
        map_all(mapper, entities).1 == mapper,
    decreases entities.len(),
{
    if entities.len() > 0 {
        lemma_client_mapper_is_only_read(mapper, entities.drop_last());
    }
}

/// A [`ClientMapper`] answers position by position: a known entity becomes the one
/// that the table holds for it, an unknown one the placeholder.
pub proof fn lemma_client_mapper_answers(mapper: ClientMapper, entities: Seq<Entity>)
    ensures
        map_all(mapper, entities).0.len() == entities.len(),
        forall|i: int|
            0 <= i < entities.len() ==> #[trigger] map_all(mapper, entities).0[i]
                == match mapper.table().local(entities[i]) {
                Some(local) => local,
                None => Entity(PLACEHOLDER_BITS),
            },
    decreases entities.len(),
{
    if entities.len() > 0 {
        lemma_client_mapper_answers(mapper, entities.drop_last());
        lemma_client_mapper_is_only_read(mapper, entities.drop_last());
    }
}

} // verus!
