//! The replication rules: which component types are replicated, under which
//! identifiers, and by which functions.
use crate::codec::deserialize_component;
use crate::codec::deserialize_mapped_component;
use crate::codec::mapped_value;
use crate::codec::remove_component;
use crate::codec::serialize_component;
use crate::codec::Component;
use crate::codec::ComponentValue;
use crate::entity::EntityMut;
use crate::id_map::no_ids;
use crate::id_map::IdMap;
use crate::mapping::map_all;
use crate::mapping::Mapper;
use crate::wire::bincode_write_u64;
use crate::wire::lemma_parse_varint_of_varint;
use crate::wire::parse_varint;
use crate::wire::varint;
use crate::wire::Cursor;
use crate::wire::ReplicationError;
use crate::ComponentId;
use crate::ReplicationId;
use vstd::prelude::*;

verus! {

/// Names the function that writes a component of one type to the wire.
#[derive(Clone, Copy, Debug, PartialEq, Eq, Structural)]
pub enum SerializeFn {
    /// The default encoding of a component.
    Component,
    /// A function of the host's own, known by the number that the host gave it.
    Custom(usize),
}

/// Names the function that reads a component of one type from the wire and puts it
/// on an entity.
#[derive(Clone, Copy, Debug, PartialEq, Eq, Structural)]
pub enum DeserializeFn {
    /// The default decoding of a component.
    Component,
    /// The default decoding, followed by the mapping of the entities that the
    /// component refers to.
    MappedComponent,
    /// A function of the host's own, known by the number that the host gave it.
    Custom(usize),
}

/// What is recorded about one replicated component type.
#[derive(Clone, Copy, Debug, PartialEq, Eq, Structural)]
pub struct ReplicationInfo {
    /// The component type that the rule is about; removing acts on this type.
    pub component_id: ComponentId,
    /// The marker type that excludes this component type from replication on the
    /// entities that carry it.
    pub ignored_id: ComponentId,
    /// How components of the type are written.
    pub serialize: SerializeFn,
    /// How components of the type are read.
    pub deserialize: DeserializeFn,
}

/// What a call through a rule has done.
#[derive(Clone, Copy, Debug, PartialEq, Eq, Structural)]
pub enum Dispatch {
    /// The function that the rule names has run.
    Done,
    /// The rule names a function of the host, by this number. Nothing was done: the
    /// host has to run that function.
    Custom(usize),
}

impl ReplicationInfo {
    /// Whether `id` is the component type or the exclusion marker of the rule.
    pub open spec fn touches(&self, id: ComponentId) -> bool {
        self.component_id == id || self.ignored_id == id
    }

    /// Writes a component of the rule's type to `out` by the function that the rule
    /// names for writing.
    pub fn serialize(&self, component: &Component, out: &mut Vec<u8>) -> (written: Result<
        Dispatch,
        ReplicationError,
    >)
        ensures
            match self.serialize {
                SerializeFn::Component => {
                    &&& written matches Ok(done) && done == Dispatch::Done
                    &&& final(out)@ == old(out)@ + component@.payload
                },
                SerializeFn::Custom(number) => {
                    &&& written matches Ok(done) && done == Dispatch::Custom(number)
                    &&& final(out)@ == old(out)@
                },
            },
    {
        match self.serialize {
            SerializeFn::Component => match serialize_component(component, out) {
                Ok(_) => Ok(Dispatch::Done),
                Err(error) => Err(error),
            },
            SerializeFn::Custom(number) => Ok(Dispatch::Custom(number)),
        }
    }

    /// Takes what the reading of a component of the rule's type gave and puts the
    /// component on the entity, by the function that the rule names for reading.
    ///
    /// Where the rule names a function of the host, nothing is done and `decoded` is
    /// dropped: the host's function reads the bytes itself.
    pub fn deserialize<M: Mapper>(
        &self,
        entity: &mut EntityMut,
        mapper: &mut M,
        decoded: Result<Component, Box<bincode::ErrorKind>>,
    ) -> (read: Result<Dispatch, ReplicationError>)
        ensures
            match (self.deserialize, decoded) {
                (DeserializeFn::Custom(number), _) => {
                    &&& read matches Ok(done) && done == Dispatch::Custom(number)
                    &&& final(entity)@ == old(entity)@
                    &&& *final(mapper) == *old(mapper)
                },
                (_, Err(_)) => {
                    &&& read matches Err(error) && error == ReplicationError::Decoding
                    &&& final(entity)@ == old(entity)@
                    &&& *final(mapper) == *old(mapper)
                },
                (DeserializeFn::Component, Ok(component)) => {
                    &&& read matches Ok(done) && done == Dispatch::Done
                    &&& final(entity)@ == old(entity)@.insert(self.component_id, component@)
                    &&& *final(mapper) == *old(mapper)
                },
                (DeserializeFn::MappedComponent, Ok(component)) => {
                    &&& read matches Ok(done) && done == Dispatch::Done
                    &&& final(entity)@ == old(entity)@.insert(
                        self.component_id,
                        mapped_value(*old(mapper), component@),
                    )
                    &&& *final(mapper) == map_all(*old(mapper), component@.entities).1
                },
            },
    {
        match self.deserialize {
            DeserializeFn::Component => match deserialize_component(
                entity,
                self.component_id,
                decoded,
            ) {
                Ok(_) => Ok(Dispatch::Done),
                Err(error) => Err(error),
            },
            DeserializeFn::MappedComponent => match deserialize_mapped_component(
                entity,
                self.component_id,
                mapper,
                decoded,
            ) {
                Ok(_) => Ok(Dispatch::Done),
                Err(error) => Err(error),
            },
            DeserializeFn::Custom(number) => Ok(Dispatch::Custom(number)),
        }
    }

    /// Removes the component of the rule's type from the entity; does nothing if the
    /// entity has none.
    pub fn remove(&self, entity: &mut EntityMut)
        ensures
            final(entity)@ == old(entity)@.remove(self.component_id),
    {
        remove_component(entity, self.component_id);
    }
}

/// Writes a replication identifier to `out`, as an integer in the variable-length
/// encoding.
pub fn write_replication_id(replication_id: ReplicationId, out: &mut Vec<u8>) -> (written: Result<
    (),
    ReplicationError,
>)
    ensures
        written is Ok,
        final(out)@ == old(out)@ + varint(replication_id.0 as u64),
{
    match bincode_write_u64(out, replication_id.0 as u64) {
        Ok(_) => Ok(()),
        Err(_) => Err(ReplicationError::Encoding),
    }
}

/// Stores which component types are replicated and how.
pub struct ReplicationRules {
    /// Maps component types to the positions of their rules.
    ids: IdMap,
    /// One rule per replicated component type, in the order of registration.
    info: Vec<ReplicationInfo>,
    /// The marker type that entities carry when they are replicated at all.
    marker_id: ComponentId,
}

impl ReplicationRules {
    /// The rules in the order of their registration.
    pub closed spec fn records(&self) -> Seq<ReplicationInfo> {
        self.info@
    }

    /// The position of its rule for each registered component type.
    pub closed spec fn ids(&self) -> Map<usize, usize> {
        self.ids@
    }

    /// The marker type of replicated entities.
    pub closed spec fn marker(&self) -> ComponentId {
        self.marker_id
    }

    /// Component types and positions correspond one to one: each registered type leads
    /// to a rule about that type, and each rule is found under its own type. And the
    /// identifiers in use are all different: the marker of replicated entities, the
    /// component type of each rule and the exclusion marker of each rule.
    pub open spec fn wf(&self) -> bool {
        &&& forall|c: usize| #[trigger]
            self.ids().contains_key(c) ==> self.ids()[c] < self.records().len()
                && self.records()[self.ids()[c] as int].component_id == ComponentId(c)
        &&& forall|k: int|
            0 <= k < self.records().len() ==> self.ids().contains_key(
                (#[trigger] self.records()[k]).component_id.0,
            ) && self.ids()[self.records()[k].component_id.0] == k
        &&& self.distinct()
    }

    /// The identifiers in use are all different.
    pub open spec fn distinct(&self) -> bool {
        &&& forall|k: int|
            0 <= k < self.records().len() ==> {
                &&& (#[trigger] self.records()[k]).component_id != self.records()[k].ignored_id
                &&& !self.records()[k].touches(self.marker())
            }
        &&& forall|k: int, l: int|
            0 <= k < self.records().len() && 0 <= l < self.records().len() && k != l ==> {
                &&& !(#[trigger] self.records()[l]).touches(
                    (#[trigger] self.records()[k]).component_id,
                )
                &&& !self.records()[l].touches(self.records()[k].ignored_id)
            }
    }

    /// Whether `id` is in use: as the marker of replicated entities, or as the component
    /// type or the exclusion marker of a rule.
    pub open spec fn uses(&self, id: ComponentId) -> bool {
        id == self.marker() || exists|k: int|
            0 <= k < self.records().len() && (#[trigger] self.records()[k]).touches(id)
    }

    /// Whether a rule for `component_id` with the exclusion marker `ignored_id` can be
    /// added: the two differ, and neither is in use.
    pub open spec fn accepts(&self, component_id: ComponentId, ignored_id: ComponentId) -> bool {
        &&& component_id != ignored_id
        &&& !self.uses(component_id)
        &&& !self.uses(ignored_id)
    }

    /// Whether a rule exists for the component type.
    pub open spec fn is_registered(&self, component_id: ComponentId) -> bool {
        self.ids().contains_key(component_id.0)
    }

    /// The position of the rule for the component type, if one exists.
    pub open spec fn ordinal_of(&self, component_id: ComponentId) -> Option<ReplicationId> {
        if self.is_registered(component_id) {
            Some(ReplicationId(self.ids()[component_id.0]))
        } else {
            None
        }
    }

    /// Whether `id` is the position of a rule.
    pub open spec fn has(&self, id: ReplicationId) -> bool {
        id.0 < self.records().len()
    }

    /// Whether `after` is `self` with one more rule, `record`, for a component type
    /// that had none: the rule stands last, and nothing else has changed.
    pub open spec fn extended_by(&self, record: ReplicationInfo, after: ReplicationRules) -> bool {
        &&& !self.is_registered(record.component_id)
        &&& self.accepts(record.component_id, record.ignored_id)
        &&& after.records() == self.records().push(record)
        &&& after.ids() == self.ids().insert(record.component_id.0, self.records().len() as usize)
        &&& after.marker() == self.marker()
    }

    /// Rules without any replicated component type, for the given marker type of
    /// replicated entities.
    pub fn new(marker_id: ComponentId) -> (rules: ReplicationRules)
        ensures
            rules.wf(),
            rules.records() == Seq::<ReplicationInfo>::empty(),
            rules.ids() == no_ids(),
            rules.marker() == marker_id,
    {
        ReplicationRules { ids: IdMap::new(), info: Vec::new(), marker_id }
    }

    /// The marker type of replicated entities: only entities that carry it are
    /// replicated.
    pub fn get_marker_id(&self) -> (marker_id: ComponentId)
        ensures
            marker_id == self.marker(),
    {
        self.marker_id
    }

    /// The number of rules.
    pub fn len(&self) -> (n: usize)
        ensures
            n == self.records().len(),
    {
        self.info.len()
    }

    /// The position of the rule for a component type, or `None` if the type is not
    /// registered for replication.
    pub fn replication_id(&self, component_id: ComponentId) -> (id: Option<ReplicationId>)
        requires
            self.wf(),
        ensures
            id == self.ordinal_of(component_id),
            id matches Some(found) ==> self.has(found) && self.records()[found.0 as int].component_id
                == component_id,
    {
        self.ids.replication_id(component_id)
    }

    /// The table from component types to the positions of their rules.
    pub fn get_ids(&self) -> (ids: &IdMap)
        ensures
            ids@ == self.ids(),
    {
        &self.ids
    }

    /// The rule at a position that this registry gave out.
    pub fn get_info(&self, replication_id: ReplicationId) -> (info: &ReplicationInfo)
        requires
            self.has(replication_id),
        ensures
            *info == self.records()[replication_id.0 as int],
    {
        &self.info[replication_id.0]
    }

    /// The marker type that excludes a replicated component type, or `None` if the
    /// component type is not registered for replication.
    pub fn ignored_id(&self, component_id: ComponentId) -> (ignored_id: Option<ComponentId>)
        requires
            self.wf(),
        ensures
            ignored_id == self.ignored_of(component_id),
    {
        match self.replication_id(component_id) {
            Some(replication_id) => Some(self.get_info(replication_id).ignored_id),
            None => None,
        }
    }

    /// The marker type that excludes the component type, if the type is registered.
    pub open spec fn ignored_of(&self, component_id: ComponentId) -> Option<ComponentId> {
        match self.ordinal_of(component_id) {
            Some(id) => Some(self.records()[id.0 as int].ignored_id),
            None => None,
        }
    }

    /// Whether a component type is replicated for an entity with the given components:
    /// the entity carries the marker of replicated entities and a component of the
    /// type, the type is registered, and the entity does not carry the marker that
    /// excludes the type.
    pub open spec fn replicates(
        &self,
        components: Map<ComponentId, ComponentValue>,
        component_id: ComponentId,
    ) -> bool {
        &&& components.contains_key(self.marker())
        &&& components.contains_key(component_id)
        &&& match self.ignored_of(component_id) {
            Some(ignored_id) => !components.contains_key(ignored_id),
            None => false,
        }
    }

    /// Whether the component type is to be sent for the entity.
    pub fn is_replicated(&self, entity: &EntityMut, component_id: ComponentId) -> (replicated: bool)
        requires
            self.wf(),
        ensures
            replicated == self.replicates(entity@, component_id),
    {
        if !entity.contains(self.marker_id) || !entity.contains(component_id) {
            return false;
        }
        match self.ignored_id(component_id) {
            Some(ignored_id) => !entity.contains(ignored_id),
            None => false,
        }
    }

    /// Reads a replication identifier at the cursor and moves behind it.
    ///
    /// The result is [`ReplicationError::Decoding`] where the remaining bytes do not
    /// begin with an integer, and [`ReplicationError::UnknownOrdinal`] with that integer
    /// where no rule stands at its position. In both cases the cursor stays where it
    /// was.
    pub fn read_replication_id(&self, cursor: &mut Cursor) -> (read: Result<
        ReplicationId,
        ReplicationError,
    >)
        ensures
            final(cursor).data() == old(cursor).data(),
            read == self.replication_id_at(old(cursor).remaining()),
            final(cursor).offset() == old(cursor).offset() + match read {
                Ok(_) => parse_varint(old(cursor).remaining()).unwrap().1,
                Err(_) => 0,
            },
    {
        let start: usize = cursor.position();
        match cursor.read_u64() {
            Ok(ordinal) => {
                if ordinal < self.info.len() as u64 {
                    Ok(ReplicationId(ordinal as usize))
                } else {
                    cursor.rewind(start);
                    Err(ReplicationError::UnknownOrdinal(ordinal))
                }
            },
            Err(error) => Err(error),
        }
    }

    /// The replication identifier that stands at the start of `input`, or the reason
    /// why there is none.
    pub open spec fn replication_id_at(&self, input: Seq<u8>) -> Result<
        ReplicationId,
        ReplicationError,
    > {
        match parse_varint(input) {
            None => Err(ReplicationError::Decoding),
            Some((ordinal, _)) => if ordinal < self.records().len() {
                Ok(ReplicationId(ordinal as usize))
            } else {
                Err(ReplicationError::UnknownOrdinal(ordinal))
            },
        }
    }

    /// Whether a rule for `component_id` with the exclusion marker `ignored_id` can be
    /// added. A host asks this before it registers: each component type is registered
    /// once, and every type has an identifier of its own.
    pub fn can_register(&self, component_id: ComponentId, ignored_id: ComponentId) -> (accepted:
        bool)
        ensures
            accepted == self.accepts(component_id, ignored_id),
    {
        if component_id == ignored_id || component_id == self.marker_id || ignored_id
            == self.marker_id {
            return false;
        }
        let count: usize = self.info.len();
        let mut k: usize = 0;
        while k < count
            invariant
                k <= count,
                count == self.records().len(),
                component_id != self.marker(),
                ignored_id != self.marker(),
                forall|j: int|
                    0 <= j < k ==> !(#[trigger] self.records()[j]).touches(component_id)
                        && !self.records()[j].touches(ignored_id),
            decreases count - k,
        {
            let record = &self.info[k];
            if record.component_id == component_id || record.ignored_id == component_id
                || record.component_id == ignored_id || record.ignored_id == ignored_id {
                assert(self.records()[k as int].touches(component_id) || self.records()[k as int].touches(
                    ignored_id,
                ));
                return false;
            }
            k = k + 1;
        }
        true
    }

    /// Appends `record` and enters its component type in the table.
    pub fn register(&mut self, record: ReplicationInfo) -> (id: ReplicationId)
        requires
            old(self).wf(),
            old(self).accepts(record.component_id, record.ignored_id),
        ensures
            final(self).wf(),
            old(self).extended_by(record, *final(self)),
            id.0 == old(self).records().len(),
            final(self).ordinal_of(record.component_id) == Some(id),
    {
        proof {
            lemma_unused_is_unregistered(*old(self), record.component_id);
        }
        self.info.push(record);
        let position: usize = self.info.len() - 1;
        self.ids.insert(record.component_id.0, position);
        proof {
            lemma_extension(*old(self), record, *self);
        }
        ReplicationId(position)
    }
}

/// Whether `states` is a history of registrations: it begins with rules that hold no
/// component type, and each state is the one before it extended by the record of
/// the same position.
pub open spec fn registration_history(
    states: Seq<ReplicationRules>,
    records: Seq<ReplicationInfo>,
) -> bool {
    &&& states.len() == records.len() + 1
    &&& states[0].records().len() == 0
    &&& states[0].ids() == no_ids()
    &&& forall|k: int|
        0 <= k < records.len() ==> states[k].extended_by(#[trigger] records[k], states[k + 1])
}

/// A component type that is not in use has no rule.
pub proof fn lemma_unused_is_unregistered(rules: ReplicationRules, component_id: ComponentId)
    requires
        rules.wf(),
        !rules.uses(component_id),
    ensures
        !rules.is_registered(component_id),
{
    if rules.is_registered(component_id) {
        let k = rules.ids()[component_id.0] as int;
        assert(rules.records()[k].touches(component_id));
    }
}

/// One registration keeps the rules well formed, gives the new component type the
/// next position, and leaves the position of every other component type as it was.
pub proof fn lemma_extension(before: ReplicationRules, record: ReplicationInfo, after: ReplicationRules)
    requires
        before.wf(),
        before.extended_by(record, after),
    ensures
        after.wf(),
        after.ordinal_of(record.component_id) == Some(
            ReplicationId(before.records().len() as usize),
        ),
        forall|c: ComponentId|
            c != record.component_id ==> #[trigger] after.ordinal_of(c) == before.ordinal_of(c),
{
    let n = before.records().len();
    assert(n == before.info.len());
    assert(after.ids().dom() =~= before.ids().dom().insert(record.component_id.0));
    assert forall|c: usize| #[trigger] after.ids().contains_key(c) implies after.ids()[c]
        < after.records().len() && after.records()[after.ids()[c] as int].component_id
        == ComponentId(c) by {
        if c != record.component_id.0 {
            assert(before.ids().contains_key(c));
            assert(after.ids()[c] == before.ids()[c]);
        }
    }
    assert forall|k: int| 0 <= k < after.records().len() implies after.ids().contains_key(
        (#[trigger] after.records()[k]).component_id.0,
    ) && after.ids()[after.records()[k].component_id.0] == k by {
        if k < n {
            assert(after.records()[k] == before.records()[k]);
            assert(before.ids().contains_key(before.records()[k].component_id.0));
        }
    }
    assert forall|c: ComponentId| c != record.component_id implies #[trigger] after.ordinal_of(c)
        == before.ordinal_of(c) by {
        assert(c.0 != record.component_id.0);
    }
    assert forall|k: int| 0 <= k < after.records().len() implies {
        &&& (#[trigger] after.records()[k]).component_id != after.records()[k].ignored_id
        &&& !after.records()[k].touches(after.marker())
    } by {
        if k < n {
            assert(after.records()[k] == before.records()[k]);
        }
    }
    assert forall|k: int, l: int|
        0 <= k < after.records().len() && 0 <= l < after.records().len() && k != l implies {
        &&& !(#[trigger] after.records()[l]).touches((#[trigger] after.records()[k]).component_id)
        &&& !after.records()[l].touches(after.records()[k].ignored_id)
    } by {
        if k < n {
            assert(after.records()[k] == before.records()[k]);
            assert(before.records()[k].touches(before.records()[k].component_id));
            assert(before.records()[k].touches(before.records()[k].ignored_id));
        }
        if l < n {
            assert(after.records()[l] == before.records()[l]);
        }
    }
}

/// In a history of registrations the state after `j` registrations holds exactly the
/// first `j` records, in order, and finds each under its component type.
proof fn lemma_history_prefix(
    states: Seq<ReplicationRules>,
    records: Seq<ReplicationInfo>,
    j: int,
)
    requires
        registration_history(states, records),
        0 <= j <= records.len(),
    ensures
        states[j].wf(),
        states[j].records() == records.take(j),
        forall|k: int|
            0 <= k < j ==> states[j].ordinal_of((#[trigger] records[k]).component_id) == Some(
                ReplicationId(k as usize),
            ),
    decreases j,
{
    if j == 0 {
        assert(states[0].records() =~= records.take(0));
    } else {
        lemma_history_prefix(states, records, j - 1);
        let before = states[j - 1];
        let after = states[j];
        let record = records[j - 1];
        assert(before.extended_by(record, after));
        lemma_extension(before, record, after);
        assert(after.records() =~= records.take(j));
        assert forall|k: int| 0 <= k < j implies after.ordinal_of(
            (#[trigger] records[k]).component_id,
        ) == Some(ReplicationId(k as usize)) by {
            if k < j - 1 {
                assert(before.ordinal_of(records[k].component_id) == Some(
                    ReplicationId(k as usize),
                ));
                assert(before.is_registered(records[k].component_id));
                assert(records[k].component_id != record.component_id);
            }
        }
    }
}

/// Ordinals are stable: the rules hold exactly the records that were registered, in
/// the order of registration, so the registration that follows `j` others gets the
/// identifier `j`. The `k`-th registered component type (counting from zero) has the
/// identifier `k`, its rule stands at position `k`, and both stay so in every later
/// state of the rules. No component type was registered twice.
pub proof fn lemma_ordinals_follow_registration_order(
    states: Seq<ReplicationRules>,
    records: Seq<ReplicationInfo>,
)
    requires
        registration_history(states, records),
    ensures
        forall|j: int|
            0 <= j <= records.len() ==> (#[trigger] states[j]).wf() && states[j].records()
                == records.take(j),
        forall|k: int, j: int|
            0 <= k < j <= records.len() ==> {
                &&& (#[trigger] states[j]).ordinal_of((#[trigger] records[k]).component_id)
                    == Some(ReplicationId(k as usize))
                &&& states[j].records()[k] == records[k]
            },
        forall|k: int, l: int|
            0 <= k < l < records.len() ==> (#[trigger] records[k]).component_id
                != (#[trigger] records[l]).component_id,
{
    assert forall|j: int| 0 <= j <= records.len() implies (#[trigger] states[j]).wf() && states[j].records()
        == records.take(j) by {
        lemma_history_prefix(states, records, j);
    }
    assert forall|k: int, j: int| 0 <= k < j <= records.len() implies {
        &&& (#[trigger] states[j]).ordinal_of((#[trigger] records[k]).component_id) == Some(
            ReplicationId(k as usize),
        )
        &&& states[j].records()[k] == records[k]
    } by {
        lemma_history_prefix(states, records, j);
    }
    assert forall|k: int, l: int| 0 <= k < l < records.len() implies (#[trigger] records[k]).component_id
        != (#[trigger] records[l]).component_id by {
        lemma_history_prefix(states, records, l);
        assert(states[l].extended_by(records[l], states[l + 1]));
        assert(states[l].is_registered(records[k].component_id));
    }
}

/// A replication identifier that was written is read back by any rules that have a
/// rule at its position, whatever follows it.
pub proof fn lemma_replication_id_round_trip(
    rules: ReplicationRules,
    replication_id: ReplicationId,
    rest: Seq<u8>,
)
    requires
        rules.has(replication_id),
    ensures
        rules.replication_id_at(varint(replication_id.0 as u64) + rest) matches Ok(read)
            && read == replication_id,
{
    lemma_parse_varint_of_varint(replication_id.0 as u64, rest);
}

/// Every registered component type has an exclusion marker of its own: it is not the
/// marker of another registered type, not a registered component type, and not the
/// marker of replicated entities.
pub proof fn lemma_exclusion_markers_are_distinct(
    rules: ReplicationRules,
    first: ComponentId,
    second: ComponentId,
)
    requires
        rules.wf(),
        rules.is_registered(first),
        rules.is_registered(second),
    ensures
        rules.ignored_of(first) is Some,
        first != second ==> rules.ignored_of(first) != rules.ignored_of(second),
        rules.ignored_of(first) != Some(first),
        rules.ignored_of(first) != Some(second),
        rules.ignored_of(first) != Some(rules.marker()),
{
    let k = rules.ids()[first.0] as int;
    let l = rules.ids()[second.0] as int;
    assert(rules.records()[k].component_id == first);
    assert(rules.records()[l].component_id == second);
    assert(rules.records()[l].touches(second));
    assert(rules.records()[k].touches(rules.records()[k].ignored_id));
}

/// Exclusion: an entity that carries the marker that excludes a component type is
/// skipped for that type, and for that type only: whether any other component type is
/// replicated for the entity does not depend on the marker. Once the marker is taken
/// off, the type is replicated again, provided the entity is replicated at all and
/// has the component.
pub proof fn lemma_exclusion_suppresses(
    rules: ReplicationRules,
    components: Map<ComponentId, ComponentValue>,
    component_id: ComponentId,
    ignored_id: ComponentId,
)
    requires
        rules.wf(),
        rules.ignored_of(component_id) == Some(ignored_id),
        components.contains_key(ignored_id),
    ensures
        !rules.replicates(components, component_id),
        components.contains_key(rules.marker()) && components.contains_key(component_id)
            ==> rules.replicates(components.remove(ignored_id), component_id),
        forall|other: ComponentId|
            other != component_id ==> #[trigger] rules.replicates(components, other)
                == rules.replicates(components.remove(ignored_id), other),
{
    lemma_exclusion_markers_are_distinct(rules, component_id, component_id);
    assert forall|other: ComponentId| other != component_id implies #[trigger] rules.replicates(
        components,
        other,
    ) == rules.replicates(components.remove(ignored_id), other) by {
        if rules.is_registered(other) {
            lemma_exclusion_markers_are_distinct(rules, component_id, other);
        }
    }
}

/// Registration of component types for replication, on whatever holds the rules.
pub trait AppReplicationExt: Sized {
    /// The rules that the application holds.
    spec fn rules(&self) -> ReplicationRules;

    /// Marks a component type for replication with the default encoding.
    ///
    /// `ignored_id` is the marker type that excludes the component type on single
    /// entities. The result is the identifier that the type has on the wire.
    fn replicate(&mut self, component_id: ComponentId, ignored_id: ComponentId) -> (id:
        ReplicationId)
        requires
            old(self).rules().wf(),
            old(self).rules().accepts(component_id, ignored_id),
        ensures
            final(self).rules().wf(),
            id.0 == old(self).rules().records().len(),
            old(self).rules().extended_by(
                (ReplicationInfo {
                    component_id,
                    ignored_id,
                    serialize: SerializeFn::Component,
                    deserialize: DeserializeFn::Component,
                }),
                final(self).rules(),
            ),
    ;

    /// Same as [`Self::replicate`], but the entities that a component refers to are
    /// mapped when it is read.
    ///
    /// Always use it for components that contain entities.
    fn replicate_mapped(&mut self, component_id: ComponentId, ignored_id: ComponentId) -> (id:
        ReplicationId)
        requires
            old(self).rules().wf(),
            old(self).rules().accepts(component_id, ignored_id),
        ensures
            final(self).rules().wf(),
            id.0 == old(self).rules().records().len(),
            old(self).rules().extended_by(
                (ReplicationInfo {
                    component_id,
                    ignored_id,
                    serialize: SerializeFn::Component,
                    deserialize: DeserializeFn::MappedComponent,
                }),
                final(self).rules(),
            ),
    ;

    /// Same as [`Self::replicate`], but with the given functions for writing and
    /// reading.
    fn replicate_with(
        &mut self,
        component_id: ComponentId,
        ignored_id: ComponentId,
        serialize: SerializeFn,
        deserialize: DeserializeFn,
    ) -> (id: ReplicationId)
        requires
            old(self).rules().wf(),
            old(self).rules().accepts(component_id, ignored_id),
        ensures
            final(self).rules().wf(),
            id.0 == old(self).rules().records().len(),
            old(self).rules().extended_by(
                (ReplicationInfo { component_id, ignored_id, serialize, deserialize }),
                final(self).rules(),
            ),
    ;
}

impl AppReplicationExt for ReplicationRules {
    open spec fn rules(&self) -> ReplicationRules {
        *self
    }

    fn replicate(&mut self, component_id: ComponentId, ignored_id: ComponentId) -> (id:
        ReplicationId) {
        self.replicate_with(
            component_id,
            ignored_id,
            SerializeFn::Component,
            DeserializeFn::Component,
        )
    }

    fn replicate_mapped(&mut self, component_id: ComponentId, ignored_id: ComponentId) -> (id:
        ReplicationId) {
        self.replicate_with(
            component_id,
            ignored_id,
            SerializeFn::Component,
            DeserializeFn::MappedComponent,
        )
    }

    fn replicate_with(
        &mut self,
        component_id: ComponentId,
        ignored_id: ComponentId,
        serialize: SerializeFn,
        deserialize: DeserializeFn,
    ) -> (id: ReplicationId) {
        self.register(ReplicationInfo { component_id, ignored_id, serialize, deserialize })
    }
}

} // verus!
