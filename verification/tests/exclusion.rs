use replicon_rules::codec::remove_component;
use replicon_rules::codec::Component;
use replicon_rules::entity::EntityMut;
use replicon_rules::markers::Ignored;
use replicon_rules::markers::Replication;
use replicon_rules::rules::AppReplicationExt;
use replicon_rules::rules::ReplicationRules;
use replicon_rules::ComponentId;

const MARKER: ComponentId = ComponentId(0);
const HEALTH: ComponentId = ComponentId(1);
const IGNORED_HEALTH: ComponentId = ComponentId(2);
const NAME: ComponentId = ComponentId(3);
const IGNORED_NAME: ComponentId = ComponentId(4);

fn tag() -> Component {
    Component { entities: vec![], payload: vec![] }
}

fn rules() -> ReplicationRules {
    let mut rules = ReplicationRules::new(MARKER);
    rules.replicate(HEALTH, IGNORED_HEALTH);
    rules.replicate(NAME, IGNORED_NAME);
    rules
}

fn replicated_entity() -> EntityMut {
    let mut entity = EntityMut::new();
    entity.insert(MARKER, tag());
    entity.insert(HEALTH, Component { entities: vec![], payload: vec![100] });
    entity.insert(NAME, Component { entities: vec![], payload: vec![65] });
    entity
}

#[test]
fn a_replicated_entity_sends_its_registered_components() {
    let rules = rules();
    let entity = replicated_entity();
    assert!(rules.is_replicated(&entity, HEALTH));
    assert!(rules.is_replicated(&entity, NAME));
}

#[test]
fn the_exclusion_marker_suppresses_its_component_only() {
    let rules = rules();
    let mut entity = replicated_entity();
    entity.insert(IGNORED_HEALTH, tag());
    assert!(!rules.is_replicated(&entity, HEALTH));
    assert!(rules.is_replicated(&entity, NAME));
}

#[test]
fn removing_the_exclusion_marker_enables_replication_again() {
    let rules = rules();
    let mut entity = replicated_entity();
    entity.insert(IGNORED_HEALTH, tag());
    assert!(!rules.is_replicated(&entity, HEALTH));
    remove_component(&mut entity, IGNORED_HEALTH);
    assert!(rules.is_replicated(&entity, HEALTH));
}

#[test]
fn an_entity_without_the_replication_marker_sends_nothing() {
    let rules = rules();
    let mut entity = replicated_entity();
    remove_component(&mut entity, MARKER);
    assert!(!rules.is_replicated(&entity, HEALTH));
    assert!(!rules.is_replicated(&entity, NAME));
}

#[test]
fn unregistered_and_absent_components_are_not_sent() {
    let rules = rules();
    let mut entity = replicated_entity();
    entity.insert(ComponentId(9), tag());
    assert!(!rules.is_replicated(&entity, ComponentId(9)));
    remove_component(&mut entity, NAME);
    assert!(!rules.is_replicated(&entity, NAME));
    assert!(!rules.is_replicated(&entity, MARKER));
}

#[test]
fn the_exclusion_marker_of_one_type_leaves_the_others_replicated() {
    let rules = rules();
    let mut entity = replicated_entity();
    entity.insert(IGNORED_NAME, tag());
    assert!(rules.is_replicated(&entity, HEALTH));
    assert!(!rules.is_replicated(&entity, NAME));
    entity.insert(IGNORED_HEALTH, tag());
    assert!(!rules.is_replicated(&entity, HEALTH));
    remove_component(&mut entity, IGNORED_NAME);
    assert!(!rules.is_replicated(&entity, HEALTH));
    assert!(rules.is_replicated(&entity, NAME));
}

#[test]
fn exclusion_markers_are_all_different() {
    let rules = rules();
    let of_health = rules.ignored_id(HEALTH);
    let of_name = rules.ignored_id(NAME);
    assert_eq!(of_health, Some(IGNORED_HEALTH));
    assert_eq!(of_name, Some(IGNORED_NAME));
    assert_ne!(of_health, of_name);
    assert_ne!(of_health, Some(HEALTH));
    assert_ne!(of_health, Some(NAME));
    assert_ne!(of_health, Some(rules.get_marker_id()));
}

#[test]
fn identifiers_in_use_cannot_be_registered() {
    let rules = rules();
    assert!(rules.can_register(ComponentId(5), ComponentId(6)));
    assert!(rules.can_register(ComponentId(6), ComponentId(5)));
    assert!(!rules.can_register(ComponentId(5), ComponentId(5)));
    assert!(!rules.can_register(HEALTH, ComponentId(6)));
    assert!(!rules.can_register(NAME, ComponentId(6)));
    assert!(!rules.can_register(ComponentId(5), HEALTH));
    assert!(!rules.can_register(IGNORED_HEALTH, ComponentId(6)));
    assert!(!rules.can_register(ComponentId(5), IGNORED_NAME));
    assert!(!rules.can_register(MARKER, ComponentId(6)));
    assert!(!rules.can_register(ComponentId(5), MARKER));
}

#[test]
fn empty_rules_accept_all_but_the_marker() {
    let rules = ReplicationRules::new(MARKER);
    assert!(rules.can_register(HEALTH, IGNORED_HEALTH));
    assert!(!rules.can_register(HEALTH, HEALTH));
    assert!(!rules.can_register(MARKER, IGNORED_HEALTH));
    assert!(!rules.can_register(HEALTH, MARKER));
}

#[test]
fn markers_can_be_made() {
    let replication = Replication;
    let copy = replication;
    assert_eq!(replication, copy);
    let _health: Ignored<u8> = Ignored::default();
    let _name: Ignored<String> = Ignored::default();
    assert_eq!(std::mem::size_of::<Ignored<String>>(), 0);
}
