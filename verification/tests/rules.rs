use replicon_rules::rules::AppReplicationExt;
use replicon_rules::rules::DeserializeFn;
use replicon_rules::rules::ReplicationInfo;
use replicon_rules::rules::ReplicationRules;
use replicon_rules::rules::SerializeFn;
use replicon_rules::ComponentId;
use replicon_rules::ReplicationId;

#[test]
fn new_rules_hold_the_marker_and_nothing_else() {
    let rules = ReplicationRules::new(ComponentId(3));
    assert_eq!(rules.get_marker_id(), ComponentId(3));
    assert_eq!(rules.len(), 0);
    assert_eq!(rules.replication_id(ComponentId(3)), None);
    assert_eq!(rules.ignored_id(ComponentId(3)), None);
}

#[test]
fn ordinals_follow_registration_order() {
    let mut rules = ReplicationRules::new(ComponentId(0));
    let first = rules.replicate(ComponentId(40), ComponentId(41));
    let second = rules.replicate_mapped(ComponentId(12), ComponentId(13));
    let third = rules.replicate_with(
        ComponentId(7),
        ComponentId(8),
        SerializeFn::Custom(1),
        DeserializeFn::Custom(2),
    );
    assert_eq!(first, ReplicationId(0));
    assert_eq!(second, ReplicationId(1));
    assert_eq!(third, ReplicationId(2));
    assert_eq!(rules.len(), 3);
    assert_eq!(rules.replication_id(ComponentId(40)), Some(ReplicationId(0)));
    assert_eq!(rules.replication_id(ComponentId(12)), Some(ReplicationId(1)));
    assert_eq!(rules.replication_id(ComponentId(7)), Some(ReplicationId(2)));
}

#[test]
fn ordinals_stay_after_later_registrations() {
    let mut rules = ReplicationRules::new(ComponentId(0));
    let mut k: usize = 0;
    while k < 100 {
        let id = rules.replicate(ComponentId(1000 - k), ComponentId(2000 + k));
        assert_eq!(id, ReplicationId(k));
        let mut j: usize = 0;
        while j <= k {
            assert_eq!(rules.replication_id(ComponentId(1000 - j)), Some(ReplicationId(j)));
            j += 1;
        }
        k += 1;
    }
}

#[test]
fn replicate_stores_the_default_functions() {
    let mut rules = ReplicationRules::new(ComponentId(0));
    let id = rules.replicate(ComponentId(5), ComponentId(6));
    assert_eq!(
        *rules.get_info(id),
        ReplicationInfo {
            component_id: ComponentId(5),
            ignored_id: ComponentId(6),
            serialize: SerializeFn::Component,
            deserialize: DeserializeFn::Component,
        }
    );
}

#[test]
fn replicate_mapped_stores_the_mapped_reader() {
    let mut rules = ReplicationRules::new(ComponentId(0));
    let id = rules.replicate_mapped(ComponentId(5), ComponentId(6));
    let info = rules.get_info(id);
    assert_eq!(info.serialize, SerializeFn::Component);
    assert_eq!(info.deserialize, DeserializeFn::MappedComponent);
    assert_eq!(info.component_id, ComponentId(5));
    assert_eq!(info.ignored_id, ComponentId(6));
}

#[test]
fn replicate_with_stores_the_given_functions() {
    let mut rules = ReplicationRules::new(ComponentId(0));
    let id = rules.replicate_with(
        ComponentId(5),
        ComponentId(6),
        SerializeFn::Custom(10),
        DeserializeFn::Custom(11),
    );
    let info = rules.get_info(id);
    assert_eq!(info.serialize, SerializeFn::Custom(10));
    assert_eq!(info.deserialize, DeserializeFn::Custom(11));
}

#[test]
fn register_appends_the_record() {
    let mut rules = ReplicationRules::new(ComponentId(0));
    let record = ReplicationInfo {
        component_id: ComponentId(9),
        ignored_id: ComponentId(10),
        serialize: SerializeFn::Component,
        deserialize: DeserializeFn::MappedComponent,
    };
    let id = rules.register(record);
    assert_eq!(id, ReplicationId(0));
    assert_eq!(*rules.get_info(id), record);
}

#[test]
fn ignored_id_of_registered_and_unregistered_types() {
    let mut rules = ReplicationRules::new(ComponentId(0));
    rules.replicate(ComponentId(5), ComponentId(6));
    rules.replicate(ComponentId(7), ComponentId(8));
    assert_eq!(rules.ignored_id(ComponentId(5)), Some(ComponentId(6)));
    assert_eq!(rules.ignored_id(ComponentId(7)), Some(ComponentId(8)));
    assert_eq!(rules.ignored_id(ComponentId(6)), None);
    assert_eq!(rules.ignored_id(ComponentId(0)), None);
}

#[test]
fn get_ids_maps_types_to_ordinals() {
    let mut rules = ReplicationRules::new(ComponentId(0));
    rules.replicate(ComponentId(usize::MAX), ComponentId(1));
    rules.replicate(ComponentId(2), ComponentId(3));
    let ids = rules.get_ids();
    assert_eq!(ids.replication_id(ComponentId(usize::MAX)), Some(ReplicationId(0)));
    assert_eq!(ids.replication_id(ComponentId(2)), Some(ReplicationId(1)));
    assert_eq!(ids.replication_id(ComponentId(1)), None);
}

#[test]
fn two_processes_with_the_same_order_agree() {
    let mut server = ReplicationRules::new(ComponentId(0));
    let mut client = ReplicationRules::new(ComponentId(17));
    let on_server = [ComponentId(1), ComponentId(2), ComponentId(3)];
    let on_client = [ComponentId(30), ComponentId(20), ComponentId(10)];
    let mut k = 0;
    while k < 3 {
        let a = server.replicate(on_server[k], ComponentId(100 + k));
        let b = client.replicate(on_client[k], ComponentId(200 + k));
        assert_eq!(a, b);
        k += 1;
    }
    assert_eq!(
        server.replication_id(ComponentId(2)),
        client.replication_id(ComponentId(20))
    );
}
