use radix_engine::traverse::descendant_visits;
use radix_engine::traverse::BlueprintKind;
use radix_engine::traverse::DbValue;
use radix_engine::traverse::ParentRef;
use radix_engine::traverse::StateTreeTraverser;
use radix_engine::traverse::SubstateDatabase;
use radix_engine::traverse::TypeInfoSubstate;
use radix_engine::traverse::VisitEvent;
use radix_engine::traverse::VisitRecorder;
use radix_engine::traverse::ACCESS_RULES_BASE_MODULE;
use radix_engine::traverse::METADATA_BASE_MODULE;
use radix_engine::traverse::OBJECT_BASE_MODULE;
use radix_engine::traverse::TYPE_INFO_BASE_MODULE;

fn set_type(db: &mut SubstateDatabase, node: u64, t: TypeInfoSubstate) {
    db.set_partition(node, TYPE_INFO_BASE_MODULE, vec![(vec![0u8], DbValue::TypeInfo(t))]);
}

fn other_object() -> TypeInfoSubstate {
    TypeInfoSubstate::Object { blueprint: BlueprintKind::Other, outer_object: None }
}

/// A component (1) whose state owns a key-value store (2) and a fungible
/// vault (3); the store owns a non-fungible vault (4) whose ids live in (5);
/// the component's metadata owns an index (6).
fn sample_db() -> SubstateDatabase {
    let mut db = SubstateDatabase::new();
    set_type(&mut db, 1, other_object());
    db.set_partition(1, OBJECT_BASE_MODULE, vec![(vec![7u8], DbValue::Value(vec![2, 3]))]);
    db.set_partition(1, METADATA_BASE_MODULE, vec![(vec![9u8], DbValue::Value(vec![6]))]);
    set_type(&mut db, 2, TypeInfoSubstate::KeyValueStore);
    db.set_partition(
        2,
        OBJECT_BASE_MODULE,
        vec![(vec![1u8], DbValue::Value(vec![])), (vec![2u8], DbValue::Value(vec![4]))],
    );
    set_type(
        &mut db,
        3,
        TypeInfoSubstate::Object { blueprint: BlueprintKind::FungibleVault, outer_object: Some(100) },
    );
    db.set_partition(3, OBJECT_BASE_MODULE, vec![(vec![0u8], DbValue::LiquidFungible(500))]);
    set_type(
        &mut db,
        4,
        TypeInfoSubstate::Object { blueprint: BlueprintKind::NonFungibleVault, outer_object: Some(200) },
    );
    db.set_partition(4, OBJECT_BASE_MODULE, vec![(vec![0u8], DbValue::LiquidNonFungible(5))]);
    db.set_partition(
        5,
        OBJECT_BASE_MODULE,
        vec![
            (vec![1u8], DbValue::NonFungibleLocalId(vec![10, 11])),
            (vec![2u8], DbValue::NonFungibleLocalId(vec![12])),
        ],
    );
    set_type(&mut db, 6, TypeInfoSubstate::Index);
    db
}

fn node(parent: Option<ParentRef>, node_id: u64, depth: u32) -> VisitEvent {
    VisitEvent::NodeId { parent, node_id, depth }
}

#[test]
fn traversal_visits_all_nodes_in_order() {
    let db = sample_db();
    let events = descendant_visits(&db, 10, None, 1);
    let expected = vec![
        node(None, 1, 0),
        // metadata module comes before the object module
        node(Some((1, OBJECT_BASE_MODULE, vec![9u8])), 6, 1),
        node(Some((1, OBJECT_BASE_MODULE, vec![7u8])), 2, 1),
        node(Some((2, OBJECT_BASE_MODULE, vec![2u8])), 4, 2),
        VisitEvent::NonFungibleVault { vault_id: 4, address: 200, ids_node: 5 },
        VisitEvent::NonFungible { vault_id: 4, address: 200, id: vec![10, 11] },
        VisitEvent::NonFungible { vault_id: 4, address: 200, id: vec![12] },
        node(Some((1, OBJECT_BASE_MODULE, vec![7u8])), 3, 1),
        VisitEvent::FungibleVault { vault_id: 3, address: 100, amount: 500 },
    ];
    assert_eq!(events, expected);
}

#[test]
fn traversal_stops_at_max_depth() {
    let db = sample_db();
    let events = descendant_visits(&db, 1, None, 1);
    let expected = vec![
        node(None, 1, 0),
        node(Some((1, OBJECT_BASE_MODULE, vec![9u8])), 6, 1),
        node(Some((1, OBJECT_BASE_MODULE, vec![7u8])), 2, 1),
        node(Some((1, OBJECT_BASE_MODULE, vec![7u8])), 3, 1),
        VisitEvent::FungibleVault { vault_id: 3, address: 100, amount: 500 },
    ];
    assert_eq!(events, expected);
    let only_root = descendant_visits(&db, 0, None, 1);
    assert_eq!(only_root, vec![node(None, 1, 0)]);
}

#[test]
fn traversal_keeps_the_given_parent() {
    let db = sample_db();
    let parent: ParentRef = (42, ACCESS_RULES_BASE_MODULE, vec![3u8]);
    let events = descendant_visits(&db, 5, Some(&parent), 6);
    assert_eq!(events, vec![node(Some((42, ACCESS_RULES_BASE_MODULE, vec![3u8])), 6, 0)]);
}

#[test]
fn traversal_at_largest_depth_limit() {
    let db = sample_db();
    let events = descendant_visits(&db, u32::MAX, None, 3);
    assert_eq!(
        events,
        vec![node(None, 3, 0), VisitEvent::FungibleVault { vault_id: 3, address: 100, amount: 500 }]
    );
}

#[test]
fn lookup_and_listing() {
    let db = sample_db();
    assert_eq!(db.list_substates(2, OBJECT_BASE_MODULE).len(), 2);
    assert_eq!(db.list_substates(2, METADATA_BASE_MODULE).len(), 0);
    assert_eq!(db.get_substate(3, OBJECT_BASE_MODULE, &[0u8]), Some(&DbValue::LiquidFungible(500)));
    assert_eq!(db.get_substate(3, OBJECT_BASE_MODULE, &[1u8]), None);
    assert_eq!(db.get_substate(9, OBJECT_BASE_MODULE, &[0u8]), None);
}

#[test]
fn traverser_reports_to_visitor() {
    let db = sample_db();
    let mut recorder = VisitRecorder::new();
    {
        let mut traverser = StateTreeTraverser::new(&db, &mut recorder, 10);
        traverser.traverse_all_descendents(None, 2);
    }
    assert_eq!(
        recorder.events,
        vec![
            node(None, 2, 0),
            node(Some((2, OBJECT_BASE_MODULE, vec![2u8])), 4, 1),
            VisitEvent::NonFungibleVault { vault_id: 4, address: 200, ids_node: 5 },
            VisitEvent::NonFungible { vault_id: 4, address: 200, id: vec![10, 11] },
            VisitEvent::NonFungible { vault_id: 4, address: 200, id: vec![12] },
        ]
    );
}

#[test]
fn traverser_appends_to_what_visitor_received() {
    let db = sample_db();
    let mut recorder = VisitRecorder::new();
    {
        let mut traverser = StateTreeTraverser::new(&db, &mut recorder, 3);
        traverser.traverse_all_descendents(None, 6);
        traverser.traverse_all_descendents(None, 3);
    }
    assert_eq!(
        recorder.events,
        vec![
            node(None, 6, 0),
            node(None, 3, 0),
            VisitEvent::FungibleVault { vault_id: 3, address: 100, amount: 500 },
        ]
    );
}

#[test]
fn recorder_receives_the_listed_visits() {
    let db = sample_db();
    let mut recorder = VisitRecorder::new();
    {
        let mut traverser = StateTreeTraverser::new(&db, &mut recorder, 10);
        traverser.traverse_all_descendents(None, 1);
    }
    assert_eq!(recorder.events, descendant_visits(&db, 10, None, 1));
    assert_eq!(recorder.events[0], node(None, 1, 0));
}

#[test]
fn recursive_traversal_from_a_given_depth() {
    let db = sample_db();
    let mut recorder = VisitRecorder::new();
    {
        let mut traverser = StateTreeTraverser::new(&db, &mut recorder, 3);
        traverser.traverse_recursive(None, 2, 2);
        // beyond the maximum depth nothing is reported, and an unknown node is fine
        traverser.traverse_recursive(None, 999, 4);
    }
    assert_eq!(
        recorder.events,
        vec![
            node(None, 2, 2),
            node(Some((2, OBJECT_BASE_MODULE, vec![2u8])), 4, 3),
            VisitEvent::NonFungibleVault { vault_id: 4, address: 200, ids_node: 5 },
            VisitEvent::NonFungible { vault_id: 4, address: 200, id: vec![10, 11] },
            VisitEvent::NonFungible { vault_id: 4, address: 200, id: vec![12] },
        ]
    );
}
