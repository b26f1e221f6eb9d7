use sync_core::errors::SyncError;
use sync_core::manager::SyncManager;
use sync_core::ops::CRDTOperation;
use sync_core::ops::CRDTOperationType;
use sync_core::ops::OwnedOperation;
use sync_core::ops::OwnedOperationData;
use sync_core::ops::OwnedOperationItem;
use sync_core::ops::RelationOperation;
use sync_core::ops::RelationOperationData;
use sync_core::ops::SharedOperation;
use sync_core::ops::SharedOperationCreateData;
use sync_core::ops::SharedOperationData;
use sync_core::registry::ModelRegistry;
use sync_core::registry::SyncKind;
use sync_core::store::Mutation;
use sync_core::store::Store;
use sync_core::value::clone_record_id;
use sync_core::value::ForeignRef;
use sync_core::value::RecordId;
use sync_core::value::Value;

fn pub_id(byte: u8) -> Vec<u8> {
    vec![byte; 16]
}

fn text(s: &str) -> Value {
    Value::Text(s.to_string())
}

fn shared_op(node: u128, ts: u64, model: &str, rid: RecordId, data: SharedOperationData) -> CRDTOperation {
    CRDTOperation {
        id: (node << 64) | ts as u128,
        node,
        timestamp: ts,
        typ: CRDTOperationType::Shared(SharedOperation {
            record_id: rid,
            model: model.to_string(),
            data,
        }),
    }
}

fn unique_create(fields: Vec<(String, Value)>) -> SharedOperationData {
    SharedOperationData::Create(SharedOperationCreateData::Unique(fields))
}

fn field_of<'a>(store: &'a Store, model: &str, rid: &RecordId, name: &str) -> Option<&'a Value> {
    let record = store.get_record(&model.to_string(), rid)?;
    record.fields.iter().find(|f| f.0 == name).map(|f| &f.1)
}

#[test]
fn create_tag_locally_then_ingest_on_peer() {
    // node A creates a tag and commits it with its operation
    let mut a = SyncManager::new(1, ModelRegistry::with_default_models());
    let mut store_a = Store::new();
    let rid = RecordId::from_pub_id(pub_id(0xAA));
    let op = a.unique_shared_create(
        "Tag".to_string(),
        clone_record_id(&rid),
        vec![("name".to_string(), text("Favorites"))],
    );
    let q = Mutation::Create {
        model: "Tag".to_string(),
        record_id: clone_record_id(&rid),
        fields: vec![("name".to_string(), text("Favorites"))],
    };
    a.write_ops(&mut store_a, vec![op], vec![q]).unwrap();
    assert_eq!(store_a.shared_log.len(), 1);
    assert_eq!(store_a.records.len(), 1);
    assert!(matches!(field_of(&store_a, "Tag", &rid, "name"), Some(Value::Text(s)) if s == "Favorites"));

    // node B ingests the operation from A's outbox
    let mut b = SyncManager::new(2, ModelRegistry::with_default_models());
    let mut store_b = Store::new();
    let sent = a.take_outbox();
    for op in sent {
        b.ingest_op(&mut store_b, op).unwrap();
    }
    assert!(matches!(field_of(&store_b, "Tag", &rid, "name"), Some(Value::Text(s)) if s == "Favorites"));
    // B now knows device A
    assert!(store_b.nodes.contains(&1));
}

#[test]
fn ingest_update_overwrites_named_field() {
    let mut b = SyncManager::new(2, ModelRegistry::with_default_models());
    let mut store = Store::new();
    // the location the file path lives in, then the file path itself
    let loc_rid = RecordId::from_pub_id(pub_id(0x10));
    b.ingest_op(
        &mut store,
        shared_op(1, 100, "Location", clone_record_id(&loc_rid), unique_create(vec![
            ("name".to_string(), text("Home")),
        ])),
    )
    .unwrap();
    let fp_rid = RecordId::new(vec![
        ("location".to_string(), Value::Ref(ForeignRef { model: "Location".to_string(), pub_id: pub_id(0x10) })),
        ("id".to_string(), Value::Int(5)),
    ]);
    b.ingest_op(
        &mut store,
        shared_op(1, 200, "FilePath", clone_record_id(&fp_rid), unique_create(vec![
            ("name".to_string(), text("draft.jpg")),
        ])),
    )
    .unwrap();
    // the update op: model FilePath, kind update, field name
    let op = shared_op(
        1,
        300,
        "FilePath",
        clone_record_id(&fp_rid),
        SharedOperationData::Update { field: "name".to_string(), value: text("vacation.jpg") },
    );
    b.ingest_op(&mut store, op).unwrap();
    assert!(matches!(field_of(&store, "FilePath", &fp_rid, "name"), Some(Value::Text(s)) if s == "vacation.jpg"));
    // observing the remote operation advanced B's clock past its timestamp
    assert!(b.clock.latest >= 300);
}

#[test]
fn disconnected_creates_converge_after_exchange() {
    let mut a = SyncManager::new(1, ModelRegistry::with_default_models());
    let mut b = SyncManager::new(2, ModelRegistry::with_default_models());
    let mut store_a = Store::new();
    let mut store_b = Store::new();
    let l1 = RecordId::from_pub_id(pub_id(0x01));
    let l2 = RecordId::from_pub_id(pub_id(0x02));

    // disconnected: each node creates its own location
    let op_a = a.unique_shared_create(
        "Location".to_string(),
        clone_record_id(&l1),
        vec![("name".to_string(), text("Laptop"))],
    );
    a.write_ops(
        &mut store_a,
        vec![op_a],
        vec![Mutation::Create {
            model: "Location".to_string(),
            record_id: clone_record_id(&l1),
            fields: vec![("name".to_string(), text("Laptop"))],
        }],
    )
    .unwrap();
    let op_b = b.unique_shared_create(
        "Location".to_string(),
        clone_record_id(&l2),
        vec![("name".to_string(), text("Desktop"))],
    );
    b.write_ops(
        &mut store_b,
        vec![op_b],
        vec![Mutation::Create {
            model: "Location".to_string(),
            record_id: clone_record_id(&l2),
            fields: vec![("name".to_string(), text("Desktop"))],
        }],
    )
    .unwrap();

    // reconnect: exchange and ingest each other's logs
    for op in a.take_outbox() {
        b.ingest_op(&mut store_b, op).unwrap();
    }
    for op in b.take_outbox() {
        a.ingest_op(&mut store_a, op).unwrap();
    }

    // both replicas hold both locations, with the same fields
    for store in [&store_a, &store_b] {
        assert!(matches!(field_of(store, "Location", &l1, "name"), Some(Value::Text(s)) if s == "Laptop"));
        assert!(matches!(field_of(store, "Location", &l2, "name"), Some(Value::Text(s)) if s == "Desktop"));
    }
}

#[test]
fn delete_of_absent_record_is_a_noop() {
    let mut b = SyncManager::new(2, ModelRegistry::with_default_models());
    let mut store = Store::new();
    let rid = RecordId::from_pub_id(pub_id(0xEE));
    let r = b.ingest_op(
        &mut store,
        shared_op(1, 50, "Tag", clone_record_id(&rid), SharedOperationData::Delete),
    );
    assert_eq!(r, Ok(()));
    assert_eq!(store.records.len(), 0);
}

#[test]
fn replayed_delete_after_applied_delete_succeeds() {
    let mut b = SyncManager::new(2, ModelRegistry::with_default_models());
    let mut store = Store::new();
    let rid = RecordId::from_pub_id(pub_id(0x77));
    b.ingest_op(
        &mut store,
        shared_op(1, 10, "Tag", clone_record_id(&rid), unique_create(vec![
            ("name".to_string(), text("old")),
        ])),
    )
    .unwrap();
    b.ingest_op(
        &mut store,
        shared_op(1, 20, "Tag", clone_record_id(&rid), SharedOperationData::Delete),
    )
    .unwrap();
    assert_eq!(store.records.len(), 0);
    // an earlier, already-applied delete arrived again
    let r = b.ingest_op(
        &mut store,
        shared_op(3, 15, "Tag", clone_record_id(&rid), SharedOperationData::Delete),
    );
    assert_eq!(r, Ok(()));
    assert_eq!(store.records.len(), 0);
}

#[test]
fn replayed_create_keeps_existing_record() {
    let mut b = SyncManager::new(2, ModelRegistry::with_default_models());
    let mut store = Store::new();
    let rid = RecordId::from_pub_id(pub_id(0x31));
    let make = || shared_op(1, 10, "Tag", clone_record_id(&rid), unique_create(vec![
        ("name".to_string(), text("first")),
    ]));
    b.ingest_op(&mut store, make()).unwrap();
    b.ingest_op(
        &mut store,
        shared_op(
            1,
            20,
            "Tag",
            clone_record_id(&rid),
            SharedOperationData::Update { field: "name".to_string(), value: text("renamed") },
        ),
    )
    .unwrap();
    // at-least-once delivery: the create arrives a second time and is skipped
    let r = b.ingest_op(&mut store, make());
    assert_eq!(r, Ok(()));
    assert!(matches!(field_of(&store, "Tag", &rid, "name"), Some(Value::Text(s)) if s == "renamed"));
}

#[test]
fn unknown_model_is_unsupported_not_fatal() {
    let mut b = SyncManager::new(2, ModelRegistry::with_default_models());
    let mut store = Store::new();
    let r = b.ingest_op(
        &mut store,
        shared_op(1, 5, "Widget", RecordId::from_pub_id(pub_id(1)), SharedOperationData::Delete),
    );
    assert_eq!(r, Err(SyncError::UnsupportedOperation));
    assert_eq!(store.records.len(), 0);
}

#[test]
fn kind_mismatch_is_unsupported() {
    let mut b = SyncManager::new(2, ModelRegistry::with_default_models());
    let mut store = Store::new();
    // TagOnObject is registered as a relation, not a shared model
    let r = b.ingest_op(
        &mut store,
        shared_op(1, 5, "TagOnObject", RecordId::from_pub_id(pub_id(1)), SharedOperationData::Delete),
    );
    assert_eq!(r, Err(SyncError::UnsupportedOperation));
}

#[test]
fn create_with_missing_parent_reports_missing_dependency() {
    let mut b = SyncManager::new(2, ModelRegistry::with_default_models());
    let mut store = Store::new();
    let fp_rid = RecordId::new(vec![
        ("location".to_string(), Value::Ref(ForeignRef { model: "Location".to_string(), pub_id: pub_id(0x10) })),
        ("id".to_string(), Value::Int(5)),
    ]);
    let r = b.ingest_op(
        &mut store,
        shared_op(1, 5, "FilePath", fp_rid, unique_create(vec![("name".to_string(), text("a"))])),
    );
    assert_eq!(r, Err(SyncError::MissingDependency));
    assert_eq!(store.records.len(), 0);
}

#[test]
fn repeated_field_name_reports_serialization_error() {
    let mut b = SyncManager::new(2, ModelRegistry::with_default_models());
    let mut store = Store::new();
    let r = b.ingest_op(
        &mut store,
        shared_op(1, 5, "Tag", RecordId::from_pub_id(pub_id(2)), unique_create(vec![
            ("name".to_string(), text("a")),
            ("name".to_string(), text("b")),
        ])),
    );
    assert_eq!(r, Err(SyncError::Serialization));
}

#[test]
fn update_of_absent_record_reports_missing_dependency() {
    let mut b = SyncManager::new(2, ModelRegistry::with_default_models());
    let mut store = Store::new();
    let r = b.ingest_op(
        &mut store,
        shared_op(
            1,
            5,
            "Tag",
            RecordId::from_pub_id(pub_id(2)),
            SharedOperationData::Update { field: "name".to_string(), value: text("x") },
        ),
    );
    assert_eq!(r, Err(SyncError::MissingDependency));
}

fn owned_registry() -> ModelRegistry {
    let mut reg = ModelRegistry::with_default_models();
    assert!(reg.register("Note".to_string(), SyncKind::Owned));
    reg
}

fn owned_op(ts: u64, model: &str, items: Vec<OwnedOperationItem>) -> CRDTOperation {
    CRDTOperation {
        id: ts as u128,
        node: 1,
        timestamp: ts,
        typ: CRDTOperationType::Owned(OwnedOperation { model: model.to_string(), items }),
    }
}

#[test]
fn owned_create_update_delete_round_trip() {
    let mut b = SyncManager::new(2, owned_registry());
    let mut store = Store::new();
    let note_rid = RecordId::from_item_id(Value::Int(1));
    b.ingest_op(
        &mut store,
        owned_op(10, "Note", vec![OwnedOperationItem {
            id: Value::Int(1),
            data: OwnedOperationData::Create(vec![("title".to_string(), text("plan"))]),
        }]),
    )
    .unwrap();
    assert!(matches!(field_of(&store, "Note", &note_rid, "title"), Some(Value::Text(s)) if s == "plan"));
    b.ingest_op(
        &mut store,
        owned_op(20, "Note", vec![OwnedOperationItem {
            id: Value::Int(1),
            data: OwnedOperationData::Update(vec![("title".to_string(), text("done"))]),
        }]),
    )
    .unwrap();
    assert!(matches!(field_of(&store, "Note", &note_rid, "title"), Some(Value::Text(s)) if s == "done"));
    b.ingest_op(
        &mut store,
        owned_op(30, "Note", vec![OwnedOperationItem {
            id: Value::Int(1),
            data: OwnedOperationData::Delete,
        }]),
    )
    .unwrap();
    assert_eq!(store.records.len(), 0);
}

#[test]
fn owned_create_many_skips_duplicates_when_asked() {
    let mut b = SyncManager::new(2, owned_registry());
    let mut store = Store::new();
    b.ingest_op(
        &mut store,
        owned_op(10, "Note", vec![OwnedOperationItem {
            id: Value::Int(1),
            data: OwnedOperationData::Create(vec![("title".to_string(), text("keep"))]),
        }]),
    )
    .unwrap();
    b.ingest_op(
        &mut store,
        owned_op(20, "Note", vec![OwnedOperationItem {
            id: Value::Null,
            data: OwnedOperationData::CreateMany {
                values: vec![
                    (Value::Int(1), vec![("title".to_string(), text("clobber"))]),
                    (Value::Int(2), vec![("title".to_string(), text("fresh"))]),
                ],
                skip_duplicates: true,
            },
        }]),
    )
    .unwrap();
    let one = RecordId::from_item_id(Value::Int(1));
    let two = RecordId::from_item_id(Value::Int(2));
    assert!(matches!(field_of(&store, "Note", &one, "title"), Some(Value::Text(s)) if s == "keep"));
    assert!(matches!(field_of(&store, "Note", &two, "title"), Some(Value::Text(s)) if s == "fresh"));
}

#[test]
fn failing_item_leaves_whole_owned_operation_unapplied() {
    let mut b = SyncManager::new(2, owned_registry());
    let mut store = Store::new();
    // second item updates a missing record, so the first item's create must
    // not survive either
    let r = b.ingest_op(
        &mut store,
        owned_op(10, "Note", vec![
            OwnedOperationItem {
                id: Value::Int(1),
                data: OwnedOperationData::Create(vec![("title".to_string(), text("a"))]),
            },
            OwnedOperationItem {
                id: Value::Int(9),
                data: OwnedOperationData::Update(vec![("title".to_string(), text("b"))]),
            },
        ]),
    );
    assert_eq!(r, Err(SyncError::MissingDependency));
    assert_eq!(store.records.len(), 0);
}

fn relation_op(ts: u64, data: RelationOperationData) -> CRDTOperation {
    CRDTOperation {
        id: ts as u128,
        node: 1,
        timestamp: ts,
        typ: CRDTOperationType::Relation(RelationOperation {
            relation: "TagOnObject".to_string(),
            relation_item: Value::Bytes(pub_id(0x0B)),
            relation_group: Value::Bytes(pub_id(0x0C)),
            data,
        }),
    }
}

#[test]
fn relation_rows_are_keyed_by_both_sides() {
    let mut b = SyncManager::new(2, ModelRegistry::with_default_models());
    let mut store = Store::new();
    b.ingest_op(&mut store, relation_op(10, RelationOperationData::Create)).unwrap();
    assert_eq!(store.records.len(), 1);
    // replaying the create changes nothing
    b.ingest_op(&mut store, relation_op(11, RelationOperationData::Create)).unwrap();
    assert_eq!(store.records.len(), 1);
    b.ingest_op(
        &mut store,
        relation_op(12, RelationOperationData::Update {
            field: "pinned".to_string(),
            value: Value::Bool(true),
        }),
    )
    .unwrap();
    let rid = RecordId::from_relation(Value::Bytes(pub_id(0x0B)), Value::Bytes(pub_id(0x0C)));
    assert!(matches!(field_of(&store, "TagOnObject", &rid, "pinned"), Some(Value::Bool(true))));
    b.ingest_op(&mut store, relation_op(13, RelationOperationData::Delete)).unwrap();
    assert_eq!(store.records.len(), 0);
    // deleting the absent join row is a no-op
    let r = b.ingest_op(&mut store, relation_op(14, RelationOperationData::Delete));
    assert_eq!(r, Ok(()));
}

#[test]
fn relation_update_of_absent_row_reports_missing_dependency() {
    let mut b = SyncManager::new(2, ModelRegistry::with_default_models());
    let mut store = Store::new();
    let r = b.ingest_op(
        &mut store,
        relation_op(10, RelationOperationData::Update {
            field: "pinned".to_string(),
            value: Value::Bool(true),
        }),
    );
    assert_eq!(r, Err(SyncError::MissingDependency));
}
