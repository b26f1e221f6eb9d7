use sync_core::clock::TIMESTAMP_COUNTER_SPAN;
use sync_core::errors::SyncError;
use sync_core::manager::SyncManager;
use sync_core::ops::CRDTOperation;
use sync_core::ops::CRDTOperationType;
use sync_core::ops::RelationOperation;
use sync_core::ops::RelationOperationData;
use sync_core::ops::SharedOperationData;
use sync_core::registry::ModelRegistry;
use sync_core::store::LogKind;
use sync_core::store::Mutation;
use sync_core::store::Store;
use sync_core::value::clone_record_id;
use sync_core::value::RecordId;
use sync_core::value::Value;

fn tag_id(byte: u8) -> RecordId {
    RecordId::from_pub_id(vec![byte; 16])
}

fn text(s: &str) -> Value {
    Value::Text(s.to_string())
}

#[test]
fn write_ops_logs_one_row_per_operation() {
    let mut mgr = SyncManager::new(1, ModelRegistry::with_default_models());
    let mut store = Store::new();
    let op1 = mgr.shared_create("Tag".to_string(), tag_id(1));
    let op2 = mgr.unique_shared_create(
        "Tag".to_string(),
        tag_id(2),
        vec![("name".to_string(), text("work"))],
    );
    let q1 = Mutation::Create { model: "Tag".to_string(), record_id: tag_id(1), fields: vec![] };
    let q2 = Mutation::Create {
        model: "Tag".to_string(),
        record_id: tag_id(2),
        fields: vec![("name".to_string(), text("work"))],
    };
    mgr.write_ops(&mut store, vec![op1, op2], vec![q1, q2]).unwrap();
    // one log row per operation, visible together with the mutations' effects
    assert_eq!(store.shared_log.len() + store.owned_log.len(), 2);
    assert_eq!(store.records.len(), 2);
    // the operations await the transport
    assert_eq!(mgr.outbox.len(), 2);
    let sent = mgr.take_outbox();
    assert_eq!(sent.len(), 2);
    assert_eq!(mgr.outbox.len(), 0);
}

#[test]
fn shared_log_row_carries_model_identity_and_kind() {
    let mut mgr = SyncManager::new(7, ModelRegistry::with_default_models());
    let mut store = Store::new();
    let rid = tag_id(3);
    let op = mgr.unique_shared_create(
        "Tag".to_string(),
        clone_record_id(&rid),
        vec![("name".to_string(), text("Favorites"))],
    );
    let op_id = op.id;
    let ts = op.timestamp;
    let q = Mutation::Create {
        model: "Tag".to_string(),
        record_id: clone_record_id(&rid),
        fields: vec![("name".to_string(), text("Favorites"))],
    };
    mgr.write_op(&mut store, op, q).unwrap();
    let row = &store.shared_log[0];
    assert_eq!(row.op_id, op_id);
    assert_eq!(row.timestamp, ts);
    assert_eq!(row.model, "Tag");
    assert_eq!(row.node, 7);
    assert!(matches!(row.kind, LogKind::Create));
    assert_eq!(row.record_id.parts[0].0, "pub_id");
    assert!(matches!(&row.record_id.parts[0].1, Value::Bytes(b) if b == &vec![3u8; 16]));
}

#[test]
fn mixed_batch_routes_rows_by_variant() {
    let mut reg = ModelRegistry::with_default_models();
    assert!(reg.register("Note".to_string(), sync_core::registry::SyncKind::Owned));
    let mut mgr = SyncManager::new(1, reg);
    let mut store = Store::new();
    let owned = mgr.owned_create(
        "Note".to_string(),
        Value::Int(1),
        vec![("title".to_string(), text("plan"))],
    );
    let shared = mgr.shared_create("Tag".to_string(), tag_id(4));
    let queries = vec![
        Mutation::Create {
            model: "Note".to_string(),
            record_id: RecordId::from_item_id(Value::Int(1)),
            fields: vec![("title".to_string(), text("plan"))],
        },
        Mutation::Create { model: "Tag".to_string(), record_id: tag_id(4), fields: vec![] },
    ];
    mgr.write_ops(&mut store, vec![owned, shared], vec![]).unwrap();
    mgr.write_ops(&mut store, vec![], queries).unwrap();
    assert_eq!(store.owned_log.len(), 1);
    assert_eq!(store.shared_log.len(), 1);
    assert_eq!(store.owned_log[0].model, "Note");
    assert_eq!(store.shared_log[0].model, "Tag");
    assert_eq!(store.records.len(), 2);
}

#[test]
fn relation_operation_is_rejected_by_the_write_path() {
    let mut mgr = SyncManager::new(1, ModelRegistry::with_default_models());
    let mut store = Store::new();
    let op = CRDTOperation {
        id: 10,
        node: 1,
        timestamp: 42,
        typ: CRDTOperationType::Relation(RelationOperation {
            relation: "TagOnObject".to_string(),
            relation_item: Value::Bytes(vec![1]),
            relation_group: Value::Bytes(vec![2]),
            data: RelationOperationData::Create,
        }),
    };
    let q = Mutation::Create { model: "Tag".to_string(), record_id: tag_id(9), fields: vec![] };
    let r = mgr.write_ops(&mut store, vec![op], vec![q]);
    assert_eq!(r, Err(SyncError::UnsupportedOperation));
    // rejected whole: no log row, no mutation, nothing queued
    assert_eq!(store.shared_log.len(), 0);
    assert_eq!(store.records.len(), 0);
    assert_eq!(mgr.outbox.len(), 0);
}

#[test]
fn factory_timestamps_increase_per_node() {
    let mut mgr = SyncManager::new(1, ModelRegistry::with_default_models());
    let op1 = mgr.shared_create("Tag".to_string(), tag_id(1));
    let op2 = mgr.shared_create("Tag".to_string(), tag_id(2));
    let op3 = mgr.shared_update("Tag".to_string(), tag_id(1), "name".to_string(), text("x"));
    assert!(op1.timestamp < op2.timestamp);
    assert!(op2.timestamp < op3.timestamp);
    assert_eq!(op1.node, 1);
    assert!(matches!(op3.typ, CRDTOperationType::Shared(ref s)
        if matches!(s.data, SharedOperationData::Update { .. })));
}

#[test]
fn get_ops_returns_history_sorted_by_timestamp() {
    let mut mgr = SyncManager::new(1, ModelRegistry::with_default_models());
    let mut store = Store::new();
    // rows are appended in write order, not timestamp order
    for (op_id, ts, byte) in [(1u128, 5u64, 1u8), (2, 3, 2), (3, 9, 3)] {
        let op = CRDTOperation {
            id: op_id,
            node: 1,
            timestamp: ts * TIMESTAMP_COUNTER_SPAN,
            typ: CRDTOperationType::Shared(sync_core::ops::SharedOperation {
                record_id: tag_id(byte),
                model: "Tag".to_string(),
                data: SharedOperationData::Delete,
            }),
        };
        let q = Mutation::Delete { model: "Tag".to_string(), record_id: tag_id(byte) };
        mgr.write_op(&mut store, op, q).unwrap();
    }
    let history = mgr.get_ops(&store);
    assert_eq!(history.len(), 3);
    let ids: Vec<u128> = history.iter().map(|op| op.id).collect();
    assert_eq!(ids, vec![2, 1, 3]);
    assert!(history[0].timestamp <= history[1].timestamp);
    assert!(history[1].timestamp <= history[2].timestamp);
}
