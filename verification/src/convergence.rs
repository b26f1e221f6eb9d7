//! Convergence laws.
//!
//! Two replicas that start from the same snapshot, each generate operations
//! on disjoint records (neither referencing a record the other touches), and
//! then exchange and ingest each other's operations, reach identical record
//! tables: ingestion of independent shared and relation operations is
//! order-independent. A delete of an absent record is separately shown to be
//! a no-op, never an error.

use vstd::prelude::*;

use crate::apply::apply_relation;
use crate::apply::apply_shared;
use crate::apply::ref_key;
use crate::apply::relation_key;
use crate::apply::spec_ingest_error;
use crate::apply::spec_ingest_records;
use crate::apply::state_of;
use crate::apply::value_dep_ok;
use crate::apply::TableMap;
use crate::ops::CRDTOperationTypeView;
use crate::ops::RelationOperationDataView;
use crate::ops::RelationOperationView;
use crate::ops::SharedOperationCreateDataView;
use crate::ops::SharedOperationDataView;
use crate::ops::SharedOperationView;
use crate::registry::spec_kind_of;
use crate::registry::SyncKind;
use crate::store::RecordKey;
use crate::value::FieldsView;
use crate::value::ValueView;

verus! {

/// The record key a shared operation writes.
pub open spec fn shared_touch(s: SharedOperationView) -> RecordKey {
    (s.model, s.record_id)
}

/// Whether a value's embedded reference, if any, is to a record other than
/// `k`.
pub open spec fn value_avoids(v: ValueView, k: RecordKey) -> bool {
    match v {
        ValueView::Ref(m, p) => ref_key(m, p) != k,
        _ => true,
    }
}

/// Whether no reference in the field list points at `k`.
pub open spec fn fields_avoid(fields: FieldsView, k: RecordKey) -> bool {
    forall|i: int| 0 <= i < fields.len() ==> value_avoids(#[trigger] fields[i].1, k)
}

/// Whether nothing the shared operation reads — its identity's parts or its
/// payload — references the record `k`.
pub open spec fn shared_avoids(s: SharedOperationView, k: RecordKey) -> bool {
    &&& fields_avoid(s.record_id, k)
    &&& match s.data {
        SharedOperationDataView::Create(SharedOperationCreateDataView::Atomic) => true,
        SharedOperationDataView::Create(SharedOperationCreateDataView::Unique(fs)) => fields_avoid(
            fs,
            k,
        ),
        SharedOperationDataView::Update { field, value } => value_avoids(value, k),
        SharedOperationDataView::Delete => true,
    }
}

/// Whether nothing the relation operation reads references the record `k`.
pub open spec fn relation_avoids(r: RelationOperationView, k: RecordKey) -> bool {
    &&& value_avoids(r.relation_item, k)
    &&& value_avoids(r.relation_group, k)
    &&& match r.data {
        RelationOperationDataView::Update { field, value } => value_avoids(value, k),
        _ => true,
    }
}

/// The single record key an operation writes: a shared operation writes the
/// record it names, a relation operation its join row. An owned operation
/// may write several records and is not covered by these laws.
pub open spec fn op_touch(typ: CRDTOperationTypeView) -> Option<RecordKey> {
    match typ {
        CRDTOperationTypeView::Shared(s) => Some(shared_touch(s)),
        CRDTOperationTypeView::Relation(r) => Some(
            relation_key(r.relation, r.relation_item, r.relation_group),
        ),
        CRDTOperationTypeView::Owned(_) => None,
    }
}

/// Whether nothing the operation reads references the record `k`.
pub open spec fn op_avoids(typ: CRDTOperationTypeView, k: RecordKey) -> bool {
    match typ {
        CRDTOperationTypeView::Shared(s) => shared_avoids(s, k),
        CRDTOperationTypeView::Relation(r) => relation_avoids(r, k),
        CRDTOperationTypeView::Owned(_) => false,
    }
}

/// Two operations are independent when each writes a single record, those
/// records are distinct, and neither operation references the record the
/// other writes.
pub open spec fn ops_independent(a: CRDTOperationTypeView, b: CRDTOperationTypeView) -> bool {
    match (op_touch(a), op_touch(b)) {
        (Some(ka), Some(kb)) => ka != kb && op_avoids(a, kb) && op_avoids(b, ka),
        _ => false,
    }
}

/// The record tables after one shared operation is applied; a failing
/// operation changes nothing.
pub open spec fn shared_step(t: TableMap, s: SharedOperationView) -> TableMap {
    state_of(t, apply_shared(t, s.model, s.record_id, s.data))
}

/// The record tables after one relation operation is applied; a failing
/// operation changes nothing.
pub open spec fn relation_step(t: TableMap, r: RelationOperationView) -> TableMap {
    state_of(t, apply_relation(t, r.relation, r.relation_item, r.relation_group, r.data))
}

/// Whether two tables agree at key `k`: on whether it is present, and on its
/// fields when it is.
pub open spec fn agree_at(t1: TableMap, t2: TableMap, k: RecordKey) -> bool {
    &&& t1.contains_key(k) == t2.contains_key(k)
    &&& (t1.contains_key(k) ==> t1[k] == t2[k])
}

/// A shared operation changes nothing outside the record it writes.
proof fn lemma_shared_frame(t: TableMap, s: SharedOperationView)
    ensures
        forall|k: RecordKey| k != shared_touch(s) ==> agree_at(t, shared_step(t, s), k),
{
}

/// A relation operation changes nothing outside the join row it writes.
proof fn lemma_relation_frame(t: TableMap, r: RelationOperationView)
    ensures
        forall|k: RecordKey|
            k != relation_key(r.relation, r.relation_item, r.relation_group) ==> agree_at(
                t,
                relation_step(t, r),
                k,
            ),
{
}

/// A shared operation behaves identically on two tables that agree on the
/// record it writes, provided they can differ only at a record it never
/// references.
proof fn lemma_shared_stable(t1: TableMap, t2: TableMap, s: SharedOperationView, kb: RecordKey)
    requires
        forall|k: RecordKey| k != kb ==> agree_at(t1, t2, k),
        shared_touch(s) != kb,
        shared_avoids(s, kb),
    ensures
        (apply_shared(t1, s.model, s.record_id, s.data) is Ok) == (apply_shared(
            t2,
            s.model,
            s.record_id,
            s.data,
        ) is Ok),
        agree_at(shared_step(t1, s), shared_step(t2, s), shared_touch(s)),
{
    let key = shared_touch(s);
    assert(agree_at(t1, t2, key));
    assert forall|i: int| 0 <= i < s.record_id.len() implies value_dep_ok(t1, s.record_id[i].1)
        == value_dep_ok(t2, s.record_id[i].1) by {
        assert(value_avoids(s.record_id[i].1, kb));
        match s.record_id[i].1 {
            ValueView::Ref(m, p) => {
                assert(agree_at(t1, t2, ref_key(m, p)));
            },
            _ => {},
        }
    }
    match s.data {
        SharedOperationDataView::Create(create) => {
            match create {
                SharedOperationCreateDataView::Unique(fs) => {
                    assert forall|i: int| 0 <= i < fs.len() implies value_dep_ok(t1, fs[i].1)
                        == value_dep_ok(t2, fs[i].1) by {
                        assert(value_avoids(fs[i].1, kb));
                        match fs[i].1 {
                            ValueView::Ref(m, p) => {
                                assert(agree_at(t1, t2, ref_key(m, p)));
                            },
                            _ => {},
                        }
                    }
                },
                SharedOperationCreateDataView::Atomic => {},
            }
        },
        SharedOperationDataView::Update { field, value } => {
            assert(value_avoids(value, kb));
            match value {
                ValueView::Ref(m, p) => {
                    assert(agree_at(t1, t2, ref_key(m, p)));
                },
                _ => {},
            }
        },
        SharedOperationDataView::Delete => {},
    }
}

/// A relation operation behaves identically on two tables that agree on the
/// join row it writes, provided they can differ only at a record it never
/// references.
proof fn lemma_relation_stable(t1: TableMap, t2: TableMap, r: RelationOperationView, kb: RecordKey)
    requires
        forall|k: RecordKey| k != kb ==> agree_at(t1, t2, k),
        relation_key(r.relation, r.relation_item, r.relation_group) != kb,
        relation_avoids(r, kb),
    ensures
        (apply_relation(t1, r.relation, r.relation_item, r.relation_group, r.data) is Ok)
            == (apply_relation(t2, r.relation, r.relation_item, r.relation_group, r.data) is Ok),
        agree_at(
            relation_step(t1, r),
            relation_step(t2, r),
            relation_key(r.relation, r.relation_item, r.relation_group),
        ),
{
    let key = relation_key(r.relation, r.relation_item, r.relation_group);
    assert(agree_at(t1, t2, key));
    match r.relation_item {
        ValueView::Ref(m, p) => {
            assert(agree_at(t1, t2, ref_key(m, p)));
        },
        _ => {},
    }
    match r.relation_group {
        ValueView::Ref(m, p) => {
            assert(agree_at(t1, t2, ref_key(m, p)));
        },
        _ => {},
    }
    match r.data {
        RelationOperationDataView::Update { field, value } => {
            match value {
                ValueView::Ref(m, p) => {
                    assert(agree_at(t1, t2, ref_key(m, p)));
                },
                _ => {},
            }
        },
        _ => {},
    }
}

/// The record tables after one operation is ingested through the registry:
/// an operation on an unregistered or mismatched model is rejected and
/// changes nothing.
pub open spec fn ingest_step(
    reg: Seq<(String, SyncKind)>,
    t: TableMap,
    typ: CRDTOperationTypeView,
) -> TableMap {
    spec_ingest_records(reg, t, typ)
}

/// Through the registry, an operation that writes one record still changes
/// nothing outside it.
proof fn lemma_step_frame(reg: Seq<(String, SyncKind)>, t: TableMap, typ: CRDTOperationTypeView, k0: RecordKey)
    requires
        op_touch(typ) == Some(k0),
    ensures
        forall|k: RecordKey| k != k0 ==> agree_at(t, ingest_step(reg, t, typ), k),
{
    match typ {
        CRDTOperationTypeView::Shared(s) => {
            lemma_shared_frame(t, s);
        },
        CRDTOperationTypeView::Relation(r) => {
            lemma_relation_frame(t, r);
        },
        CRDTOperationTypeView::Owned(_) => {},
    }
}

/// Through the registry, an operation that writes one record behaves
/// identically on two tables that can differ only at a record it neither
/// writes nor references.
proof fn lemma_step_stable(
    reg: Seq<(String, SyncKind)>,
    t1: TableMap,
    t2: TableMap,
    typ: CRDTOperationTypeView,
    k0: RecordKey,
    kb: RecordKey,
)
    requires
        forall|k: RecordKey| k != kb ==> agree_at(t1, t2, k),
        op_touch(typ) == Some(k0),
        k0 != kb,
        op_avoids(typ, kb),
    ensures
        agree_at(ingest_step(reg, t1, typ), ingest_step(reg, t2, typ), k0),
{
    match typ {
        CRDTOperationTypeView::Shared(s) => {
            if spec_kind_of(reg, s.model) == Some(SyncKind::Shared) {
                lemma_shared_stable(t1, t2, s, kb);
            } else {
                assert(agree_at(t1, t2, k0));
            }
        },
        CRDTOperationTypeView::Relation(r) => {
            if spec_kind_of(reg, r.relation) == Some(SyncKind::Relation) {
                lemma_relation_stable(t1, t2, r, kb);
            } else {
                assert(agree_at(t1, t2, k0));
            }
        },
        CRDTOperationTypeView::Owned(_) => {},
    }
}

/// Ingesting two independent operations in either order leaves the same
/// record tables.
pub proof fn lemma_ops_commute(
    reg: Seq<(String, SyncKind)>,
    t: TableMap,
    a: CRDTOperationTypeView,
    b: CRDTOperationTypeView,
)
    requires
        ops_independent(a, b),
    ensures
        ingest_step(reg, ingest_step(reg, t, a), b) == ingest_step(reg, ingest_step(reg, t, b), a),
{
    let ka = op_touch(a).unwrap();
    let kb = op_touch(b).unwrap();
    let ta = ingest_step(reg, t, a);
    let tb = ingest_step(reg, t, b);
    let tab = ingest_step(reg, ta, b);
    let tba = ingest_step(reg, tb, a);
    lemma_step_frame(reg, t, a, ka);
    lemma_step_frame(reg, t, b, kb);
    lemma_step_frame(reg, ta, b, kb);
    lemma_step_frame(reg, tb, a, ka);
    lemma_step_stable(reg, t, tb, a, ka, kb);
    lemma_step_stable(reg, t, ta, b, kb, ka);
    assert forall|k: RecordKey| #[trigger] tab.contains_key(k) == tba.contains_key(k) && (
    tab.contains_key(k) ==> tab[k] == tba[k]) by {
        if k == ka {
            assert(agree_at(ta, tab, ka));
            assert(agree_at(ingest_step(reg, t, a), ingest_step(reg, tb, a), ka));
        } else if k == kb {
            assert(agree_at(tb, tba, kb));
            assert(agree_at(ingest_step(reg, t, b), ingest_step(reg, ta, b), kb));
        } else {
            assert(agree_at(t, ta, k));
            assert(agree_at(ta, tab, k));
            assert(agree_at(t, tb, k));
            assert(agree_at(tb, tba, k));
        }
    }
    assert(tab =~= tba);
}

/// The record tables after a batch of operations is ingested in order.
pub open spec fn ingest_all(
    reg: Seq<(String, SyncKind)>,
    t: TableMap,
    ops: Seq<CRDTOperationTypeView>,
) -> TableMap
    decreases ops.len(),
{
    if ops.len() == 0 {
        t
    } else {
        ingest_all(reg, ingest_step(reg, t, ops[0]), ops.drop_first())
    }
}

/// One operation, independent of every operation in a batch, commutes with
/// the whole batch.
pub proof fn lemma_op_batch_commute(
    reg: Seq<(String, SyncKind)>,
    t: TableMap,
    a: CRDTOperationTypeView,
    batch: Seq<CRDTOperationTypeView>,
)
    requires
        forall|j: int| 0 <= j < batch.len() ==> ops_independent(a, #[trigger] batch[j]),
    ensures
        ingest_all(reg, ingest_step(reg, t, a), batch) == ingest_step(
            reg,
            ingest_all(reg, t, batch),
            a,
        ),
    decreases batch.len(),
{
    if batch.len() > 0 {
        lemma_ops_commute(reg, t, a, batch[0]);
        lemma_op_batch_commute(reg, ingest_step(reg, t, batch[0]), a, batch.drop_first());
    }
}

/// Convergence: from one snapshot, ingesting batch `a_ops` then batch
/// `b_ops` gives the same record tables as ingesting `b_ops` then `a_ops`,
/// whenever every operation of one batch is independent of every operation
/// of the other. Two replicas that each apply their own batch and then
/// exchange and ingest the other's therefore reach identical tables.
pub proof fn lemma_exchange_convergence(
    reg: Seq<(String, SyncKind)>,
    t: TableMap,
    a_ops: Seq<CRDTOperationTypeView>,
    b_ops: Seq<CRDTOperationTypeView>,
)
    requires
        forall|i: int, j: int|
            0 <= i < a_ops.len() && 0 <= j < b_ops.len() ==> ops_independent(
                #[trigger] a_ops[i],
                #[trigger] b_ops[j],
            ),
    ensures
        ingest_all(reg, ingest_all(reg, t, a_ops), b_ops) == ingest_all(
            reg,
            ingest_all(reg, t, b_ops),
            a_ops,
        ),
    decreases a_ops.len(),
{
    if a_ops.len() > 0 {
        let a0 = a_ops[0];
        let s = ingest_step(reg, t, a0);
        assert forall|i: int, j: int|
            0 <= i < a_ops.drop_first().len() && 0 <= j < b_ops.len() implies ops_independent(
            #[trigger] a_ops.drop_first()[i],
            #[trigger] b_ops[j],
        ) by {
            assert(a_ops.drop_first()[i] == a_ops[i + 1]);
        }
        lemma_exchange_convergence(reg, s, a_ops.drop_first(), b_ops);
        lemma_op_batch_commute(reg, t, a0, b_ops);
        assert(ingest_all(reg, t, a_ops) == ingest_all(reg, s, a_ops.drop_first()));
        assert(ingest_all(reg, ingest_all(reg, t, b_ops), a_ops) == ingest_all(
            reg,
            ingest_step(reg, ingest_all(reg, t, b_ops), a0),
            a_ops.drop_first(),
        ));
    }
}

/// Idempotent delete: ingesting a delete for a record that is absent locally
/// is a no-op, not an error.
pub proof fn lemma_delete_absent_noop(
    reg: Seq<(String, SyncKind)>,
    t: TableMap,
    s: SharedOperationView,
)
    requires
        spec_kind_of(reg, s.model) == Some(SyncKind::Shared),
        s.data is Delete,
        !t.contains_key((s.model, s.record_id)),
    ensures
        spec_ingest_records(reg, t, CRDTOperationTypeView::Shared(s)) == t,
        spec_ingest_error(reg, t, CRDTOperationTypeView::Shared(s)) is None,
{
}

} // verus!
