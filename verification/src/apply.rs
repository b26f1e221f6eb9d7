//! Ingestion semantics.
//!
//! These specification functions say, over the store's mathematical view,
//! exactly what applying one received operation does: which rows it reads,
//! which row it writes, and on which inputs it fails with which error. The
//! executable ingestion path is proved against them, and the convergence laws
//! are stated about them.

use vstd::prelude::*;

use crate::errors::SyncError;
use crate::ops::CRDTOperationTypeView;
use crate::ops::OwnedOperationDataView;
use crate::ops::OwnedOperationItemView;
use crate::ops::RelationOperationDataView;
use crate::ops::SharedOperationCreateDataView;
use crate::ops::SharedOperationDataView;
use crate::registry::spec_kind_of;
use crate::registry::SyncKind;
use crate::store::RecordKey;
use crate::value::spec_field_names_distinct;
use crate::value::spec_set_field;
use crate::value::FieldsView;
use crate::value::ValueView;

verus! {

/// The record tables as a map from record key to field list.
pub type TableMap = Map<RecordKey, FieldsView>;

/// The key under which a record referenced by its public identifier is
/// stored.
pub open spec fn ref_key(model: Seq<char>, pub_id: Seq<u8>) -> RecordKey {
    (model, seq![("pub_id"@, ValueView::Bytes(pub_id))])
}

/// The key of an owned item within its model.
pub open spec fn owned_key(model: Seq<char>, id: ValueView) -> RecordKey {
    (model, seq![("id"@, id)])
}

/// The key of a join row between `item` and `group`.
pub open spec fn relation_key(relation: Seq<char>, item: ValueView, group: ValueView) -> RecordKey {
    (relation, seq![("item"@, item), ("group"@, group)])
}

/// Whether a value's embedded foreign reference, if any, resolves locally.
pub open spec fn value_dep_ok(t: TableMap, v: ValueView) -> bool {
    match v {
        ValueView::Ref(model, pub_id) => t.contains_key(ref_key(model, pub_id)),
        _ => true,
    }
}

/// Whether every foreign reference in a field list resolves locally.
pub open spec fn fields_deps_ok(t: TableMap, fields: FieldsView) -> bool {
    forall|i: int| 0 <= i < fields.len() ==> value_dep_ok(t, fields[i].1)
}

/// A field list after a list of field overwrites, applied in order.
pub open spec fn spec_set_fields(base: FieldsView, updates: FieldsView) -> FieldsView
    decreases updates.len(),
{
    if updates.len() == 0 {
        base
    } else {
        spec_set_fields(spec_set_field(base, updates[0].0, updates[0].1), updates.drop_first())
    }
}

/// Create the record at `key` with initial `fields`: malformed payloads are
/// rejected, an existing record is left untouched (or overwritten when
/// `overwrite_existing`), and every reference must resolve.
pub open spec fn apply_create(
    t: TableMap,
    key: RecordKey,
    fields: FieldsView,
    id_ok: bool,
    overwrite_existing: bool,
) -> Result<TableMap, SyncError> {
    if !spec_field_names_distinct(fields) {
        Err(SyncError::Serialization)
    } else if t.contains_key(key) && !overwrite_existing {
        Ok(t)
    } else if !id_ok || !fields_deps_ok(t, fields) {
        Err(SyncError::MissingDependency)
    } else {
        Ok(t.insert(key, fields))
    }
}

/// Apply one shared mutation to the record named `(model, rid)`.
pub open spec fn apply_shared(
    t: TableMap,
    model: Seq<char>,
    rid: Seq<(Seq<char>, ValueView)>,
    data: SharedOperationDataView,
) -> Result<TableMap, SyncError> {
    let key = (model, rid);
    match data {
        SharedOperationDataView::Create(create) => {
            let fields = match create {
                SharedOperationCreateDataView::Atomic => Seq::<(Seq<char>, ValueView)>::empty(),
                SharedOperationCreateDataView::Unique(fs) => fs,
            };
            apply_create(t, key, fields, id_deps_ok(t, rid), false)
        },
        SharedOperationDataView::Update { field, value } => {
            if !t.contains_key(key) {
                Err(SyncError::MissingDependency)
            } else if !value_dep_ok(t, value) {
                Err(SyncError::MissingDependency)
            } else {
                Ok(t.insert(key, spec_set_field(t[key], field, value)))
            }
        },
        SharedOperationDataView::Delete => {
            if t.contains_key(key) {
                Ok(t.remove(key))
            } else {
                Ok(t)
            }
        },
    }
}

/// Whether every foreign reference among an identity's parts resolves
/// locally.
pub open spec fn id_deps_ok(t: TableMap, rid: Seq<(Seq<char>, ValueView)>) -> bool {
    forall|i: int| 0 <= i < rid.len() ==> value_dep_ok(t, rid[i].1)
}

/// Apply one owned item mutation under its item identifier.
pub open spec fn apply_owned_data(
    t: TableMap,
    model: Seq<char>,
    id: ValueView,
    data: OwnedOperationDataView,
) -> Result<TableMap, SyncError> {
    let key = owned_key(model, id);
    match data {
        OwnedOperationDataView::Create(fields) => apply_create(
            t,
            key,
            fields,
            value_dep_ok(t, id),
            false,
        ),
        OwnedOperationDataView::CreateMany { values, skip_duplicates } => apply_create_many(
            t,
            model,
            values,
            skip_duplicates,
        ),
        OwnedOperationDataView::Update(fields) => {
            if !spec_field_names_distinct(fields) {
                Err(SyncError::Serialization)
            } else if !t.contains_key(key) {
                Err(SyncError::MissingDependency)
            } else if !fields_deps_ok(t, fields) {
                Err(SyncError::MissingDependency)
            } else {
                Ok(t.insert(key, spec_set_fields(t[key], fields)))
            }
        },
        OwnedOperationDataView::Delete => {
            if t.contains_key(key) {
                Ok(t.remove(key))
            } else {
                Ok(t)
            }
        },
    }
}

/// Create several owned items in order; `skip_duplicates` keeps existing
/// items, otherwise an existing item is overwritten.
pub open spec fn apply_create_many(
    t: TableMap,
    model: Seq<char>,
    values: Seq<(ValueView, FieldsView)>,
    skip_duplicates: bool,
) -> Result<TableMap, SyncError>
    decreases values.len(),
{
    if values.len() == 0 {
        Ok(t)
    } else {
        let entry = apply_create(
            t,
            owned_key(model, values[0].0),
            values[0].1,
            value_dep_ok(t, values[0].0),
            !skip_duplicates,
        );
        match entry {
            Ok(t1) => apply_create_many(t1, model, values.drop_first(), skip_duplicates),
            Err(e) => Err(e),
        }
    }
}

/// Apply an owned operation's item mutations in order; the first failure
/// aborts the whole operation.
pub open spec fn apply_owned_items(
    t: TableMap,
    model: Seq<char>,
    items: Seq<OwnedOperationItemView>,
) -> Result<TableMap, SyncError>
    decreases items.len(),
{
    if items.len() == 0 {
        Ok(t)
    } else {
        match apply_owned_data(t, model, items[0].id, items[0].data) {
            Ok(t1) => apply_owned_items(t1, model, items.drop_first()),
            Err(e) => Err(e),
        }
    }
}

/// Apply one relation mutation to the join row of `(item, group)`.
pub open spec fn apply_relation(
    t: TableMap,
    relation: Seq<char>,
    item: ValueView,
    group: ValueView,
    data: RelationOperationDataView,
) -> Result<TableMap, SyncError> {
    let key = relation_key(relation, item, group);
    match data {
        RelationOperationDataView::Create => {
            if t.contains_key(key) {
                Ok(t)
            } else if !value_dep_ok(t, item) || !value_dep_ok(t, group) {
                Err(SyncError::MissingDependency)
            } else {
                Ok(t.insert(key, Seq::empty()))
            }
        },
        RelationOperationDataView::Update { field, value } => {
            if !t.contains_key(key) {
                Err(SyncError::MissingDependency)
            } else if !value_dep_ok(t, value) {
                Err(SyncError::MissingDependency)
            } else {
                Ok(t.insert(key, spec_set_field(t[key], field, value)))
            }
        },
        RelationOperationDataView::Delete => {
            if t.contains_key(key) {
                Ok(t.remove(key))
            } else {
                Ok(t)
            }
        },
    }
}

/// Apply one received operation body: dispatch on the registered
/// classification of its model, and reject an unregistered or mismatched
/// model as unsupported.
pub open spec fn spec_apply_operation(
    reg: Seq<(String, SyncKind)>,
    t: TableMap,
    typ: CRDTOperationTypeView,
) -> Result<TableMap, SyncError> {
    match typ {
        CRDTOperationTypeView::Owned(o) => {
            if spec_kind_of(reg, o.model) == Some(SyncKind::Owned) {
                apply_owned_items(t, o.model, o.items)
            } else {
                Err(SyncError::UnsupportedOperation)
            }
        },
        CRDTOperationTypeView::Shared(s) => {
            if spec_kind_of(reg, s.model) == Some(SyncKind::Shared) {
                apply_shared(t, s.model, s.record_id, s.data)
            } else {
                Err(SyncError::UnsupportedOperation)
            }
        },
        CRDTOperationTypeView::Relation(r) => {
            if spec_kind_of(reg, r.relation) == Some(SyncKind::Relation) {
                apply_relation(t, r.relation, r.relation_item, r.relation_group, r.data)
            } else {
                Err(SyncError::UnsupportedOperation)
            }
        },
    }
}

/// The tables an application step leaves behind: the new tables on success,
/// the old ones untouched on failure.
pub open spec fn state_of(t: TableMap, res: Result<TableMap, SyncError>) -> TableMap {
    match res {
        Ok(t2) => t2,
        Err(_) => t,
    }
}

/// The caller-visible outcome of an application step.
pub open spec fn verdict_of(res: Result<TableMap, SyncError>) -> Result<(), SyncError> {
    match res {
        Ok(_) => Ok(()),
        Err(e) => Err(e),
    }
}

/// The record tables after one received operation: changed on success,
/// untouched on failure.
pub open spec fn spec_ingest_records(
    reg: Seq<(String, SyncKind)>,
    t: TableMap,
    typ: CRDTOperationTypeView,
) -> TableMap {
    match spec_apply_operation(reg, t, typ) {
        Ok(t2) => t2,
        Err(_) => t,
    }
}

/// The error ingestion reports for one received operation, if any.
pub open spec fn spec_ingest_error(
    reg: Seq<(String, SyncKind)>,
    t: TableMap,
    typ: CRDTOperationTypeView,
) -> Option<SyncError> {
    match spec_apply_operation(reg, t, typ) {
        Ok(_) => None,
        Err(e) => Some(e),
    }
}

} // verus!
