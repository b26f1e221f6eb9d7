//! The operation model.
//!
//! A `CRDTOperation` narrates exactly one mutation. Its envelope carries a
//! globally unique identifier, the originating node and a hybrid-logical-clock
//! timestamp; its body is one of three kinds: an owned mutation (whole item
//! snapshots of records authoritative at their source), a shared mutation
//! (field-by-field changes to a record named by its portable identity), or a
//! relation mutation (changes to a join row keyed by its two sides).
//! Operations are created once by the write path, are immutable, and are only
//! ever applied by ingestion, never constructed by it.

use vstd::prelude::*;

use crate::value::clone_fields;
use crate::value::clone_record_id;
use crate::value::clone_value;
use crate::value::fields_view;
use crate::value::FieldsView;
use crate::value::RecordId;
use crate::value::Value;
use crate::value::ValueView;

verus! {

/// One mutation of one owned item, scoped under the item's identifier.
pub enum OwnedOperationData {
    /// Create the item with the given initial fields.
    Create(Vec<(String, Value)>),
    /// Create several items at once; `skip_duplicates` keeps existing items
    /// untouched instead of overwriting them.
    CreateMany { values: Vec<(Value, Vec<(String, Value)>)>, skip_duplicates: bool },
    /// Overwrite the listed fields of the item.
    Update(Vec<(String, Value)>),
    /// Remove the item.
    Delete,
}

/// The mathematical value of a create-many payload: each item's identifier
/// with its initial fields.
pub open spec fn create_values_views(values: Seq<(Value, Vec<(String, Value)>)>) -> Seq<
    (ValueView, FieldsView),
> {
    Seq::new(values.len(), |i: int| (values[i].0@, fields_view(values[i].1@)))
}

/// The mathematical value of an owned item mutation.
pub ghost enum OwnedOperationDataView {
    Create(FieldsView),
    CreateMany { values: Seq<(ValueView, FieldsView)>, skip_duplicates: bool },
    Update(FieldsView),
    Delete,
}

impl View for OwnedOperationData {
    type V = OwnedOperationDataView;

    open spec fn view(&self) -> OwnedOperationDataView {
        match self {
            OwnedOperationData::Create(fields) => OwnedOperationDataView::Create(
                fields_view(fields@),
            ),
            OwnedOperationData::CreateMany { values, skip_duplicates } =>
                OwnedOperationDataView::CreateMany {
                values: create_values_views(values@),
                skip_duplicates: *skip_duplicates,
            },
            OwnedOperationData::Update(fields) => OwnedOperationDataView::Update(
                fields_view(fields@),
            ),
            OwnedOperationData::Delete => OwnedOperationDataView::Delete,
        }
    }
}

/// One owned item and the mutation applied to it.
pub struct OwnedOperationItem {
    /// The item's identifier within its model.
    pub id: Value,
    /// The mutation.
    pub data: OwnedOperationData,
}

/// The mathematical value of an owned item and its mutation.
pub ghost struct OwnedOperationItemView {
    pub id: ValueView,
    pub data: OwnedOperationDataView,
}

impl View for OwnedOperationItem {
    type V = OwnedOperationItemView;

    open spec fn view(&self) -> OwnedOperationItemView {
        OwnedOperationItemView { id: self.id@, data: self.data@ }
    }
}

/// The mathematical value of a list of owned item mutations.
pub open spec fn items_views(items: Seq<OwnedOperationItem>) -> Seq<OwnedOperationItemView> {
    Seq::new(items.len(), |i: int| items[i]@)
}

/// A mutation of records of an owned model: an ordered list of item
/// mutations.
pub struct OwnedOperation {
    /// The owned model's name.
    pub model: String,
    /// The item mutations, applied in order.
    pub items: Vec<OwnedOperationItem>,
}

/// The mathematical value of an owned operation.
pub ghost struct OwnedOperationView {
    pub model: Seq<char>,
    pub items: Seq<OwnedOperationItemView>,
}

impl View for OwnedOperation {
    type V = OwnedOperationView;

    open spec fn view(&self) -> OwnedOperationView {
        OwnedOperationView { model: self.model@, items: items_views(self.items@) }
    }
}

/// The payload of a shared create.
pub enum SharedOperationCreateData {
    /// Existence alone matters; the record has no initial fields.
    Atomic,
    /// The record is created with the given initial fields.
    Unique(Vec<(String, Value)>),
}

/// The mathematical value of a shared create payload.
pub ghost enum SharedOperationCreateDataView {
    Atomic,
    Unique(FieldsView),
}

impl View for SharedOperationCreateData {
    type V = SharedOperationCreateDataView;

    open spec fn view(&self) -> SharedOperationCreateDataView {
        match self {
            SharedOperationCreateData::Atomic => SharedOperationCreateDataView::Atomic,
            SharedOperationCreateData::Unique(fields) => SharedOperationCreateDataView::Unique(
                fields_view(fields@),
            ),
        }
    }
}

/// One mutation of a shared record.
pub enum SharedOperationData {
    /// Bring the record into existence.
    Create(SharedOperationCreateData),
    /// Overwrite one named field; the last applied write wins.
    Update { field: String, value: Value },
    /// Remove the record; removing an absent record is a no-op.
    Delete,
}

/// The mathematical value of a shared mutation.
pub ghost enum SharedOperationDataView {
    Create(SharedOperationCreateDataView),
    Update { field: Seq<char>, value: ValueView },
    Delete,
}

impl View for SharedOperationData {
    type V = SharedOperationDataView;

    open spec fn view(&self) -> SharedOperationDataView {
        match self {
            SharedOperationData::Create(data) => SharedOperationDataView::Create(data@),
            SharedOperationData::Update { field, value } => SharedOperationDataView::Update {
                field: field@,
                value: value@,
            },
            SharedOperationData::Delete => SharedOperationDataView::Delete,
        }
    }
}

/// A mutation of one shared record, named by its portable identity.
pub struct SharedOperation {
    /// The shared record's portable identity.
    pub record_id: RecordId,
    /// The shared model's name.
    pub model: String,
    /// The mutation.
    pub data: SharedOperationData,
}

/// The mathematical value of a shared operation.
pub ghost struct SharedOperationView {
    pub record_id: Seq<(Seq<char>, ValueView)>,
    pub model: Seq<char>,
    pub data: SharedOperationDataView,
}

impl View for SharedOperation {
    type V = SharedOperationView;

    open spec fn view(&self) -> SharedOperationView {
        SharedOperationView { record_id: self.record_id@, model: self.model@, data: self.data@ }
    }
}

/// One mutation of a join row.
pub enum RelationOperationData {
    /// Bring the join row into existence.
    Create,
    /// Overwrite one named field of the join row.
    Update { field: String, value: Value },
    /// Remove the join row; removing an absent row is a no-op.
    Delete,
}

/// The mathematical value of a relation mutation.
pub ghost enum RelationOperationDataView {
    Create,
    Update { field: Seq<char>, value: ValueView },
    Delete,
}

impl View for RelationOperationData {
    type V = RelationOperationDataView;

    open spec fn view(&self) -> RelationOperationDataView {
        match self {
            RelationOperationData::Create => RelationOperationDataView::Create,
            RelationOperationData::Update { field, value } => RelationOperationDataView::Update {
                field: field@,
                value: value@,
            },
            RelationOperationData::Delete => RelationOperationDataView::Delete,
        }
    }
}

/// A mutation of one join row, keyed by the identities of its two sides.
pub struct RelationOperation {
    /// The join model's name.
    pub relation: String,
    /// The identity of the item side of the join row.
    pub relation_item: Value,
    /// The identity of the group side of the join row.
    pub relation_group: Value,
    /// The mutation.
    pub data: RelationOperationData,
}

/// The mathematical value of a relation operation.
pub ghost struct RelationOperationView {
    pub relation: Seq<char>,
    pub relation_item: ValueView,
    pub relation_group: ValueView,
    pub data: RelationOperationDataView,
}

impl View for RelationOperation {
    type V = RelationOperationView;

    open spec fn view(&self) -> RelationOperationView {
        RelationOperationView {
            relation: self.relation@,
            relation_item: self.relation_item@,
            relation_group: self.relation_group@,
            data: self.data@,
        }
    }
}

/// The three kinds of mutation an operation can narrate.
pub enum CRDTOperationType {
    Owned(OwnedOperation),
    Shared(SharedOperation),
    Relation(RelationOperation),
}

/// The mathematical value of an operation body.
pub ghost enum CRDTOperationTypeView {
    Owned(OwnedOperationView),
    Shared(SharedOperationView),
    Relation(RelationOperationView),
}

impl View for CRDTOperationType {
    type V = CRDTOperationTypeView;

    open spec fn view(&self) -> CRDTOperationTypeView {
        match self {
            CRDTOperationType::Owned(op) => CRDTOperationTypeView::Owned(op@),
            CRDTOperationType::Shared(op) => CRDTOperationTypeView::Shared(op@),
            CRDTOperationType::Relation(op) => CRDTOperationTypeView::Relation(op@),
        }
    }
}

/// One replicable operation: the envelope and the mutation it narrates.
pub struct CRDTOperation {
    /// Globally unique operation identifier; never reused.
    pub id: u128,
    /// The originating node's identifier.
    pub node: u128,
    /// Hybrid-logical-clock timestamp; strictly increasing per node in
    /// generation order.
    pub timestamp: u64,
    /// The mutation this operation narrates.
    pub typ: CRDTOperationType,
}

/// The mathematical value of an operation.
pub ghost struct CRDTOperationView {
    pub id: u128,
    pub node: u128,
    pub timestamp: u64,
    pub typ: CRDTOperationTypeView,
}

impl View for CRDTOperation {
    type V = CRDTOperationView;

    open spec fn view(&self) -> CRDTOperationView {
        CRDTOperationView {
            id: self.id,
            node: self.node,
            timestamp: self.timestamp,
            typ: self.typ@,
        }
    }
}

/// The mathematical value of a list of operations.
pub open spec fn op_views(ops: Seq<CRDTOperation>) -> Seq<CRDTOperationView> {
    Seq::new(ops.len(), |i: int| ops[i]@)
}

/// A fresh copy of a shared create payload, with the same value.
pub fn clone_shared_create_data(data: &SharedOperationCreateData) -> (r: SharedOperationCreateData)
    ensures
        r@ == data@,
{
    match data {
        SharedOperationCreateData::Atomic => SharedOperationCreateData::Atomic,
        SharedOperationCreateData::Unique(fields) => SharedOperationCreateData::Unique(
            clone_fields(fields),
        ),
    }
}

/// A fresh copy of a shared mutation, with the same value.
pub fn clone_shared_data(data: &SharedOperationData) -> (r: SharedOperationData)
    ensures
        r@ == data@,
{
    match data {
        SharedOperationData::Create(create) => SharedOperationData::Create(
            clone_shared_create_data(create),
        ),
        SharedOperationData::Update { field, value } => SharedOperationData::Update {
            field: field.clone(),
            value: clone_value(value),
        },
        SharedOperationData::Delete => SharedOperationData::Delete,
    }
}

/// A fresh copy of an owned item mutation, with the same value.
pub fn clone_owned_data(data: &OwnedOperationData) -> (r: OwnedOperationData)
    ensures
        r@ == data@,
{
    match data {
        OwnedOperationData::Create(fields) => OwnedOperationData::Create(clone_fields(fields)),
        OwnedOperationData::CreateMany { values, skip_duplicates } => {
            let mut out: Vec<(Value, Vec<(String, Value)>)> = Vec::new();
            let mut i: usize = 0;
            while i < values.len()
                invariant
                    i <= values.len(),
                    out@.len() == i,
                    forall|j: int|
                        0 <= j < i ==> out@[j].0@ == values@[j].0@ && fields_view(out@[j].1@)
                            == fields_view(values@[j].1@),
                decreases values.len() - i,
            {
                let id = clone_value(&values[i].0);
                let fields = clone_fields(&values[i].1);
                out.push((id, fields));
                i = i + 1;
            }
            let r = OwnedOperationData::CreateMany {
                values: out,
                skip_duplicates: *skip_duplicates,
            };
            proof {
                assert(match (r@, data@) {
                    (
                        OwnedOperationDataView::CreateMany { values: rv, skip_duplicates: rs },
                        OwnedOperationDataView::CreateMany { values: dv, skip_duplicates: ds },
                    ) => rv =~= dv && rs == ds,
                    _ => false,
                });
            }
            r
        },
        OwnedOperationData::Update(fields) => OwnedOperationData::Update(clone_fields(fields)),
        OwnedOperationData::Delete => OwnedOperationData::Delete,
    }
}

/// A fresh copy of a list of owned item mutations, with the same value.
pub fn clone_owned_items(items: &Vec<OwnedOperationItem>) -> (r: Vec<OwnedOperationItem>)
    ensures
        r@.len() == items@.len(),
        forall|i: int| 0 <= i < items@.len() ==> r@[i]@ == items@[i]@,
{
    let mut r: Vec<OwnedOperationItem> = Vec::new();
    let mut i: usize = 0;
    while i < items.len()
        invariant
            i <= items.len(),
            r@.len() == i,
            forall|j: int| 0 <= j < i ==> r@[j]@ == items@[j]@,
        decreases items.len() - i,
    {
        let item = OwnedOperationItem {
            id: clone_value(&items[i].id),
            data: clone_owned_data(&items[i].data),
        };
        r.push(item);
        i = i + 1;
    }
    r
}

} // verus!
