//! The local replica state.
//!
//! The store holds the rows the engine synchronizes — every record keyed by
//! `(model, portable identity)` — together with the append-only operation
//! logs and the set of known device identifiers. Mathematically the record
//! table is a map from record key to field list, the logs are sequences, and
//! the devices are a set; the write path and ingestion state their contracts
//! over exactly that view.

use vstd::prelude::*;

use crate::ops::OwnedOperationItem;
use crate::ops::OwnedOperationItemView;
use crate::ops::SharedOperationData;
use crate::ops::SharedOperationDataView;
use crate::value::clone_fields;
use crate::value::clone_record_id;
use crate::value::fields_view;
use crate::value::record_id_eq;
use crate::value::set_field;
use crate::value::spec_set_field;
use crate::value::FieldsView;
use crate::value::RecordId;
use crate::value::Value;
use crate::value::ValueView;

verus! {

/// One synchronized row: the model it belongs to, its portable identity, and
/// its current field values.
pub struct Record {
    pub model: String,
    pub record_id: RecordId,
    pub fields: Vec<(String, Value)>,
}

/// The key a record is stored under, across every replica.
pub type RecordKey = (Seq<char>, Seq<(Seq<char>, ValueView)>);

/// The key of one record.
pub open spec fn rec_key(r: Record) -> RecordKey {
    (r.model@, r.record_id@)
}

/// The mathematical value of one record's fields.
pub open spec fn rec_fields(r: Record) -> FieldsView {
    fields_view(r.fields@)
}

/// No two rows share a key.
pub open spec fn records_distinct(rs: Seq<Record>) -> bool {
    forall|i: int, j: int| 0 <= i < j < rs.len() ==> rec_key(rs[i]) != rec_key(rs[j])
}

/// The record table as a map from key to fields.
pub open spec fn records_map(rs: Seq<Record>) -> Map<RecordKey, FieldsView>
    decreases rs.len(),
{
    if rs.len() == 0 {
        Map::empty()
    } else {
        records_map(rs.drop_last()).insert(rec_key(rs.last()), rec_fields(rs.last()))
    }
}

/// A key is in the table's map exactly when some row carries it.
pub proof fn lemma_records_map_contains(rs: Seq<Record>, k: RecordKey)
    ensures
        records_map(rs).contains_key(k) <==> exists|i: int|
            0 <= i < rs.len() && rec_key(rs[i]) == k,
    decreases rs.len(),
{
    if rs.len() > 0 {
        lemma_records_map_contains(rs.drop_last(), k);
        if records_map(rs).contains_key(k) {
            if k == rec_key(rs.last()) {
                assert(rec_key(rs[rs.len() - 1]) == k);
            } else {
                let i = choose|i: int|
                    0 <= i < rs.drop_last().len() && rec_key(rs.drop_last()[i]) == k;
                assert(rec_key(rs[i]) == k);
            }
        }
        if exists|i: int| 0 <= i < rs.len() && rec_key(rs[i]) == k {
            let i = choose|i: int| 0 <= i < rs.len() && rec_key(rs[i]) == k;
            if i < rs.len() - 1 {
                assert(rec_key(rs.drop_last()[i]) == k);
            }
        }
    }
}

/// With distinct keys, the map stores each row's fields under its key.
pub proof fn lemma_records_map_index(rs: Seq<Record>, i: int)
    requires
        records_distinct(rs),
        0 <= i < rs.len(),
    ensures
        records_map(rs).contains_key(rec_key(rs[i])),
        records_map(rs)[rec_key(rs[i])] == rec_fields(rs[i]),
    decreases rs.len(),
{
    if i < rs.len() - 1 {
        assert(records_distinct(rs.drop_last()));
        lemma_records_map_index(rs.drop_last(), i);
        assert(rec_key(rs[i]) != rec_key(rs.last()));
    }
}

/// Replacing row `i` by a row with the same key overwrites that key's fields.
pub proof fn lemma_records_map_update(rs: Seq<Record>, i: int, r2: Record)
    requires
        records_distinct(rs),
        0 <= i < rs.len(),
        rec_key(r2) == rec_key(rs[i]),
    ensures
        records_map(rs.update(i, r2)) == records_map(rs).insert(rec_key(r2), rec_fields(r2)),
        records_distinct(rs.update(i, r2)),
    decreases rs.len(),
{
    let rs2 = rs.update(i, r2);
    assert(records_distinct(rs2));
    if i == rs.len() - 1 {
        assert(rs2.drop_last() =~= rs.drop_last());
        assert(records_map(rs2) =~= records_map(rs).insert(rec_key(r2), rec_fields(r2)));
    } else {
        assert(records_distinct(rs.drop_last()));
        assert(rs.drop_last()[i] == rs[i]);
        lemma_records_map_update(rs.drop_last(), i, r2);
        assert(rs2.drop_last() =~= rs.drop_last().update(i, r2));
        assert(rs2.last() == rs.last());
        assert(rec_key(r2) != rec_key(rs.last()));
        assert(records_map(rs2) =~= records_map(rs).insert(rec_key(r2), rec_fields(r2)));
    }
}

/// Removing row `i` removes exactly its key from the map.
pub proof fn lemma_records_map_remove(rs: Seq<Record>, i: int)
    requires
        records_distinct(rs),
        0 <= i < rs.len(),
    ensures
        records_map(rs.remove(i)) == records_map(rs).remove(rec_key(rs[i])),
        records_distinct(rs.remove(i)),
    decreases rs.len(),
{
    let rs2 = rs.remove(i);
    assert(records_distinct(rs2));
    if i == rs.len() - 1 {
        assert(rs2 =~= rs.drop_last());
        lemma_records_map_contains(rs.drop_last(), rec_key(rs[i]));
        assert(!records_map(rs.drop_last()).contains_key(rec_key(rs[i])));
        assert(records_map(rs2) =~= records_map(rs).remove(rec_key(rs[i])));
    } else {
        assert(records_distinct(rs.drop_last()));
        assert(rs.drop_last()[i] == rs[i]);
        lemma_records_map_remove(rs.drop_last(), i);
        assert(rs2.drop_last() =~= rs.drop_last().remove(i));
        assert(rs2.last() == rs.last());
        assert(rec_key(rs[i]) != rec_key(rs.last()));
        assert(records_map(rs2) =~= records_map(rs).remove(rec_key(rs[i])));
    }
}

/// The set of device identifiers a sequence holds.
pub open spec fn nodes_set(ns: Seq<u128>) -> Set<u128> {
    Set::new(|n: u128| ns.contains(n))
}

/// The routing kind recorded with a shared-log row.
#[derive(Clone, Copy, PartialEq, Eq, Structural, Debug)]
pub enum LogKind {
    Create,
    Update,
    Delete,
}

/// One durable row of the shared-operation log.
pub struct SharedLogRow {
    pub op_id: u128,
    pub timestamp: u64,
    pub model: String,
    pub record_id: RecordId,
    pub kind: LogKind,
    pub data: SharedOperationData,
    pub node: u128,
}

/// The mathematical value of a shared-log row.
pub ghost struct SharedLogRowView {
    pub op_id: u128,
    pub timestamp: u64,
    pub model: Seq<char>,
    pub record_id: Seq<(Seq<char>, ValueView)>,
    pub kind: LogKind,
    pub data: SharedOperationDataView,
    pub node: u128,
}

impl View for SharedLogRow {
    type V = SharedLogRowView;

    open spec fn view(&self) -> SharedLogRowView {
        SharedLogRowView {
            op_id: self.op_id,
            timestamp: self.timestamp,
            model: self.model@,
            record_id: self.record_id@,
            kind: self.kind,
            data: self.data@,
            node: self.node,
        }
    }
}

/// One durable row of the owned-operation log.
pub struct OwnedLogRow {
    pub op_id: u128,
    pub timestamp: u64,
    pub model: String,
    pub items: Vec<OwnedOperationItem>,
    pub node: u128,
}

/// The mathematical value of an owned-log row.
pub ghost struct OwnedLogRowView {
    pub op_id: u128,
    pub timestamp: u64,
    pub model: Seq<char>,
    pub items: Seq<OwnedOperationItemView>,
    pub node: u128,
}

impl View for OwnedLogRow {
    type V = OwnedLogRowView;

    open spec fn view(&self) -> OwnedLogRowView {
        OwnedLogRowView {
            op_id: self.op_id,
            timestamp: self.timestamp,
            model: self.model@,
            items: Seq::new(self.items@.len(), |i: int| self.items@[i]@),
            node: self.node,
        }
    }
}

/// The mathematical value of a store: tables as a map, logs as sequences,
/// devices as a set.
pub ghost struct StoreView {
    pub nodes: Set<u128>,
    pub records: Map<RecordKey, FieldsView>,
    pub owned_log: Seq<OwnedLogRowView>,
    pub shared_log: Seq<SharedLogRowView>,
}

/// The local replica state the engine reads and writes.
pub struct Store {
    /// Device identifiers this replica has seen.
    pub nodes: Vec<u128>,
    /// Every synchronized row, uniquely keyed by `(model, identity)`.
    pub records: Vec<Record>,
    /// Append-only log of owned operations.
    pub owned_log: Vec<OwnedLogRow>,
    /// Append-only log of shared operations.
    pub shared_log: Vec<SharedLogRow>,
}

impl View for Store {
    type V = StoreView;

    open spec fn view(&self) -> StoreView {
        StoreView {
            nodes: nodes_set(self.nodes@),
            records: records_map(self.records@),
            owned_log: Seq::new(self.owned_log@.len(), |i: int| self.owned_log@[i]@),
            shared_log: Seq::new(self.shared_log@.len(), |i: int| self.shared_log@[i]@),
        }
    }
}

impl Store {
    /// The store's structural invariant: no two rows share a key.
    pub open spec fn wf(&self) -> bool {
        records_distinct(self.records@)
    }

    /// An empty store.
    pub fn new() -> (r: Store)
        ensures
            r.wf(),
            r@.nodes =~= Set::<u128>::empty(),
            r@.records =~= Map::<RecordKey, FieldsView>::empty(),
            r@.owned_log =~= Seq::<OwnedLogRowView>::empty(),
            r@.shared_log =~= Seq::<SharedLogRowView>::empty(),
    {
        let r = Store {
            nodes: Vec::new(),
            records: Vec::new(),
            owned_log: Vec::new(),
            shared_log: Vec::new(),
        };
        proof {
            assert forall|n: u128| !nodes_set(r.nodes@).contains(n) by {
                if r.nodes@.contains(n) {
                    let i = choose|i: int| 0 <= i < r.nodes@.len() && r.nodes@[i] == n;
                }
            }
        }
        r
    }

    /// Whether this replica has seen the device `node`.
    pub fn contains_node(&self, node: u128) -> (r: bool)
        ensures
            r == self@.nodes.contains(node),
    {
        let mut i: usize = 0;
        while i < self.nodes.len()
            invariant
                i <= self.nodes@.len(),
                forall|j: int| 0 <= j < i ==> self.nodes@[j] != node,
            decreases self.nodes@.len() - i,
        {
            if self.nodes[i] == node {
                return true;
            }
            i = i + 1;
        }
        proof {
            if self.nodes@.contains(node) {
                let j = choose|j: int| 0 <= j < self.nodes@.len() && self.nodes@[j] == node;
            }
        }
        false
    }

    /// Record that the device `node` exists, so that rows referring to it
    /// have their target; seeing a device twice changes nothing.
    pub fn upsert_node(&mut self, node: u128)
        ensures
            final(self)@.nodes == old(self)@.nodes.insert(node),
            final(self)@.records == old(self)@.records,
            final(self)@.owned_log == old(self)@.owned_log,
            final(self)@.shared_log == old(self)@.shared_log,
            final(self).records == old(self).records,
            final(self).owned_log == old(self).owned_log,
            final(self).shared_log == old(self).shared_log,
    {
        if !self.contains_node(node) {
            let ghost before = self.nodes@;
            self.nodes.push(node);
            proof {
                assert forall|x: u128|
                    nodes_set(self.nodes@).contains(x) == nodes_set(before).insert(node).contains(
                        x,
                    ) by {
                    if x == node {
                        assert(self.nodes@[before.len() as int] == node);
                        assert(self.nodes@.contains(node));
                    } else {
                        if before.contains(x) {
                            let j = choose|j: int| 0 <= j < before.len() && before[j] == x;
                            assert(self.nodes@[j] == x);
                        }
                        if self.nodes@.contains(x) {
                            let j = choose|j: int|
                                0 <= j < self.nodes@.len() && self.nodes@[j] == x;
                            assert(j < before.len());
                            assert(before[j] == x);
                        }
                    }
                }
                assert(nodes_set(self.nodes@) =~= nodes_set(before).insert(node));
            }
        } else {
            proof {
                assert(nodes_set(self.nodes@) =~= nodes_set(self.nodes@).insert(node));
            }
        }
    }

    /// The position of the row keyed `(model, id)`, when one exists.
    pub fn find_record(&self, model: &String, id: &RecordId) -> (r: Option<usize>)
        requires
            self.wf(),
        ensures
            match r {
                Some(i) => i < self.records@.len() && rec_key(self.records@[i as int]) == (
                    model@,
                    id@,
                ) && self@.records.contains_key((model@, id@)) && self@.records[(model@, id@)]
                    == rec_fields(self.records@[i as int]),
                None => !self@.records.contains_key((model@, id@)),
            },
    {
        let mut i: usize = 0;
        while i < self.records.len()
            invariant
                self.wf(),
                i <= self.records@.len(),
                forall|j: int| 0 <= j < i ==> rec_key(self.records@[j]) != (model@, id@),
            decreases self.records@.len() - i,
        {
            if self.records[i].model.eq(model) && record_id_eq(&self.records[i].record_id, id) {
                proof {
                    lemma_records_map_index(self.records@, i as int);
                }
                return Some(i);
            }
            i = i + 1;
        }
        proof {
            lemma_records_map_contains(self.records@, (model@, id@));
        }
        None
    }

    /// The row keyed `(model, id)`, when one exists.
    pub fn get_record(&self, model: &String, id: &RecordId) -> (r: Option<&Record>)
        requires
            self.wf(),
        ensures
            match r {
                Some(rec) => self@.records.contains_key((model@, id@)) && rec_key(*rec) == (
                    model@,
                    id@,
                ) && self@.records[(model@, id@)] == rec_fields(*rec),
                None => !self@.records.contains_key((model@, id@)),
            },
    {
        match self.find_record(model, id) {
            Some(i) => Some(&self.records[i]),
            None => None,
        }
    }

    /// Append a row under a key not yet present.
    pub fn insert_record(&mut self, record: Record)
        requires
            old(self).wf(),
            !old(self)@.records.contains_key(rec_key(record)),
        ensures
            final(self).wf(),
            final(self)@.records == old(self)@.records.insert(rec_key(record), rec_fields(record)),
            final(self)@.nodes == old(self)@.nodes,
            final(self)@.owned_log == old(self)@.owned_log,
            final(self)@.shared_log == old(self)@.shared_log,
            final(self).nodes == old(self).nodes,
            final(self).owned_log == old(self).owned_log,
            final(self).shared_log == old(self).shared_log,
    {
        proof {
            lemma_records_map_push(self.records@, record);
        }
        self.records.push(record);
    }

    /// Unconditionally overwrite one field of the row at position `i`.
    pub fn set_record_field(&mut self, i: usize, name: String, value: Value)
        requires
            old(self).wf(),
            i < old(self).records@.len(),
        ensures
            final(self).wf(),
            final(self)@.records == old(self)@.records.insert(
                rec_key(old(self).records@[i as int]),
                spec_set_field(rec_fields(old(self).records@[i as int]), name@, value@),
            ),
            final(self).records@.len() == old(self).records@.len(),
            rec_key(final(self).records@[i as int]) == rec_key(old(self).records@[i as int]),
            rec_fields(final(self).records@[i as int]) == spec_set_field(
                rec_fields(old(self).records@[i as int]),
                name@,
                value@,
            ),
            final(self)@.nodes == old(self)@.nodes,
            final(self)@.owned_log == old(self)@.owned_log,
            final(self)@.shared_log == old(self)@.shared_log,
            final(self).nodes == old(self).nodes,
            final(self).owned_log == old(self).owned_log,
            final(self).shared_log == old(self).shared_log,
    {
        let ghost orig = self.records@[i as int];
        let model = self.records[i].model.clone();
        let record_id = clone_record_id(&self.records[i].record_id);
        let mut fields = clone_fields(&self.records[i].fields);
        set_field(&mut fields, name, value);
        let replacement = Record { model, record_id, fields };
        proof {
            assert(rec_key(replacement) == rec_key(orig));
            assert(rec_fields(replacement) == spec_set_field(rec_fields(orig), name@, value@));
            lemma_records_map_update(self.records@, i as int, replacement);
        }
        self.records.set(i, replacement);
    }

    /// Replace every field of the row at position `i`.
    pub fn replace_fields(&mut self, i: usize, fields: Vec<(String, Value)>)
        requires
            old(self).wf(),
            i < old(self).records@.len(),
        ensures
            final(self).wf(),
            final(self)@.records == old(self)@.records.insert(
                rec_key(old(self).records@[i as int]),
                fields_view(fields@),
            ),
            final(self)@.nodes == old(self)@.nodes,
            final(self)@.owned_log == old(self)@.owned_log,
            final(self)@.shared_log == old(self)@.shared_log,
            final(self).nodes == old(self).nodes,
            final(self).owned_log == old(self).owned_log,
            final(self).shared_log == old(self).shared_log,
    {
        let ghost orig = self.records@[i as int];
        let model = self.records[i].model.clone();
        let record_id = clone_record_id(&self.records[i].record_id);
        let replacement = Record { model, record_id, fields };
        proof {
            assert(rec_key(replacement) == rec_key(orig));
            lemma_records_map_update(self.records@, i as int, replacement);
        }
        self.records.set(i, replacement);
    }

    /// Remove the row at position `i`.
    pub fn remove_record(&mut self, i: usize)
        requires
            old(self).wf(),
            i < old(self).records@.len(),
        ensures
            final(self).wf(),
            final(self)@.records == old(self)@.records.remove(
                rec_key(old(self).records@[i as int]),
            ),
            final(self)@.nodes == old(self)@.nodes,
            final(self)@.owned_log == old(self)@.owned_log,
            final(self)@.shared_log == old(self)@.shared_log,
            final(self).nodes == old(self).nodes,
            final(self).owned_log == old(self).owned_log,
            final(self).shared_log == old(self).shared_log,
    {
        proof {
            lemma_records_map_remove(self.records@, i as int);
        }
        self.records.remove(i);
    }

    /// Append one row to the shared-operation log.
    pub fn push_shared_log(&mut self, row: SharedLogRow)
        ensures
            final(self)@.shared_log == old(self)@.shared_log.push(row@),
            final(self)@.nodes == old(self)@.nodes,
            final(self)@.records == old(self)@.records,
            final(self)@.owned_log == old(self)@.owned_log,
            final(self).nodes == old(self).nodes,
            final(self).records == old(self).records,
            final(self).owned_log == old(self).owned_log,
    {
        let ghost before = self@.shared_log;
        self.shared_log.push(row);
        proof {
            assert(self@.shared_log =~= before.push(row@));
        }
    }

    /// Append one row to the owned-operation log.
    pub fn push_owned_log(&mut self, row: OwnedLogRow)
        ensures
            final(self)@.owned_log == old(self)@.owned_log.push(row@),
            final(self)@.nodes == old(self)@.nodes,
            final(self)@.records == old(self)@.records,
            final(self)@.shared_log == old(self)@.shared_log,
            final(self).nodes == old(self).nodes,
            final(self).records == old(self).records,
            final(self).shared_log == old(self).shared_log,
    {
        let ghost before = self@.owned_log;
        self.owned_log.push(row);
        proof {
            assert(self@.owned_log =~= before.push(row@));
        }
    }
}

/// Appending a row with a fresh key inserts exactly its key.
pub proof fn lemma_records_map_push(rs: Seq<Record>, r: Record)
    requires
        records_distinct(rs),
        !records_map(rs).contains_key(rec_key(r)),
    ensures
        records_map(rs.push(r)) == records_map(rs).insert(rec_key(r), rec_fields(r)),
        records_distinct(rs.push(r)),
{
    assert(rs.push(r).drop_last() =~= rs);
    lemma_records_map_contains(rs, rec_key(r));
    assert forall|i: int, j: int| 0 <= i < j < rs.push(r).len() implies rec_key(rs.push(r)[i])
        != rec_key(rs.push(r)[j]) by {
        if j < rs.len() {
            assert(rs.push(r)[i] == rs[i] && rs.push(r)[j] == rs[j]);
        } else {
            assert(rs.push(r)[i] == rs[i] && rs.push(r)[j] == r);
        }
    }
}

/// One caller-supplied local mutation, to be committed atomically with the
/// operations narrating it.
pub enum Mutation {
    /// Insert the record, or overwrite it when it already exists.
    Create { model: String, record_id: RecordId, fields: Vec<(String, Value)> },
    /// Overwrite one named field of the record; absent records are left
    /// untouched.
    SetField { model: String, record_id: RecordId, field: String, value: Value },
    /// Remove the record; removing an absent record changes nothing.
    Delete { model: String, record_id: RecordId },
}

/// The mathematical value of a local mutation.
pub ghost enum MutationView {
    Create { model: Seq<char>, record_id: Seq<(Seq<char>, ValueView)>, fields: FieldsView },
    SetField {
        model: Seq<char>,
        record_id: Seq<(Seq<char>, ValueView)>,
        field: Seq<char>,
        value: ValueView,
    },
    Delete { model: Seq<char>, record_id: Seq<(Seq<char>, ValueView)> },
}

impl View for Mutation {
    type V = MutationView;

    open spec fn view(&self) -> MutationView {
        match self {
            Mutation::Create { model, record_id, fields } => MutationView::Create {
                model: model@,
                record_id: record_id@,
                fields: fields_view(fields@),
            },
            Mutation::SetField { model, record_id, field, value } => MutationView::SetField {
                model: model@,
                record_id: record_id@,
                field: field@,
                value: value@,
            },
            Mutation::Delete { model, record_id } => MutationView::Delete {
                model: model@,
                record_id: record_id@,
            },
        }
    }
}

/// The mathematical value of a list of local mutations.
pub open spec fn mutation_views(ms: Seq<Mutation>) -> Seq<MutationView> {
    Seq::new(ms.len(), |i: int| ms[i]@)
}

/// The record tables after one local mutation.
pub open spec fn apply_mutation(t: Map<RecordKey, FieldsView>, m: MutationView) -> Map<
    RecordKey,
    FieldsView,
> {
    match m {
        MutationView::Create { model, record_id, fields } => t.insert((model, record_id), fields),
        MutationView::SetField { model, record_id, field, value } => {
            let key = (model, record_id);
            if t.contains_key(key) {
                t.insert(key, spec_set_field(t[key], field, value))
            } else {
                t
            }
        },
        MutationView::Delete { model, record_id } => t.remove((model, record_id)),
    }
}

/// The record tables after a list of local mutations, applied in order.
pub open spec fn apply_mutations(t: Map<RecordKey, FieldsView>, ms: Seq<MutationView>) -> Map<
    RecordKey,
    FieldsView,
>
    decreases ms.len(),
{
    if ms.len() == 0 {
        t
    } else {
        apply_mutations(apply_mutation(t, ms[0]), ms.drop_first())
    }
}

impl Store {
    /// Apply one local mutation to the record tables.
    pub fn apply_mutation(&mut self, m: Mutation)
        requires
            old(self).wf(),
        ensures
            final(self).wf(),
            final(self)@.records == apply_mutation(old(self)@.records, m@),
            final(self)@.nodes == old(self)@.nodes,
            final(self)@.owned_log == old(self)@.owned_log,
            final(self)@.shared_log == old(self)@.shared_log,
    {
        match m {
            Mutation::Create { model, record_id, fields } => {
                match self.find_record(&model, &record_id) {
                    Some(i) => {
                        self.replace_fields(i, fields);
                    },
                    None => {
                        self.insert_record(Record { model, record_id, fields });
                    },
                }
            },
            Mutation::SetField { model, record_id, field, value } => {
                match self.find_record(&model, &record_id) {
                    Some(i) => {
                        self.set_record_field(i, field, value);
                    },
                    None => {},
                }
            },
            Mutation::Delete { model, record_id } => {
                match self.find_record(&model, &record_id) {
                    Some(i) => {
                        self.remove_record(i);
                    },
                    None => {
                        proof {
                            assert(self@.records =~= self@.records.remove((model@, record_id@)));
                        }
                    },
                }
            },
        }
    }
}

/// Two row sequences whose rows agree key for key and field for field denote
/// the same table.
pub proof fn lemma_records_map_congruent(rs1: Seq<Record>, rs2: Seq<Record>)
    requires
        rs1.len() == rs2.len(),
        forall|i: int|
            0 <= i < rs1.len() ==> rec_key(rs1[i]) == rec_key(rs2[i]) && rec_fields(rs1[i])
                == rec_fields(rs2[i]),
    ensures
        records_map(rs1) == records_map(rs2),
        records_distinct(rs1) == records_distinct(rs2),
    decreases rs1.len(),
{
    if rs1.len() > 0 {
        assert(rs1.drop_last().len() == rs2.drop_last().len());
        assert forall|i: int| 0 <= i < rs1.drop_last().len() implies rec_key(rs1.drop_last()[i])
            == rec_key(rs2.drop_last()[i]) && rec_fields(rs1.drop_last()[i]) == rec_fields(
            rs2.drop_last()[i],
        ) by {
            assert(rs1.drop_last()[i] == rs1[i] && rs2.drop_last()[i] == rs2[i]);
        }
        lemma_records_map_congruent(rs1.drop_last(), rs2.drop_last());
        assert(records_map(rs1) =~= records_map(rs2));
    } else {
        assert(records_map(rs1) =~= records_map(rs2));
    }
}

/// A fresh copy of a row, with the same key and the same fields.
pub fn clone_record(r: &Record) -> (out: Record)
    ensures
        rec_key(out) == rec_key(*r),
        rec_fields(out) == rec_fields(*r),
{
    Record {
        model: r.model.clone(),
        record_id: clone_record_id(&r.record_id),
        fields: clone_fields(&r.fields),
    }
}

/// A fresh copy of a row sequence, denoting the same table.
pub fn clone_records(rs: &Vec<Record>) -> (out: Vec<Record>)
    ensures
        records_map(out@) == records_map(rs@),
        records_distinct(out@) == records_distinct(rs@),
{
    let mut out: Vec<Record> = Vec::new();
    let mut i: usize = 0;
    while i < rs.len()
        invariant
            i <= rs.len(),
            out@.len() == i,
            forall|j: int|
                0 <= j < i ==> rec_key(out@[j]) == rec_key(rs@[j]) && rec_fields(out@[j])
                    == rec_fields(rs@[j]),
        decreases rs.len() - i,
    {
        let copy = clone_record(&rs[i]);
        out.push(copy);
        i = i + 1;
    }
    proof {
        lemma_records_map_congruent(out@, rs@);
    }
    out
}

} // verus!
