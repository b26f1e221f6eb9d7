//! The sync engine instance of one node.
//!
//! A `SyncManager` owns this node's hybrid logical clock, the model registry,
//! and the outbound queue of operations awaiting delivery to the transport.
//! It offers the operation factory (one builder per mutation shape and sync
//! classification), the atomic write path, and the ingestion path.

use vstd::multiset::Multiset;
use vstd::prelude::*;

use crate::apply::apply_create_many;
use crate::apply::apply_owned_data;
use crate::apply::apply_owned_items;
use crate::apply::apply_relation;
use crate::apply::apply_shared;
use crate::apply::fields_deps_ok;
use crate::apply::id_deps_ok;
use crate::apply::owned_key;
use crate::apply::ref_key;
use crate::apply::relation_key;
use crate::apply::spec_ingest_error;
use crate::apply::spec_ingest_records;
use crate::apply::spec_set_fields;
use crate::apply::state_of;
use crate::apply::value_dep_ok;
use crate::apply::verdict_of;
use crate::apply::TableMap;
use crate::clock::spec_hlc_merge;
use crate::clock::HybridLogicalClock;
use crate::errors::SyncError;
use crate::ops::clone_owned_items;
use crate::ops::clone_shared_data;
use crate::ops::create_values_views;
use crate::ops::items_views;
use crate::ops::op_views;
use crate::ops::CRDTOperation;
use crate::ops::CRDTOperationType;
use crate::ops::CRDTOperationTypeView;
use crate::ops::OwnedOperation;
use crate::ops::OwnedOperationData;
use crate::ops::OwnedOperationItem;
use crate::ops::CRDTOperationView;
use crate::ops::OwnedOperationView;
use crate::ops::RelationOperation;
use crate::ops::RelationOperationData;
use crate::ops::SharedOperation;
use crate::ops::SharedOperationCreateData;
use crate::ops::SharedOperationCreateDataView;
use crate::ops::SharedOperationData;
use crate::ops::SharedOperationDataView;
use crate::ops::SharedOperationView;
use crate::registry::spec_kind_of;
use crate::registry::ModelRegistry;
use crate::registry::SyncKind;
use crate::store::apply_mutations;
use crate::store::mutation_views;
use crate::store::rec_fields;
use crate::store::rec_key;
use crate::store::LogKind;
use crate::store::Mutation;
use crate::store::OwnedLogRow;
use crate::store::OwnedLogRowView;
use crate::store::Record;
use crate::store::SharedLogRow;
use crate::store::SharedLogRowView;
use crate::store::Store;
use crate::value::clone_record_id;
use crate::value::clone_bytes;
use crate::value::field_names_distinct;
use crate::value::fields_view;
use crate::value::RecordId;
use crate::value::Value;

verus! {

broadcast use vstd::seq_lib::group_to_multiset_ensures;

/// Relies on chrono::Utc::now and chrono::DateTime::timestamp_millis: the
/// wall clock's reading in milliseconds since the Unix epoch. Nothing is
/// promised of the reading; the clock logic is verified for every value.
#[verifier::external_body]
fn wall_clock_millis() -> i64 {
    chrono::Utc::now().timestamp_millis()
}

/// Relies on uuid::Uuid::new_v4: a freshly generated random identifier,
/// carried as its 128-bit value. Nothing is promised of it.
#[verifier::external_body]
fn generate_op_id() -> u128 {
    uuid::Uuid::new_v4().as_u128()
}

/// The sync engine instance of one node.
pub struct SyncManager {
    /// This node's stable identifier.
    pub node: u128,
    /// This node's hybrid logical clock.
    pub clock: HybridLogicalClock,
    /// The synchronized models and their classifications.
    pub registry: ModelRegistry,
    /// Operations committed locally and awaiting delivery to the transport.
    pub outbox: Vec<CRDTOperation>,
}

impl SyncManager {
    /// A sync engine for `node`, dispatching through `registry`, with a fresh
    /// clock and an empty outbound queue.
    pub fn new(node: u128, registry: ModelRegistry) -> (r: SyncManager)
        ensures
            r.node == node,
            r.clock.latest == 0,
            r.registry == registry,
            r.outbox@ =~= Seq::<CRDTOperation>::empty(),
    {
        SyncManager { node, clock: HybridLogicalClock::new(), registry, outbox: Vec::new() }
    }

    /// Hand the queued outbound operations to the transport, leaving the
    /// queue empty.
    pub fn take_outbox(&mut self) -> (r: Vec<CRDTOperation>)
        ensures
            r@ == old(self).outbox@,
            final(self).outbox@ =~= Seq::<CRDTOperation>::empty(),
            final(self).node == old(self).node,
            final(self).clock == old(self).clock,
            final(self).registry == old(self).registry,
    {
        let r = self.outbox.split_off(0);
        proof {
            assert(r@ =~= old(self).outbox@);
        }
        r
    }

    /// Stamp a new operation: a fresh identifier, this node as origin, and
    /// the next clock timestamp, strictly greater than every timestamp this
    /// node has generated or merged before.
    fn new_op(&mut self, typ: CRDTOperationType) -> (r: CRDTOperation)
        requires
            old(self).clock.latest < u64::MAX,
        ensures
            final(self).node == old(self).node,
            final(self).registry == old(self).registry,
            final(self).outbox == old(self).outbox,
            r.node == old(self).node,
            r.typ == typ,
            r.timestamp == final(self).clock.latest,
            r.timestamp > old(self).clock.latest,
    {
        let now_signed = wall_clock_millis();
        let now_ms: u64 = if now_signed < 0 {
            0
        } else {
            now_signed as u64
        };
        let timestamp = self.clock.new_timestamp(now_ms);
        CRDTOperation { id: generate_op_id(), node: self.node, timestamp, typ }
    }

    /// Build an owned create: one item with its initial field values.
    pub fn owned_create(&mut self, model: String, id: Value, values: Vec<(String, Value)>) -> (r:
        CRDTOperation)
        requires
            spec_kind_of(old(self).registry@, model@) == Some(SyncKind::Owned),
            old(self).clock.latest < u64::MAX,
        ensures
            final(self).node == old(self).node,
            final(self).registry == old(self).registry,
            final(self).outbox == old(self).outbox,
            r.node == old(self).node,
            r.timestamp == final(self).clock.latest,
            r.timestamp > old(self).clock.latest,
            r.typ@ matches CRDTOperationTypeView::Owned(o) && o.model == model@ && o.items.len()
                == 1 && o.items[0].id == id@ && o.items[0].data
                == crate::ops::OwnedOperationDataView::Create(fields_view(values@)),
    {
        let mut items: Vec<OwnedOperationItem> = Vec::new();
        items.push(OwnedOperationItem { id, data: OwnedOperationData::Create(values) });
        self.new_op(CRDTOperationType::Owned(OwnedOperation { model, items }))
    }

    /// Build an owned create of several items at once.
    pub fn owned_create_many(
        &mut self,
        model: String,
        values: Vec<(Value, Vec<(String, Value)>)>,
        skip_duplicates: bool,
    ) -> (r: CRDTOperation)
        requires
            spec_kind_of(old(self).registry@, model@) == Some(SyncKind::Owned),
            old(self).clock.latest < u64::MAX,
        ensures
            final(self).node == old(self).node,
            final(self).registry == old(self).registry,
            final(self).outbox == old(self).outbox,
            r.node == old(self).node,
            r.timestamp == final(self).clock.latest,
            r.timestamp > old(self).clock.latest,
            r.typ@ matches CRDTOperationTypeView::Owned(o) && o.model == model@ && o.items.len()
                == 1 && o.items[0].id == crate::value::ValueView::Null && (o.items[0].data
                matches crate::ops::OwnedOperationDataView::CreateMany {
                values: vs,
                skip_duplicates: sd,
            } && sd == skip_duplicates && vs.len() == values@.len() && (forall|i: int|
                0 <= i < values@.len() ==> vs[i].0 == values@[i].0@ && vs[i].1 == fields_view(
                    values@[i].1@,
                ))),
    {
        let mut items: Vec<OwnedOperationItem> = Vec::new();
        items.push(
            OwnedOperationItem {
                id: Value::Null,
                data: OwnedOperationData::CreateMany { values, skip_duplicates },
            },
        );
        self.new_op(CRDTOperationType::Owned(OwnedOperation { model, items }))
    }

    /// Build an owned update: one item's fields to overwrite.
    pub fn owned_update(&mut self, model: String, id: Value, values: Vec<(String, Value)>) -> (r:
        CRDTOperation)
        requires
            spec_kind_of(old(self).registry@, model@) == Some(SyncKind::Owned),
            old(self).clock.latest < u64::MAX,
        ensures
            final(self).node == old(self).node,
            final(self).registry == old(self).registry,
            final(self).outbox == old(self).outbox,
            r.node == old(self).node,
            r.timestamp == final(self).clock.latest,
            r.timestamp > old(self).clock.latest,
            r.typ@ matches CRDTOperationTypeView::Owned(o) && o.model == model@ && o.items.len()
                == 1 && o.items[0].id == id@ && o.items[0].data
                == crate::ops::OwnedOperationDataView::Update(fields_view(values@)),
    {
        let mut items: Vec<OwnedOperationItem> = Vec::new();
        items.push(OwnedOperationItem { id, data: OwnedOperationData::Update(values) });
        self.new_op(CRDTOperationType::Owned(OwnedOperation { model, items }))
    }

    /// Build a shared create whose record's existence alone matters.
    pub fn shared_create(&mut self, model: String, record_id: RecordId) -> (r: CRDTOperation)
        requires
            spec_kind_of(old(self).registry@, model@) == Some(SyncKind::Shared),
            old(self).clock.latest < u64::MAX,
        ensures
            final(self).node == old(self).node,
            final(self).registry == old(self).registry,
            final(self).outbox == old(self).outbox,
            r.node == old(self).node,
            r.timestamp == final(self).clock.latest,
            r.timestamp > old(self).clock.latest,
            r.typ@ == CRDTOperationTypeView::Shared(
                SharedOperationView {
                    record_id: record_id@,
                    model: model@,
                    data: SharedOperationDataView::Create(SharedOperationCreateDataView::Atomic),
                },
            ),
    {
        self.new_op(
            CRDTOperationType::Shared(
                SharedOperation {
                    record_id,
                    model,
                    data: SharedOperationData::Create(SharedOperationCreateData::Atomic),
                },
            ),
        )
    }

    /// Build a shared create that carries the record's initial field values.
    pub fn unique_shared_create(
        &mut self,
        model: String,
        record_id: RecordId,
        values: Vec<(String, Value)>,
    ) -> (r: CRDTOperation)
        requires
            spec_kind_of(old(self).registry@, model@) == Some(SyncKind::Shared),
            old(self).clock.latest < u64::MAX,
        ensures
            final(self).node == old(self).node,
            final(self).registry == old(self).registry,
            final(self).outbox == old(self).outbox,
            r.node == old(self).node,
            r.timestamp == final(self).clock.latest,
            r.timestamp > old(self).clock.latest,
            r.typ@ == CRDTOperationTypeView::Shared(
                SharedOperationView {
                    record_id: record_id@,
                    model: model@,
                    data: SharedOperationDataView::Create(
                        SharedOperationCreateDataView::Unique(fields_view(values@)),
                    ),
                },
            ),
    {
        self.new_op(
            CRDTOperationType::Shared(
                SharedOperation {
                    record_id,
                    model,
                    data: SharedOperationData::Create(SharedOperationCreateData::Unique(values)),
                },
            ),
        )
    }

    /// Atomically persist a batch of operations together with the local
    /// mutations they narrate, then queue every operation for delivery.
    ///
    /// Within one atomic step, each operation gains exactly one log row,
    /// routed to the owned or shared log by its variant, and the mutations
    /// are applied in order: no mutation is ever observable without its
    /// operation being durably logged. A batch holding a relation operation
    /// is rejected whole, because the log has no table for them and is the
    /// sole basis for replication.
    pub fn write_ops(
        &mut self,
        store: &mut Store,
        ops: Vec<CRDTOperation>,
        queries: Vec<Mutation>,
    ) -> (r: Result<(), SyncError>)
        requires
            old(store).wf(),
        ensures
            final(store).wf(),
            final(self).node == old(self).node,
            final(self).clock == old(self).clock,
            final(self).registry == old(self).registry,
            r is Ok <==> !has_relation_op(op_views(ops@)),
            r is Err ==> r == Err::<(), SyncError>(SyncError::UnsupportedOperation)
                && *final(store) == *old(store) && *final(self) == *old(self),
            r is Ok ==> final(store)@.shared_log == old(store)@.shared_log + spec_shared_rows(
                op_views(ops@),
            ),
            r is Ok ==> final(store)@.owned_log == old(store)@.owned_log + spec_owned_rows(
                op_views(ops@),
            ),
            r is Ok ==> final(store)@.records == apply_mutations(
                old(store)@.records,
                mutation_views(queries@),
            ),
            r is Ok ==> final(store)@.nodes == old(store)@.nodes,
            r is Ok ==> final(self).outbox@ == old(self).outbox@ + ops@,
    {
        let ghost ovs = op_views(ops@);
        let mut i: usize = 0;
        while i < ops.len()
            invariant
                *store == *old(store),
                *self == *old(self),
                old(store).wf(),
                ovs == op_views(ops@),
                i <= ops@.len(),
                forall|j: int|
                    0 <= j < i ==> !((#[trigger] ovs[j].typ)
                        matches CRDTOperationTypeView::Relation(_)),
            decreases ops@.len() - i,
        {
            match &ops[i].typ {
                CRDTOperationType::Relation(_) => {
                    proof {
                        assert(ovs[i as int].typ matches CRDTOperationTypeView::Relation(_));
                    }
                    return Err(SyncError::UnsupportedOperation);
                },
                _ => {},
            }
            i = i + 1;
        }
        let mut i: usize = 0;
        while i < ops.len()
            invariant
                *self == *old(self),
                old(store).wf(),
                store.wf(),
                ovs == op_views(ops@),
                i <= ops@.len(),
                store@.shared_log == old(store)@.shared_log + spec_shared_rows(
                    ovs.take(i as int),
                ),
                store@.owned_log == old(store)@.owned_log + spec_owned_rows(ovs.take(i as int)),
                store@.records == old(store)@.records,
                store@.nodes == old(store)@.nodes,
                store.records == old(store).records,
            decreases ops@.len() - i,
        {
            let ghost prefix = ovs.take(i as int);
            proof {
                assert(ovs.take(i + 1) =~= prefix + seq![ovs[i as int]]);
                lemma_shared_rows_concat(prefix, seq![ovs[i as int]]);
                lemma_owned_rows_concat(prefix, seq![ovs[i as int]]);
                assert(seq![ovs[i as int]].drop_first() =~= Seq::<CRDTOperationView>::empty());
                assert(spec_shared_rows(Seq::<CRDTOperationView>::empty()) =~= Seq::<
                    SharedLogRowView,
                >::empty());
                assert(spec_owned_rows(Seq::<CRDTOperationView>::empty()) =~= Seq::<
                    OwnedLogRowView,
                >::empty());
            }
            match &ops[i].typ {
                CRDTOperationType::Owned(o) => {
                    let items = clone_owned_items(&o.items);
                    proof {
                        assert(items_views(items@) =~= items_views(o.items@));
                    }
                    let row = OwnedLogRow {
                        op_id: ops[i].id,
                        timestamp: ops[i].timestamp,
                        model: o.model.clone(),
                        items,
                        node: ops[i].node,
                    };
                    proof {
                        assert(ovs[i as int].typ == CRDTOperationTypeView::Owned(o@));
                        assert(row@ == spec_owned_row(ovs[i as int], o@));
                        assert(spec_owned_rows(seq![ovs[i as int]]) =~= seq![row@]);
                        assert(spec_shared_rows(seq![ovs[i as int]]) =~= Seq::<
                            SharedLogRowView,
                        >::empty());
                    }
                    store.push_owned_log(row);
                    proof {
                        assert(store@.owned_log =~= old(store)@.owned_log + spec_owned_rows(
                            ovs.take(i + 1),
                        ));
                        assert(store@.shared_log =~= old(store)@.shared_log + spec_shared_rows(
                            ovs.take(i + 1),
                        ));
                    }
                },
                CRDTOperationType::Shared(s) => {
                    let kind = match &s.data {
                        SharedOperationData::Create(_) => LogKind::Create,
                        SharedOperationData::Update { .. } => LogKind::Update,
                        SharedOperationData::Delete => LogKind::Delete,
                    };
                    let row = SharedLogRow {
                        op_id: ops[i].id,
                        timestamp: ops[i].timestamp,
                        model: s.model.clone(),
                        record_id: clone_record_id(&s.record_id),
                        kind,
                        data: clone_shared_data(&s.data),
                        node: ops[i].node,
                    };
                    proof {
                        assert(ovs[i as int].typ == CRDTOperationTypeView::Shared(s@));
                        assert(row@ == spec_shared_row(ovs[i as int], s@));
                        assert(spec_shared_rows(seq![ovs[i as int]]) =~= seq![row@]);
                        assert(spec_owned_rows(seq![ovs[i as int]]) =~= Seq::<
                            OwnedLogRowView,
                        >::empty());
                    }
                    store.push_shared_log(row);
                    proof {
                        assert(store@.shared_log =~= old(store)@.shared_log + spec_shared_rows(
                            ovs.take(i + 1),
                        ));
                        assert(store@.owned_log =~= old(store)@.owned_log + spec_owned_rows(
                            ovs.take(i + 1),
                        ));
                    }
                },
                CRDTOperationType::Relation(_) => {},
            }
            i = i + 1;
        }
        proof {
            assert(ovs.take(ops@.len() as int) =~= ovs);
        }
        let ghost qvs = mutation_views(queries@);
        let mut qs = queries;
        while qs.len() > 0
            invariant
                *self == *old(self),
                old(store).wf(),
                store.wf(),
                ovs == op_views(ops@),
                qvs == mutation_views(queries@),
                apply_mutations(old(store)@.records, qvs) == apply_mutations(
                    store@.records,
                    mutation_views(qs@),
                ),
                store@.shared_log == old(store)@.shared_log + spec_shared_rows(ovs),
                store@.owned_log == old(store)@.owned_log + spec_owned_rows(ovs),
                store@.nodes == old(store)@.nodes,
            decreases qs.len(),
        {
            let ghost rest_views = mutation_views(qs@);
            let ghost t_now = store@.records;
            let q = qs.remove(0);
            proof {
                assert(mutation_views(qs@) =~= rest_views.drop_first());
                assert(rest_views[0] == q@);
            }
            store.apply_mutation(q);
            proof {
                assert(apply_mutations(t_now, rest_views) == apply_mutations(
                    store@.records,
                    mutation_views(qs@),
                ));
            }
        }
        proof {
            assert(mutation_views(qs@) =~= Seq::<crate::store::MutationView>::empty());
        }
        let mut batch = ops;
        self.outbox.append(&mut batch);
        Ok(())
    }

    /// Atomically persist one operation together with the local mutation it
    /// narrates, then queue it for delivery. A relation operation is
    /// rejected, as in [`Self::write_ops`].
    pub fn write_op(&mut self, store: &mut Store, op: CRDTOperation, query: Mutation) -> (r:
        Result<(), SyncError>)
        requires
            old(store).wf(),
        ensures
            final(store).wf(),
            final(self).node == old(self).node,
            final(self).clock == old(self).clock,
            final(self).registry == old(self).registry,
            r is Ok <==> !(op.typ@ matches CRDTOperationTypeView::Relation(_)),
            r is Err ==> r == Err::<(), SyncError>(SyncError::UnsupportedOperation)
                && *final(store) == *old(store) && *final(self) == *old(self),
            r is Ok ==> final(store)@.shared_log == old(store)@.shared_log + spec_shared_rows(
                seq![op@],
            ),
            r is Ok ==> final(store)@.owned_log == old(store)@.owned_log + spec_owned_rows(
                seq![op@],
            ),
            r is Ok ==> final(store)@.records == crate::store::apply_mutation(
                old(store)@.records,
                query@,
            ),
            r is Ok ==> final(store)@.nodes == old(store)@.nodes,
            r is Ok ==> final(self).outbox@ == old(self).outbox@.push(op),
    {
        let ghost opv = op@;
        let mut ops: Vec<CRDTOperation> = Vec::new();
        ops.push(op);
        let mut queries: Vec<Mutation> = Vec::new();
        queries.push(query);
        proof {
            assert(ops@ =~= seq![op]);
            assert(op_views(ops@) =~= seq![opv]);
            assert(mutation_views(queries@) =~= seq![query@]);
            if !(opv.typ matches CRDTOperationTypeView::Relation(_)) {
                assert forall|i: int| 0 <= i < seq![opv].len() implies !((
                #[trigger] seq![opv][i].typ) matches CRDTOperationTypeView::Relation(_)) by {
                    assert(seq![opv][i] == opv);
                }
                assert(!has_relation_op(seq![opv]));
            } else {
                assert(seq![opv][0].typ matches CRDTOperationTypeView::Relation(_));
                assert(has_relation_op(seq![opv]));
            }
        }
        let r = self.write_ops(store, ops, queries);
        proof {
            if r is Ok {
                let t0 = old(store)@.records;
                assert(seq![query@].drop_first() =~= Seq::<crate::store::MutationView>::empty());
                assert(apply_mutations(
                    crate::store::apply_mutation(t0, query@),
                    Seq::<crate::store::MutationView>::empty(),
                ) == crate::store::apply_mutation(t0, query@));
                assert(apply_mutations(t0, seq![query@]) == crate::store::apply_mutation(
                    t0,
                    query@,
                ));
                assert(old(self).outbox@ + seq![op] =~= old(self).outbox@.push(op));
            }
        }
        r
    }

    /// The complete shared-operation history, ordered ascending by
    /// timestamp; used to bootstrap a newly joined or long-disconnected
    /// replica.
    pub fn get_ops(&self, store: &Store) -> (r: Vec<CRDTOperation>)
        ensures
            r@.len() == store@.shared_log.len(),
            sorted_by_timestamp(r@),
            op_views(r@).to_multiset() == rows_ops(store@.shared_log).to_multiset(),
    {
        let ghost goal = rows_ops(store@.shared_log);
        let mut pending: Vec<CRDTOperation> = Vec::new();
        let mut i: usize = 0;
        while i < store.shared_log.len()
            invariant
                goal == rows_ops(store@.shared_log),
                i <= store.shared_log@.len(),
                store@.shared_log.len() == store.shared_log@.len(),
                pending@.len() == i,
                forall|j: int| 0 <= j < i ==> pending@[j]@ == goal[j],
            decreases store.shared_log@.len() - i,
        {
            let row = &store.shared_log[i];
            let op = CRDTOperation {
                id: row.op_id,
                node: row.node,
                timestamp: row.timestamp,
                typ: CRDTOperationType::Shared(
                    SharedOperation {
                        record_id: clone_record_id(&row.record_id),
                        model: row.model.clone(),
                        data: clone_shared_data(&row.data),
                    },
                ),
            };
            proof {
                assert(store@.shared_log[i as int] == store.shared_log@[i as int]@);
                assert(op@ == op_of_row(store@.shared_log[i as int]));
            }
            pending.push(op);
            i = i + 1;
        }
        proof {
            assert(op_views(pending@) =~= goal);
        }
        let ghost total = goal.to_multiset();
        let mut out: Vec<CRDTOperation> = Vec::new();
        while pending.len() > 0
            invariant
                out@.len() + pending@.len() == goal.len(),
                op_views(out@).to_multiset().add(op_views(pending@).to_multiset()) == total,
                sorted_by_timestamp(out@),
                forall|a: int, b: int|
                    0 <= a < out@.len() && 0 <= b < pending@.len() ==> out@[a].timestamp
                        <= pending@[b].timestamp,
            decreases pending@.len(),
        {
            let ghost pend_views = op_views(pending@);
            let ghost out_views = op_views(out@);
            let m = find_min_timestamp(&pending);
            let ghost picked = pending@[m as int]@;
            let op = pending.remove(m);
            proof {
                assert(op@ == picked);
                assert(op_views(pending@) =~= pend_views.remove(m as int));
                assert(pend_views[m as int] == picked);
                assert(pend_views.contains(picked));
                assert(pend_views.to_multiset().count(picked) > 0);
            }
            out.push(op);
            proof {
                assert(op_views(out@) =~= out_views.push(picked));
                assert(out_views.push(picked).to_multiset() =~= out_views.to_multiset().insert(
                    picked,
                ));
                assert(pend_views.remove(m as int).to_multiset() =~= pend_views
                    .to_multiset()
                    .remove(pend_views[m as int]));
                assert(op_views(out@).to_multiset() == out_views.to_multiset().insert(picked));
                assert(op_views(pending@).to_multiset() == pend_views.to_multiset().remove(
                    picked,
                ));
                assert(out_views.to_multiset().insert(picked).add(
                    pend_views.to_multiset().remove(picked),
                ) =~= out_views.to_multiset().add(pend_views.to_multiset()));
            }
        }
        proof {
            assert(op_views(pending@) =~= Seq::<CRDTOperationView>::empty());
            assert(op_views(pending@).to_multiset() =~= Multiset::<CRDTOperationView>::empty());
            assert(op_views(out@).to_multiset().add(Multiset::<CRDTOperationView>::empty())
                =~= op_views(out@).to_multiset());
        }
        out
    }

    /// Apply one received operation to local state.
    ///
    /// The originating device is recorded first, so rows referring to it have
    /// a target before richer device metadata arrives, and the remote
    /// timestamp is merged into this node's clock, so every timestamp
    /// generated from now on causally follows the operation. The mutation is
    /// then dispatched through the registry and applied transactionally: a
    /// failing apply reports its error and leaves the tables unchanged.
    pub fn ingest_op(&mut self, store: &mut Store, op: CRDTOperation) -> (r: Result<
        (),
        SyncError,
    >)
        requires
            old(store).wf(),
        ensures
            final(store).wf(),
            final(self).node == old(self).node,
            final(self).registry == old(self).registry,
            final(self).outbox == old(self).outbox,
            final(self).clock.latest == spec_hlc_merge(old(self).clock.latest, op.timestamp),
            final(store)@.nodes == old(store)@.nodes.insert(op.node),
            final(store)@.owned_log == old(store)@.owned_log,
            final(store)@.shared_log == old(store)@.shared_log,
            final(store)@.records == spec_ingest_records(
                old(self).registry@,
                old(store)@.records,
                op.typ@,
            ),
            r == (match spec_ingest_error(old(self).registry@, old(store)@.records, op.typ@) {
                None => Ok::<(), SyncError>(()),
                Some(e) => Err::<(), SyncError>(e),
            }),
    {
        store.upsert_node(op.node);
        self.clock.update_with_timestamp(op.timestamp);
        match op.typ {
            CRDTOperationType::Shared(shared) => match self.registry.lookup(&shared.model) {
                Some(SyncKind::Shared) => ingest_shared(store, shared),
                _ => Err(SyncError::UnsupportedOperation),
            },
            CRDTOperationType::Owned(owned) => match self.registry.lookup(&owned.model) {
                Some(SyncKind::Owned) => ingest_owned(store, owned.model, owned.items),
                _ => Err(SyncError::UnsupportedOperation),
            },
            CRDTOperationType::Relation(rel) => match self.registry.lookup(&rel.relation) {
                Some(SyncKind::Relation) => ingest_relation(store, rel),
                _ => Err(SyncError::UnsupportedOperation),
            },
        }
    }

    /// Build a shared update of one named field.
    pub fn shared_update(
        &mut self,
        model: String,
        record_id: RecordId,
        field: String,
        value: Value,
    ) -> (r: CRDTOperation)
        requires
            spec_kind_of(old(self).registry@, model@) == Some(SyncKind::Shared),
            old(self).clock.latest < u64::MAX,
        ensures
            final(self).node == old(self).node,
            final(self).registry == old(self).registry,
            final(self).outbox == old(self).outbox,
            r.node == old(self).node,
            r.timestamp == final(self).clock.latest,
            r.timestamp > old(self).clock.latest,
            r.typ@ == CRDTOperationTypeView::Shared(
                SharedOperationView {
                    record_id: record_id@,
                    model: model@,
                    data: SharedOperationDataView::Update { field: field@, value: value@ },
                },
            ),
    {
        self.new_op(
            CRDTOperationType::Shared(
                SharedOperation {
                    record_id,
                    model,
                    data: SharedOperationData::Update { field, value },
                },
            ),
        )
    }
}

/// The routing kind a shared mutation is logged under.
pub open spec fn spec_log_kind(d: SharedOperationDataView) -> LogKind {
    match d {
        SharedOperationDataView::Create(_) => LogKind::Create,
        SharedOperationDataView::Update { .. } => LogKind::Update,
        SharedOperationDataView::Delete => LogKind::Delete,
    }
}

/// The shared-log row narrating one shared operation.
pub open spec fn spec_shared_row(op: CRDTOperationView, s: SharedOperationView) -> SharedLogRowView {
    SharedLogRowView {
        op_id: op.id,
        timestamp: op.timestamp,
        model: s.model,
        record_id: s.record_id,
        kind: spec_log_kind(s.data),
        data: s.data,
        node: op.node,
    }
}

/// The owned-log row narrating one owned operation.
pub open spec fn spec_owned_row(op: CRDTOperationView, o: OwnedOperationView) -> OwnedLogRowView {
    OwnedLogRowView {
        op_id: op.id,
        timestamp: op.timestamp,
        model: o.model,
        items: o.items,
        node: op.node,
    }
}

/// The shared-log rows a batch of operations adds, in batch order.
pub open spec fn spec_shared_rows(ops: Seq<CRDTOperationView>) -> Seq<SharedLogRowView>
    decreases ops.len(),
{
    if ops.len() == 0 {
        Seq::empty()
    } else {
        let rest = spec_shared_rows(ops.drop_first());
        match ops[0].typ {
            CRDTOperationTypeView::Shared(s) => seq![spec_shared_row(ops[0], s)] + rest,
            _ => rest,
        }
    }
}

/// The owned-log rows a batch of operations adds, in batch order.
pub open spec fn spec_owned_rows(ops: Seq<CRDTOperationView>) -> Seq<OwnedLogRowView>
    decreases ops.len(),
{
    if ops.len() == 0 {
        Seq::empty()
    } else {
        let rest = spec_owned_rows(ops.drop_first());
        match ops[0].typ {
            CRDTOperationTypeView::Owned(o) => seq![spec_owned_row(ops[0], o)] + rest,
            _ => rest,
        }
    }
}

/// Whether some operation in the batch is a relation operation.
pub open spec fn has_relation_op(ops: Seq<CRDTOperationView>) -> bool {
    exists|i: int|
        0 <= i < ops.len() && (#[trigger] ops[i].typ) matches CRDTOperationTypeView::Relation(_)
}

/// Log rows distribute over batch concatenation.
proof fn lemma_shared_rows_concat(a: Seq<CRDTOperationView>, b: Seq<CRDTOperationView>)
    ensures
        spec_shared_rows(a + b) == spec_shared_rows(a) + spec_shared_rows(b),
    decreases a.len(),
{
    if a.len() == 0 {
        assert(a + b =~= b);
        assert(spec_shared_rows(a) + spec_shared_rows(b) =~= spec_shared_rows(b));
    } else {
        assert((a + b).drop_first() =~= a.drop_first() + b);
        lemma_shared_rows_concat(a.drop_first(), b);
        assert((a + b)[0] == a[0]);
        match a[0].typ {
            CRDTOperationTypeView::Shared(s) => {
                assert(seq![spec_shared_row(a[0], s)] + (spec_shared_rows(a.drop_first())
                    + spec_shared_rows(b)) =~= (seq![spec_shared_row(a[0], s)] + spec_shared_rows(
                    a.drop_first(),
                )) + spec_shared_rows(b));
            },
            _ => {},
        }
    }
}

/// Log rows distribute over batch concatenation.
proof fn lemma_owned_rows_concat(a: Seq<CRDTOperationView>, b: Seq<CRDTOperationView>)
    ensures
        spec_owned_rows(a + b) == spec_owned_rows(a) + spec_owned_rows(b),
    decreases a.len(),
{
    if a.len() == 0 {
        assert(a + b =~= b);
        assert(spec_owned_rows(a) + spec_owned_rows(b) =~= spec_owned_rows(b));
    } else {
        assert((a + b).drop_first() =~= a.drop_first() + b);
        lemma_owned_rows_concat(a.drop_first(), b);
        assert((a + b)[0] == a[0]);
        match a[0].typ {
            CRDTOperationTypeView::Owned(o) => {
                assert(seq![spec_owned_row(a[0], o)] + (spec_owned_rows(a.drop_first())
                    + spec_owned_rows(b)) =~= (seq![spec_owned_row(a[0], o)] + spec_owned_rows(
                    a.drop_first(),
                )) + spec_owned_rows(b));
            },
            _ => {},
        }
    }
}

/// Atomicity of the write path: with no relation operation in the batch, the
/// write path adds exactly one log row per operation, so the number of new
/// log rows equals the number of operations passed.
pub proof fn lemma_log_rows_count(ops: Seq<CRDTOperationView>)
    requires
        forall|i: int|
            0 <= i < ops.len() ==> !((#[trigger] ops[i].typ)
                matches CRDTOperationTypeView::Relation(_)),
    ensures
        spec_shared_rows(ops).len() + spec_owned_rows(ops).len() == ops.len(),
    decreases ops.len(),
{
    if ops.len() > 0 {
        assert forall|i: int| 0 <= i < ops.drop_first().len() implies !((
        #[trigger] ops.drop_first()[i].typ) matches CRDTOperationTypeView::Relation(_)) by {
            assert(ops.drop_first()[i] == ops[i + 1]);
        }
        lemma_log_rows_count(ops.drop_first());
    }
}

/// The operation a shared-log row narrates.
pub open spec fn op_of_row(row: SharedLogRowView) -> CRDTOperationView {
    CRDTOperationView {
        id: row.op_id,
        node: row.node,
        timestamp: row.timestamp,
        typ: CRDTOperationTypeView::Shared(
            SharedOperationView { record_id: row.record_id, model: row.model, data: row.data },
        ),
    }
}

/// The operations a shared-log history narrates, in log order.
pub open spec fn rows_ops(rows: Seq<SharedLogRowView>) -> Seq<CRDTOperationView> {
    Seq::new(rows.len(), |i: int| op_of_row(rows[i]))
}

/// Whether a batch of operations is ordered by ascending timestamp.
pub open spec fn sorted_by_timestamp(ops: Seq<CRDTOperation>) -> bool {
    forall|i: int, j: int| 0 <= i < j < ops.len() ==> ops[i].timestamp <= ops[j].timestamp
}

/// The position of an operation with the smallest timestamp.
fn find_min_timestamp(ops: &Vec<CRDTOperation>) -> (r: usize)
    requires
        ops@.len() > 0,
    ensures
        r < ops@.len(),
        forall|k: int| 0 <= k < ops@.len() ==> ops@[r as int].timestamp <= ops@[k].timestamp,
{
    let mut best: usize = 0;
    let mut i: usize = 1;
    while i < ops.len()
        invariant
            best < i,
            i <= ops@.len(),
            forall|k: int| 0 <= k < i ==> ops@[best as int].timestamp <= ops@[k].timestamp,
        decreases ops@.len() - i,
    {
        if ops[i].timestamp < ops[best].timestamp {
            best = i;
        }
        i = i + 1;
    }
    best
}

/// Whether the value's embedded foreign reference, if any, resolves in
/// `store`.
fn check_value_dep(store: &Store, v: &Value) -> (r: bool)
    requires
        store.wf(),
    ensures
        r == value_dep_ok(store@.records, v@),
{
    match v {
        Value::Ref(fr) => {
            let rid = RecordId::from_pub_id(clone_bytes(&fr.pub_id));
            proof {
                assert((fr.model@, rid@) == ref_key(fr.model@, fr.pub_id@));
            }
            store.find_record(&fr.model, &rid).is_some()
        },
        _ => true,
    }
}

/// Whether every foreign reference in `fields` resolves in `store`.
fn check_fields_deps(store: &Store, fields: &Vec<(String, Value)>) -> (r: bool)
    requires
        store.wf(),
    ensures
        r == fields_deps_ok(store@.records, fields_view(fields@)),
{
    let ghost fv = fields_view(fields@);
    let mut i: usize = 0;
    while i < fields.len()
        invariant
            store.wf(),
            i <= fields.len(),
            fv == fields_view(fields@),
            fv.len() == fields@.len(),
            forall|j: int| 0 <= j < i ==> value_dep_ok(store@.records, fv[j].1),
        decreases fields.len() - i,
    {
        if !check_value_dep(store, &fields[i].1) {
            proof {
                assert(fv[i as int].1 == fields@[i as int].1@);
            }
            return false;
        }
        i = i + 1;
    }
    true
}

/// Whether every foreign reference among an identity's parts resolves in
/// `store`.
fn check_id_deps(store: &Store, id: &RecordId) -> (r: bool)
    requires
        store.wf(),
    ensures
        r == id_deps_ok(store@.records, id@),
{
    check_fields_deps(store, &id.parts)
}

/// Apply one shared mutation to its record.
fn ingest_shared(store: &mut Store, op: SharedOperation) -> (r: Result<(), SyncError>)
    requires
        old(store).wf(),
    ensures
        final(store).wf(),
        final(store)@.records == state_of(
            old(store)@.records,
            apply_shared(old(store)@.records, op.model@, op.record_id@, op.data@),
        ),
        r == verdict_of(apply_shared(old(store)@.records, op.model@, op.record_id@, op.data@)),
        final(store)@.nodes == old(store)@.nodes,
        final(store)@.owned_log == old(store)@.owned_log,
        final(store)@.shared_log == old(store)@.shared_log,
{
    match op.data {
        SharedOperationData::Create(create) => {
            let fields: Vec<(String, Value)> = match create {
                SharedOperationCreateData::Atomic => {
                    let empty: Vec<(String, Value)> = Vec::new();
                    proof {
                        assert(fields_view(empty@) =~= Seq::<
                            (Seq<char>, crate::value::ValueView),
                        >::empty());
                    }
                    empty
                },
                SharedOperationCreateData::Unique(fs) => fs,
            };
            if !field_names_distinct(&fields) {
                return Err(SyncError::Serialization);
            }
            if store.find_record(&op.model, &op.record_id).is_some() {
                return Ok(());
            }
            if !check_id_deps(store, &op.record_id) || !check_fields_deps(store, &fields) {
                return Err(SyncError::MissingDependency);
            }
            store.insert_record(Record { model: op.model, record_id: op.record_id, fields });
            Ok(())
        },
        SharedOperationData::Update { field, value } => {
            match store.find_record(&op.model, &op.record_id) {
                None => Err(SyncError::MissingDependency),
                Some(i) => {
                    if !check_value_dep(store, &value) {
                        return Err(SyncError::MissingDependency);
                    }
                    store.set_record_field(i, field, value);
                    Ok(())
                },
            }
        },
        SharedOperationData::Delete => {
            match store.find_record(&op.model, &op.record_id) {
                Some(i) => {
                    store.remove_record(i);
                    Ok(())
                },
                None => Ok(()),
            }
        },
    }
}

/// Create one owned item, or overwrite it when `overwrite_existing` and it
/// already exists.
fn ingest_owned_create_entry(
    store: &mut Store,
    model: &String,
    id: Value,
    fields: Vec<(String, Value)>,
    overwrite_existing: bool,
) -> (r: Result<(), SyncError>)
    requires
        old(store).wf(),
    ensures
        final(store).wf(),
        final(store)@.records == state_of(
            old(store)@.records,
            crate::apply::apply_create(
                old(store)@.records,
                owned_key(model@, id@),
                fields_view(fields@),
                value_dep_ok(old(store)@.records, id@),
                overwrite_existing,
            ),
        ),
        r == verdict_of(
            crate::apply::apply_create(
                old(store)@.records,
                owned_key(model@, id@),
                fields_view(fields@),
                value_dep_ok(old(store)@.records, id@),
                overwrite_existing,
            ),
        ),
        final(store)@.nodes == old(store)@.nodes,
        final(store)@.owned_log == old(store)@.owned_log,
        final(store)@.shared_log == old(store)@.shared_log,
{
    if !field_names_distinct(&fields) {
        return Err(SyncError::Serialization);
    }
    let id_ok = check_value_dep(store, &id);
    let rid = RecordId::from_item_id(id);
    proof {
        assert((model@, rid@) == owned_key(model@, rid@[0].1));
    }
    match store.find_record(model, &rid) {
        Some(i) => {
            if !overwrite_existing {
                return Ok(());
            }
            if !id_ok || !check_fields_deps(store, &fields) {
                return Err(SyncError::MissingDependency);
            }
            store.replace_fields(i, fields);
            Ok(())
        },
        None => {
            if !id_ok || !check_fields_deps(store, &fields) {
                return Err(SyncError::MissingDependency);
            }
            store.insert_record(Record { model: model.clone(), record_id: rid, fields });
            Ok(())
        },
    }
}

/// Create several owned items in order; the first failure aborts.
fn ingest_create_many(
    store: &mut Store,
    model: &String,
    values: Vec<(Value, Vec<(String, Value)>)>,
    skip_duplicates: bool,
) -> (r: Result<(), SyncError>)
    requires
        old(store).wf(),
    ensures
        final(store).wf(),
        r == verdict_of(
            apply_create_many(
                old(store)@.records,
                model@,
                create_values_views(values@),
                skip_duplicates,
            ),
        ),
        r is Ok ==> apply_create_many(
            old(store)@.records,
            model@,
            create_values_views(values@),
            skip_duplicates,
        ) == Ok::<TableMap, SyncError>(final(store)@.records),
        final(store)@.nodes == old(store)@.nodes,
        final(store)@.owned_log == old(store)@.owned_log,
        final(store)@.shared_log == old(store)@.shared_log,
{
    let ghost t0 = old(store)@.records;
    let ghost all = create_values_views(values@);
    let mut rest = values;
    while rest.len() > 0
        invariant
            store.wf(),
            t0 == old(store)@.records,
            all == create_values_views(values@),
            apply_create_many(t0, model@, all, skip_duplicates) == apply_create_many(
                store@.records,
                model@,
                create_values_views(rest@),
                skip_duplicates,
            ),
            store@.nodes == old(store)@.nodes,
            store@.owned_log == old(store)@.owned_log,
            store@.shared_log == old(store)@.shared_log,
        decreases rest.len(),
    {
        let ghost rest_views = create_values_views(rest@);
        let ghost t_now = store@.records;
        let (id, fields) = rest.remove(0);
        proof {
            assert(create_values_views(rest@) =~= rest_views.drop_first());
            assert(rest_views[0] == (id@, fields_view(fields@)));
        }
        match ingest_owned_create_entry(store, model, id, fields, !skip_duplicates) {
            Ok(()) => {
                proof {
                    assert(apply_create_many(t_now, model@, rest_views, skip_duplicates)
                        == apply_create_many(
                        store@.records,
                        model@,
                        rest_views.drop_first(),
                        skip_duplicates,
                    ));
                }
            },
            Err(e) => {
                proof {
                    assert(apply_create_many(t_now, model@, rest_views, skip_duplicates) == Err::<
                        TableMap,
                        SyncError,
                    >(e));
                }
                return Err(e);
            },
        }
    }
    proof {
        assert(create_values_views(rest@) =~= Seq::<
            (crate::value::ValueView, crate::value::FieldsView),
        >::empty());
    }
    Ok(())
}

/// Apply one owned item mutation under its item identifier.
fn ingest_owned_item(store: &mut Store, model: &String, item: OwnedOperationItem) -> (r: Result<
    (),
    SyncError,
>)
    requires
        old(store).wf(),
    ensures
        final(store).wf(),
        r == verdict_of(apply_owned_data(old(store)@.records, model@, item.id@, item.data@)),
        r is Ok ==> apply_owned_data(old(store)@.records, model@, item.id@, item.data@) == Ok::<
            TableMap,
            SyncError,
        >(final(store)@.records),
        final(store)@.nodes == old(store)@.nodes,
        final(store)@.owned_log == old(store)@.owned_log,
        final(store)@.shared_log == old(store)@.shared_log,
{
    match item.data {
        OwnedOperationData::Create(fields) => ingest_owned_create_entry(
            store,
            model,
            item.id,
            fields,
            false,
        ),
        OwnedOperationData::CreateMany { values, skip_duplicates } => ingest_create_many(
            store,
            model,
            values,
            skip_duplicates,
        ),
        OwnedOperationData::Update(fields) => {
            if !field_names_distinct(&fields) {
                return Err(SyncError::Serialization);
            }
            let rid = RecordId::from_item_id(item.id);
            proof {
                assert((model@, rid@) == owned_key(model@, rid@[0].1));
            }
            match store.find_record(model, &rid) {
                None => Err(SyncError::MissingDependency),
                Some(i) => {
                    if !check_fields_deps(store, &fields) {
                        return Err(SyncError::MissingDependency);
                    }
                    apply_field_updates(store, i, fields);
                    Ok(())
                },
            }
        },
        OwnedOperationData::Delete => {
            let rid = RecordId::from_item_id(item.id);
            proof {
                assert((model@, rid@) == owned_key(model@, rid@[0].1));
            }
            match store.find_record(model, &rid) {
                Some(i) => {
                    store.remove_record(i);
                    Ok(())
                },
                None => Ok(()),
            }
        },
    }
}

/// Overwrite the listed fields of the row at position `i`, in order.
fn apply_field_updates(store: &mut Store, i: usize, fields: Vec<(String, Value)>)
    requires
        old(store).wf(),
        i < old(store).records@.len(),
    ensures
        final(store).wf(),
        final(store)@.records == old(store)@.records.insert(
            rec_key(old(store).records@[i as int]),
            spec_set_fields(rec_fields(old(store).records@[i as int]), fields_view(fields@)),
        ),
        final(store)@.nodes == old(store)@.nodes,
        final(store)@.owned_log == old(store)@.owned_log,
        final(store)@.shared_log == old(store)@.shared_log,
{
    let ghost t0 = old(store)@.records;
    let ghost key = rec_key(old(store).records@[i as int]);
    let ghost base = rec_fields(old(store).records@[i as int]);
    let ghost all = fields_view(fields@);
    let mut rest = fields;
    proof {
        assert(t0.insert(key, base) =~= t0) by {
            crate::store::lemma_records_map_index(old(store).records@, i as int);
        }
    }
    while rest.len() > 0
        invariant
            store.wf(),
            i < store.records@.len(),
            rec_key(store.records@[i as int]) == key,
            store@.records == t0.insert(key, rec_fields(store.records@[i as int])),
            spec_set_fields(base, all) == spec_set_fields(
                rec_fields(store.records@[i as int]),
                fields_view(rest@),
            ),
            store@.nodes == old(store)@.nodes,
            store@.owned_log == old(store)@.owned_log,
            store@.shared_log == old(store)@.shared_log,
        decreases rest.len(),
    {
        let ghost rest_views = fields_view(rest@);
        let ghost cur = rec_fields(store.records@[i as int]);
        let (name, value) = rest.remove(0);
        proof {
            assert(fields_view(rest@) =~= rest_views.drop_first());
            assert(rest_views[0] == (name@, value@));
        }
        store.set_record_field(i, name, value);
        proof {
            assert(store@.records =~= t0.insert(
                key,
                rec_fields(store.records@[i as int]),
            ));
        }
    }
    proof {
        assert(fields_view(rest@) =~= Seq::<(Seq<char>, crate::value::ValueView)>::empty());
    }
}

/// Apply an owned operation's item mutations; a failing item leaves the
/// store untouched for the whole operation.
fn ingest_owned(store: &mut Store, model: String, items: Vec<OwnedOperationItem>) -> (r: Result<
    (),
    SyncError,
>)
    requires
        old(store).wf(),
    ensures
        final(store).wf(),
        final(store)@.records == state_of(
            old(store)@.records,
            apply_owned_items(old(store)@.records, model@, items_views(items@)),
        ),
        r == verdict_of(apply_owned_items(old(store)@.records, model@, items_views(items@))),
        final(store)@.nodes == old(store)@.nodes,
        final(store)@.owned_log == old(store)@.owned_log,
        final(store)@.shared_log == old(store)@.shared_log,
{
    let ghost t0 = old(store)@.records;
    let ghost all = items_views(items@);
    // Work on a scratch table so that a failing item leaves the store
    // untouched for the whole operation.
    let mut scratch = Store {
        nodes: Vec::new(),
        records: crate::store::clone_records(&store.records),
        owned_log: Vec::new(),
        shared_log: Vec::new(),
    };
    let mut rest = items;
    while rest.len() > 0
        invariant
            *store == *old(store),
            old(store).wf(),
            scratch.wf(),
            t0 == old(store)@.records,
            all == items_views(items@),
            apply_owned_items(t0, model@, all) == apply_owned_items(
                scratch@.records,
                model@,
                items_views(rest@),
            ),
        decreases rest.len(),
    {
        let ghost rest_views = items_views(rest@);
        let ghost t_now = scratch@.records;
        let item = rest.remove(0);
        proof {
            assert(items_views(rest@) =~= rest_views.drop_first());
            assert(rest_views[0] == item@);
        }
        match ingest_owned_item(&mut scratch, &model, item) {
            Ok(()) => {
                proof {
                    assert(apply_owned_items(t_now, model@, rest_views) == apply_owned_items(
                        scratch@.records,
                        model@,
                        rest_views.drop_first(),
                    ));
                }
            },
            Err(e) => {
                proof {
                    assert(apply_owned_items(t_now, model@, rest_views) == Err::<
                        TableMap,
                        SyncError,
                    >(e));
                }
                return Err(e);
            },
        }
    }
    proof {
        assert(items_views(rest@) =~= Seq::<crate::ops::OwnedOperationItemView>::empty());
    }
    store.records = scratch.records;
    Ok(())
}

/// Apply one relation mutation to its join row.
fn ingest_relation(store: &mut Store, op: RelationOperation) -> (r: Result<(), SyncError>)
    requires
        old(store).wf(),
    ensures
        final(store).wf(),
        final(store)@.records == state_of(
            old(store)@.records,
            apply_relation(
                old(store)@.records,
                op.relation@,
                op.relation_item@,
                op.relation_group@,
                op.data@,
            ),
        ),
        r == verdict_of(
            apply_relation(
                old(store)@.records,
                op.relation@,
                op.relation_item@,
                op.relation_group@,
                op.data@,
            ),
        ),
        final(store)@.nodes == old(store)@.nodes,
        final(store)@.owned_log == old(store)@.owned_log,
        final(store)@.shared_log == old(store)@.shared_log,
{
    match op.data {
        RelationOperationData::Create => {
            let item_ok = check_value_dep(store, &op.relation_item);
            let group_ok = check_value_dep(store, &op.relation_group);
            let rid = RecordId::from_relation(op.relation_item, op.relation_group);
            proof {
                assert((op.relation@, rid@) == relation_key(
                    op.relation@,
                    rid@[0].1,
                    rid@[1].1,
                ));
            }
            match store.find_record(&op.relation, &rid) {
                Some(_) => Ok(()),
                None => {
                    if !item_ok || !group_ok {
                        return Err(SyncError::MissingDependency);
                    }
                    let fields: Vec<(String, Value)> = Vec::new();
                    proof {
                        assert(fields_view(fields@) =~= Seq::<
                            (Seq<char>, crate::value::ValueView),
                        >::empty());
                    }
                    store.insert_record(Record { model: op.relation, record_id: rid, fields });
                    Ok(())
                },
            }
        },
        RelationOperationData::Update { field, value } => {
            let rid = RecordId::from_relation(op.relation_item, op.relation_group);
            match store.find_record(&op.relation, &rid) {
                None => Err(SyncError::MissingDependency),
                Some(i) => {
                    if !check_value_dep(store, &value) {
                        return Err(SyncError::MissingDependency);
                    }
                    store.set_record_field(i, field, value);
                    Ok(())
                },
            }
        },
        RelationOperationData::Delete => {
            let rid = RecordId::from_relation(op.relation_item, op.relation_group);
            match store.find_record(&op.relation, &rid) {
                Some(i) => {
                    store.remove_record(i);
                    Ok(())
                },
                None => Ok(()),
            }
        },
    }
}

} // verus!
