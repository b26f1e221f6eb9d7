//! Field values and portable record identities.
//!
//! A `Value` is one already-serialized field value as it travels inside an
//! operation: a scalar, a byte string, or a reference to another record's
//! portable identity. A `RecordId` is the portable identity of one record: a
//! compound of named parts that is stable across every replica, distinct from
//! any store-local primary key.

use vstd::prelude::*;

verus! {

/// A reference, embedded in an operation payload, to another record by its
/// portable public identifier. Ingestion must translate it to the local row,
/// and fails with a missing dependency when that record is absent.
pub struct ForeignRef {
    /// The model the referenced record belongs to.
    pub model: String,
    /// The referenced record's public identifier bytes.
    pub pub_id: Vec<u8>,
}

/// One already-serialized field value carried by an operation.
pub enum Value {
    Null,
    Bool(bool),
    Int(i64),
    Text(String),
    Bytes(Vec<u8>),
    /// An embedded foreign identity (see [`ForeignRef`]).
    Ref(ForeignRef),
}

/// The mathematical value of a [`Value`].
pub ghost enum ValueView {
    Null,
    Bool(bool),
    Int(int),
    Text(Seq<char>),
    Bytes(Seq<u8>),
    Ref(Seq<char>, Seq<u8>),
}

impl View for Value {
    type V = ValueView;

    open spec fn view(&self) -> ValueView {
        match self {
            Value::Null => ValueView::Null,
            Value::Bool(b) => ValueView::Bool(*b),
            Value::Int(i) => ValueView::Int(*i as int),
            Value::Text(s) => ValueView::Text(s@),
            Value::Bytes(b) => ValueView::Bytes(b@),
            Value::Ref(r) => ValueView::Ref(r.model@, r.pub_id@),
        }
    }
}

/// The mathematical value of a field map: named values in payload order.
pub type FieldsView = Seq<(Seq<char>, ValueView)>;

/// The mathematical value of a list of named fields.
pub open spec fn fields_view(fields: Seq<(String, Value)>) -> FieldsView {
    Seq::new(fields.len(), |i: int| (fields[i].0@, fields[i].1@))
}

/// The portable identity of one record: named parts, e.g. a single
/// `pub_id` byte string, or a parent reference together with a local ordinal
/// for hierarchical records.
pub struct RecordId {
    pub parts: Vec<(String, Value)>,
}

impl View for RecordId {
    type V = Seq<(Seq<char>, ValueView)>;

    open spec fn view(&self) -> Seq<(Seq<char>, ValueView)> {
        fields_view(self.parts@)
    }
}

impl RecordId {
    /// An identity made of the given named parts.
    pub fn new(parts: Vec<(String, Value)>) -> (r: RecordId)
        ensures
            r@ == fields_view(parts@),
    {
        RecordId { parts }
    }

    /// The common single-part identity: a record's public identifier bytes.
    pub fn from_pub_id(pub_id: Vec<u8>) -> (r: RecordId)
        ensures
            r@ =~= seq![("pub_id"@, ValueView::Bytes(pub_id@))],
    {
        let mut parts: Vec<(String, Value)> = Vec::new();
        parts.push(("pub_id".to_owned(), Value::Bytes(pub_id)));
        RecordId { parts }
    }

    /// The identity of an owned item within its model: its item identifier.
    pub fn from_item_id(id: Value) -> (r: RecordId)
        ensures
            r@ =~= seq![("id"@, id@)],
    {
        let mut parts: Vec<(String, Value)> = Vec::new();
        parts.push(("id".to_owned(), id));
        RecordId { parts }
    }

    /// The identity of a join row between `item` and `group`.
    pub fn from_relation(item: Value, group: Value) -> (r: RecordId)
        ensures
            r@ =~= seq![("item"@, item@), ("group"@, group@)],
    {
        let mut parts: Vec<(String, Value)> = Vec::new();
        parts.push(("item".to_owned(), item));
        parts.push(("group".to_owned(), group));
        RecordId { parts }
    }
}

/// Whether two byte strings hold the same bytes.
pub fn bytes_eq(a: &Vec<u8>, b: &Vec<u8>) -> (r: bool)
    ensures
        r == (a@ == b@),
{
    if a.len() != b.len() {
        proof {
            assert(a@.len() != b@.len());
        }
        return false;
    }
    let mut i: usize = 0;
    while i < a.len()
        invariant
            i <= a.len(),
            a@.len() == b@.len(),
            forall|j: int| 0 <= j < i ==> a@[j] == b@[j],
        decreases a.len() - i,
    {
        if a[i] != b[i] {
            return false;
        }
        i = i + 1;
    }
    proof {
        assert(a@ =~= b@);
    }
    true
}

/// A fresh copy of a byte string with the same bytes.
pub fn clone_bytes(v: &Vec<u8>) -> (r: Vec<u8>)
    ensures
        r@ == v@,
{
    let mut r: Vec<u8> = Vec::new();
    let mut i: usize = 0;
    while i < v.len()
        invariant
            i <= v.len(),
            r@ =~= v@.subrange(0, i as int),
        decreases v.len() - i,
    {
        r.push(v[i]);
        i = i + 1;
    }
    proof {
        assert(r@ =~= v@);
    }
    r
}

/// Whether two values are the same value.
pub fn value_eq(a: &Value, b: &Value) -> (r: bool)
    ensures
        r == (a@ == b@),
{
    match (a, b) {
        (Value::Null, Value::Null) => true,
        (Value::Bool(x), Value::Bool(y)) => *x == *y,
        (Value::Int(x), Value::Int(y)) => *x == *y,
        (Value::Text(x), Value::Text(y)) => x.eq(y),
        (Value::Bytes(x), Value::Bytes(y)) => bytes_eq(x, y),
        (Value::Ref(x), Value::Ref(y)) => x.model.eq(&y.model) && bytes_eq(&x.pub_id, &y.pub_id),
        _ => false,
    }
}

/// A fresh copy of a value, equal to the original.
pub fn clone_value(v: &Value) -> (r: Value)
    ensures
        r@ == v@,
{
    match v {
        Value::Null => Value::Null,
        Value::Bool(b) => Value::Bool(*b),
        Value::Int(i) => Value::Int(*i),
        Value::Text(s) => Value::Text(s.clone()),
        Value::Bytes(b) => Value::Bytes(clone_bytes(b)),
        Value::Ref(r) => Value::Ref(ForeignRef { model: r.model.clone(), pub_id: clone_bytes(&r.pub_id) }),
    }
}

/// A fresh copy of a list of named fields, with the same mathematical value.
pub fn clone_fields(fields: &Vec<(String, Value)>) -> (r: Vec<(String, Value)>)
    ensures
        fields_view(r@) == fields_view(fields@),
{
    let mut r: Vec<(String, Value)> = Vec::new();
    let mut i: usize = 0;
    while i < fields.len()
        invariant
            i <= fields.len(),
            r@.len() == i,
            forall|j: int|
                0 <= j < i ==> r@[j].0@ == fields@[j].0@ && r@[j].1@ == fields@[j].1@,
        decreases fields.len() - i,
    {
        let name = fields[i].0.clone();
        let val = clone_value(&fields[i].1);
        r.push((name, val));
        i = i + 1;
    }
    proof {
        assert(fields_view(r@) =~= fields_view(fields@));
    }
    r
}

/// A fresh copy of a record identity, equal to the original.
pub fn clone_record_id(id: &RecordId) -> (r: RecordId)
    ensures
        r@ == id@,
{
    RecordId { parts: clone_fields(&id.parts) }
}

/// Whether two record identities are the same identity.
pub fn record_id_eq(a: &RecordId, b: &RecordId) -> (r: bool)
    ensures
        r == (a@ == b@),
{
    if a.parts.len() != b.parts.len() {
        proof {
            assert(a@.len() != b@.len());
        }
        return false;
    }
    let mut i: usize = 0;
    while i < a.parts.len()
        invariant
            i <= a.parts.len(),
            a@.len() == a.parts@.len(),
            b@.len() == b.parts@.len(),
            a.parts@.len() == b.parts@.len(),
            forall|j: int| 0 <= j < i ==> a@[j] == b@[j],
        decreases a.parts.len() - i,
    {
        let names_eq = a.parts[i].0 == b.parts[i].0;
        if !(names_eq && value_eq(&a.parts[i].1, &b.parts[i].1)) {
            proof {
                assert(a@[i as int] != b@[i as int]);
            }
            return false;
        }
        i = i + 1;
    }
    proof {
        assert(a@ =~= b@);
    }
    true
}

/// Whether no field name repeats in a payload; a payload with a repeated
/// name is malformed.
pub open spec fn spec_field_names_distinct(fields: FieldsView) -> bool {
    forall|i: int, j: int| 0 <= i < j < fields.len() ==> fields[i].0 != fields[j].0
}

/// Whether no field name repeats in `fields`.
pub fn field_names_distinct(fields: &Vec<(String, Value)>) -> (r: bool)
    ensures
        r == spec_field_names_distinct(fields_view(fields@)),
{
    let ghost fv = fields_view(fields@);
    let mut i: usize = 0;
    while i < fields.len()
        invariant
            i <= fields.len(),
            fv == fields_view(fields@),
            fv.len() == fields@.len(),
            forall|p: int, q: int| 0 <= p < q < i ==> fv[p].0 != fv[q].0,
        decreases fields.len() - i,
    {
        let mut j: usize = 0;
        while j < i
            invariant
                j <= i,
                i < fields.len(),
                fv == fields_view(fields@),
                fv.len() == fields@.len(),
                forall|q: int| 0 <= q < j ==> fv[q].0 != fv[i as int].0,
            decreases i - j,
        {
            if fields[j].0.eq(&fields[i].0) {
                proof {
                    assert(fv[j as int].0 == fv[i as int].0);
                    assert(!spec_field_names_distinct(fv));
                }
                return false;
            }
            j = j + 1;
        }
        i = i + 1;
    }
    true
}

/// The field list after the named field is unconditionally overwritten:
/// the first occurrence of `name` is replaced, or the pair is appended when
/// the name is absent.
pub open spec fn spec_set_field(fields: FieldsView, name: Seq<char>, value: ValueView) -> FieldsView
    decreases fields.len(),
{
    if fields.len() == 0 {
        seq![(name, value)]
    } else if fields[0].0 == name {
        seq![(name, value)] + fields.drop_first()
    } else {
        seq![fields[0]] + spec_set_field(fields.drop_first(), name, value)
    }
}

/// Overwrite the named field in place, appending it when absent.
pub fn set_field(fields: &mut Vec<(String, Value)>, name: String, value: Value)
    ensures
        fields_view(final(fields)@) == spec_set_field(fields_view(old(fields)@), name@, value@),
{
    let ghost orig = fields_view(old(fields)@);
    let mut i: usize = 0;
    while i < fields.len()
        invariant
            i <= fields.len(),
            fields@ == old(fields)@,
            orig == fields_view(fields@),
            orig.len() == fields@.len(),
            forall|j: int| 0 <= j < i ==> orig[j].0 != name@,
        decreases fields.len() - i,
    {
        if fields[i].0 == name {
            fields.set(i, (name, value));
            proof {
                lemma_set_field_at(orig, name@, value@, i as int);
                assert(fields_view(fields@) =~= orig.update(i as int, (name@, value@)));
            }
            return ;
        }
        i = i + 1;
    }
    fields.push((name, value));
    proof {
        lemma_set_field_absent(orig, name@, value@);
        assert(fields_view(fields@) =~= orig.push((name@, value@)));
    }
}

/// When `name` first occurs at position `i`, overwriting it replaces exactly
/// that position.
proof fn lemma_set_field_at(fields: FieldsView, name: Seq<char>, value: ValueView, i: int)
    requires
        0 <= i < fields.len(),
        fields[i].0 == name,
        forall|j: int| 0 <= j < i ==> fields[j].0 != name,
    ensures
        spec_set_field(fields, name, value) =~= fields.update(i, (name, value)),
    decreases fields.len(),
{
    if i == 0 {
    } else {
        lemma_set_field_at(fields.drop_first(), name, value, i - 1);
    }
}

/// When `name` is absent, overwriting it appends the pair.
proof fn lemma_set_field_absent(fields: FieldsView, name: Seq<char>, value: ValueView)
    requires
        forall|j: int| 0 <= j < fields.len() ==> fields[j].0 != name,
    ensures
        spec_set_field(fields, name, value) =~= fields.push((name, value)),
    decreases fields.len(),
{
    if fields.len() > 0 {
        lemma_set_field_absent(fields.drop_first(), name, value);
    }
}

} // verus!
