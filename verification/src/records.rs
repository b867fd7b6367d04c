//! Records: objects of named fields holding plain values.
//!
//! A native record is in the shape the calling application understands,
//! versioned by the native schema; a local record is the same logical record
//! in the shape of the active local (on-disk) schema version. Both are
//! objects of named fields; the spec-level form of an object is a sequence
//! of (name, value) pairs, looked up by first occurrence.

use vstd::prelude::*;
use crate::text::str_eq;

verus! {

/// A plain field value.
#[derive(Debug, Clone, PartialEq)]
pub enum Value {
    Null,
    Bool(bool),
    Int(i64),
    Text(String),
}

/// Spec-level form of a field value.
pub enum ValueV {
    Null,
    Bool(bool),
    Int(i64),
    Text(Seq<char>),
}

impl View for Value {
    type V = ValueV;

    open spec fn view(&self) -> ValueV {
        match self {
            Value::Null => ValueV::Null,
            Value::Bool(b) => ValueV::Bool(*b),
            Value::Int(i) => ValueV::Int(*i),
            Value::Text(s) => ValueV::Text(s@),
        }
    }
}

/// Spec-level form of an object: its fields in order.
pub type FieldsV = Seq<(Seq<char>, ValueV)>;

/// The value of the first field named `name`, if any.
pub open spec fn fields_get(fs: FieldsV, name: Seq<char>) -> Option<ValueV>
    decreases fs.len(),
{
    if fs.len() == 0 {
        None
    } else if fs[0].0 == name {
        Some(fs[0].1)
    } else {
        fields_get(fs.drop_first(), name)
    }
}

/// The fields with the first field named `name` set to `v`; the field is
/// appended when no field has that name.
pub open spec fn fields_set(fs: FieldsV, name: Seq<char>, v: ValueV) -> FieldsV
    decreases fs.len(),
{
    if fs.len() == 0 {
        seq![(name, v)]
    } else if fs[0].0 == name {
        seq![(name, v)] + fs.drop_first()
    } else {
        seq![fs[0]] + fields_set(fs.drop_first(), name, v)
    }
}

impl Value {
    /// An equal copy of the value.
    pub fn duplicate(&self) -> (r: Value)
        ensures
            r == *self,
    {
        match self {
            Value::Null => Value::Null,
            Value::Bool(b) => Value::Bool(*b),
            Value::Int(i) => Value::Int(*i),
            Value::Text(s) => Value::Text(s.clone()),
        }
    }
}

/// Setting the first field named `name` leaves an update of the fields when
/// a field with that name stands at `i` and none stands earlier.
proof fn lemma_fields_set_is_update(fs: FieldsV, i: int, name: Seq<char>, v: ValueV)
    requires
        0 <= i < fs.len(),
        fs[i].0 == name,
        forall|j: int| 0 <= j < i ==> fs[j].0 != name,
    ensures
        fields_set(fs, name, v) == fs.update(i, (name, v)),
    decreases i,
{
    if i == 0 {
        assert(fields_set(fs, name, v) =~= fs.update(0, (name, v)));
    } else {
        assert(fs.drop_first()[i - 1].0 == name);
        assert(forall|j: int| 0 <= j < i - 1 ==> fs.drop_first()[j].0 != name);
        lemma_fields_set_is_update(fs.drop_first(), i - 1, name, v);
        assert(fields_set(fs, name, v) =~= fs.update(i, (name, v)));
    }
}

/// Setting a field that no field is named like appends it.
proof fn lemma_fields_set_is_push(fs: FieldsV, name: Seq<char>, v: ValueV)
    requires
        forall|j: int| 0 <= j < fs.len() ==> fs[j].0 != name,
    ensures
        fields_set(fs, name, v) == fs.push((name, v)),
    decreases fs.len(),
{
    if fs.len() == 0 {
        assert(fields_set(fs, name, v) =~= fs.push((name, v)));
    } else {
        assert(forall|j: int| 0 <= j < fs.drop_first().len() ==> fs.drop_first()[j].0 != name);
        lemma_fields_set_is_push(fs.drop_first(), name, v);
        assert(fields_set(fs, name, v) =~= fs.push((name, v)));
    }
}

/// Law: after setting a field, reading that field gives the set value and
/// reading any other field gives what it held before.
pub proof fn lemma_fields_get_set(fs: FieldsV, name: Seq<char>, v: ValueV, n: Seq<char>)
    ensures
        fields_get(fields_set(fs, name, v), n) == if n == name {
            Some(v)
        } else {
            fields_get(fs, n)
        },
    decreases fs.len(),
{
    if fs.len() == 0 {
        let s = fields_set(fs, name, v);
        assert(s[0] == (name, v));
        assert(s.drop_first() =~= Seq::<(Seq<char>, ValueV)>::empty());
        assert(fields_get(Seq::<(Seq<char>, ValueV)>::empty(), n) is None);
    } else if fs[0].0 == name {
        let s = fields_set(fs, name, v);
        assert(s[0] == (name, v));
        assert(s.drop_first() =~= fs.drop_first());
    } else {
        lemma_fields_get_set(fs.drop_first(), name, v, n);
        let s = fields_set(fs, name, v);
        assert(s[0] == fs[0]);
        assert(s.drop_first() =~= fields_set(fs.drop_first(), name, v));
    }
}

/// Copy a field vector, element by element.
pub(crate) fn copy_fields(fields: &Vec<(String, Value)>) -> (r: Vec<(String, Value)>)
    ensures
        r@ == fields@,
{
    let mut r: Vec<(String, Value)> = Vec::new();
    let n = fields.len();
    let mut i: usize = 0;
    while i < n
        invariant
            n == fields.len(),
            0 <= i <= n,
            r@ == fields@.take(i as int),
        decreases n - i,
    {
        r.push((fields[i].0.clone(), fields[i].1.duplicate()));
        proof {
            assert(r@ =~= fields@.take(i as int + 1));
        }
        i += 1;
    }
    proof {
        assert(fields@.take(n as int) =~= fields@);
    }
    r
}

/// A copy of the fields with the first field named `name` set to `v`; the
/// field is appended when no field has that name.
pub(crate) fn vec_fields_set(fields: &Vec<(String, Value)>, name: &str, v: Value) -> (r: Vec<
    (String, Value),
>)
    ensures
        fields_view(r) == fields_set(fields_view(*fields), name@, v@),
{
    let ghost fsv = fields_view(*fields);
    let ghost vv = v@;
    let mut r = copy_fields(fields);
    let n = r.len();
    let mut i: usize = 0;
    while i < n
        invariant
            n == r.len(),
            0 <= i <= n,
            r@ == fields@,
            fsv == fields_view(*fields),
            vv == v@,
            forall|j: int| 0 <= j < fsv.len() ==> #[trigger] fsv[j] == (fields@[j].0@, fields@[j].1@),
            forall|j: int| 0 <= j < i ==> fsv[j].0 != name@,
        decreases n - i,
    {
        if str_eq(r[i].0.as_str(), name) {
            proof {
                assert(fsv[i as int].0 == name@);
            }
            r[i] = (fields[i].0.clone(), v);
            proof {
                assert(fields_view(r) =~= fsv.update(i as int, (name@, vv)));
                lemma_fields_set_is_update(fsv, i as int, name@, vv);
            }
            return r;
        }
        i += 1;
    }
    r.push((name.to_owned(), v));
    proof {
        assert(fields_view(r) =~= fsv.push((name@, vv)));
        lemma_fields_set_is_push(fsv, name@, vv);
    }
    r
}

/// A record in the shape the calling application understands.
#[derive(Debug, Clone, PartialEq)]
pub struct NativeRecord {
    pub fields: Vec<(String, Value)>,
}

/// A record in the shape of the active local schema version; this is the
/// form that is persisted.
#[derive(Debug, Clone, PartialEq)]
pub struct LocalRecord {
    pub fields: Vec<(String, Value)>,
}

/// Spec-level form of a field vector.
pub open spec fn fields_view(fields: Vec<(String, Value)>) -> FieldsV {
    fields@.map_values(|f: (String, Value)| (f.0@, f.1@))
}

impl View for NativeRecord {
    type V = FieldsV;

    open spec fn view(&self) -> FieldsV {
        fields_view(self.fields)
    }
}

impl View for LocalRecord {
    type V = FieldsV;

    open spec fn view(&self) -> FieldsV {
        fields_view(self.fields)
    }
}

/// Look up the first field named `name` in a field vector.
fn vec_fields_get<'a>(fields: &'a Vec<(String, Value)>, name: &str) -> (r: Option<&'a Value>)
    ensures
        match r {
            Some(v) => fields_get(fields_view(*fields), name@) == Some(v@),
            None => fields_get(fields_view(*fields), name@) is None,
        },
{
    let ghost fsv = fields_view(*fields);
    proof {
        assert(fsv.skip(0) =~= fsv);
    }
    let mut i: usize = 0;
    while i < fields.len()
        invariant
            fsv == fields_view(*fields),
            fsv.len() == fields.len(),
            0 <= i <= fields.len(),
            fields_get(fsv, name@) == fields_get(fsv.skip(i as int), name@),
            forall|j: int| 0 <= j < fsv.len() ==> #[trigger] fsv[j] == (fields@[j].0@, fields@[j].1@),
        decreases fields.len() - i,
    {
        proof {
            assert(fsv.skip(i as int)[0] == fsv[i as int]);
        }
        if str_eq(fields[i].0.as_str(), name) {
            return Some(&fields[i].1);
        }
        proof {
            assert(fsv.skip(i as int).drop_first() =~= fsv.skip(i as int + 1));
        }
        i += 1;
    }
    proof {
        assert(fsv.skip(i as int).len() == 0);
    }
    None
}

impl NativeRecord {
    /// An empty record, with no fields.
    pub fn new_empty() -> (r: NativeRecord)
        ensures
            r@ == Seq::<(Seq<char>, ValueV)>::empty(),
    {
        let r = NativeRecord { fields: Vec::new() };
        proof {
            assert(r@ =~= Seq::<(Seq<char>, ValueV)>::empty());
        }
        r
    }

    /// The value of the first field named `name`, if any.
    pub fn get<'a>(&'a self, name: &str) -> (r: Option<&'a Value>)
        ensures
            match r {
                Some(v) => fields_get(self@, name@) == Some(v@),
                None => fields_get(self@, name@) is None,
            },
    {
        vec_fields_get(&self.fields, name)
    }

    /// An equal copy of the record.
    pub fn duplicate(&self) -> (r: NativeRecord)
        ensures
            r@ == self@,
    {
        NativeRecord { fields: copy_fields(&self.fields) }
    }
}

impl LocalRecord {
    /// An empty record, with no fields; the payload of a tombstone.
    pub fn new_empty() -> (r: LocalRecord)
        ensures
            r@ == Seq::<(Seq<char>, ValueV)>::empty(),
    {
        let r = LocalRecord { fields: Vec::new() };
        proof {
            assert(r@ =~= Seq::<(Seq<char>, ValueV)>::empty());
        }
        r
    }

    /// The value of the first field named `name`, if any.
    pub fn get<'a>(&'a self, name: &str) -> (r: Option<&'a Value>)
        ensures
            match r {
                Some(v) => fields_get(self@, name@) == Some(v@),
                None => fields_get(self@, name@) is None,
            },
    {
        vec_fields_get(&self.fields, name)
    }

    /// An equal copy of the record.
    pub fn duplicate(&self) -> (r: LocalRecord)
        ensures
            r@ == self@,
    {
        LocalRecord { fields: copy_fields(&self.fields) }
    }
}

} // verus!
