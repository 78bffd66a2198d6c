//! Columnar schemas: logical types, the promotion rules between them, and the
//! order-preserving merge that widens a schema over a stream of records.

use crate::json::{entry_keys, JsonValue};
use vstd::prelude::*;

verus! {

/// The logical type of a column.
#[derive(Debug, PartialEq, Eq)]
pub enum DataType {
    Int32,
    Int64,
    Float32,
    Float64,
    Boolean,
    Utf8,
    Binary,
    Date32,
    TimestampMicros,
    List(Box<DataType>),
}

/// A named, typed column.
#[derive(Debug, PartialEq, Eq)]
pub struct Field {
    pub name: String,
    pub data_type: DataType,
    pub nullable: bool,
}

/// An ordered list of fields with distinct names.
#[derive(Debug, PartialEq, Eq)]
pub struct Schema {
    pub fields: Vec<Field>,
}

/// What a field holds: its name, type and nullability.
pub type FieldView = (Seq<char>, DataType, bool);

impl View for Field {
    type V = FieldView;

    open spec fn view(&self) -> FieldView {
        (self.name@, self.data_type, self.nullable)
    }
}

impl View for Schema {
    type V = Seq<FieldView>;

    open spec fn view(&self) -> Seq<FieldView> {
        self.fields@.map_values(|f: Field| f@)
    }
}

/// No two fields share a name.
pub open spec fn names_unique(s: Seq<FieldView>) -> bool {
    forall|i: int, j: int| 0 <= i < j < s.len() ==> s[i].0 != s[j].0
}

/// Some field has the given name.
pub open spec fn has_name(s: Seq<FieldView>, name: Seq<char>) -> bool {
    exists|i: int| 0 <= i < s.len() && s[i].0 == name
}

/// The position of the field with the given name (meaningful when
/// `has_name` holds and names are unique).
pub open spec fn name_index(s: Seq<FieldView>, name: Seq<char>) -> int {
    choose|i: int| 0 <= i < s.len() && s[i].0 == name
}

/// The promotion table: the type a column takes when a value of type `new`
/// meets a column of type `existing`. Anything outside the table keeps the
/// existing type.
pub open spec fn promote(existing: DataType, new: DataType) -> DataType {
    match (existing, new) {
        (DataType::Int32, DataType::Int64) => DataType::Int64,
        (DataType::Float32, DataType::Float64) => DataType::Float64,
        (DataType::Int32, DataType::Float64) => DataType::Float64,
        (DataType::Int64, DataType::Float64) => DataType::Float64,
        _ => existing,
    }
}

/// `wider` is `narrower` itself or a promotion of it.
pub open spec fn type_widens(narrower: DataType, wider: DataType) -> bool {
    wider == narrower || promote(narrower, wider) == wider
}

/// Two types can meet in one column: equal, or one promotes to the other.
pub open spec fn types_compatible(a: DataType, b: DataType) -> bool {
    type_widens(a, b) || type_widens(b, a)
}

/// Merges one field into a schema: a field of the same name is promoted and
/// its nullability becomes the disjunction; a new name is appended.
pub open spec fn merge_field(s: Seq<FieldView>, f: FieldView) -> Seq<FieldView> {
    if has_name(s, f.0) {
        let i = name_index(s, f.0);
        s.update(i, (s[i].0, promote(s[i].1, f.1), s[i].2 || f.2))
    } else {
        s.push(f)
    }
}

/// The merge of two schemas: the fields of `new`, in order, merged into
/// `existing`.
pub open spec fn merge(existing: Seq<FieldView>, new: Seq<FieldView>) -> Seq<FieldView>
    decreases new.len(),
{
    if new.len() == 0 {
        existing
    } else {
        merge_field(merge(existing, new.drop_last()), new.last())
    }
}

/// `wider` keeps every field of `narrower` at its position, with a type that
/// is equal or promoted and nullability that is kept or gained; further
/// fields may follow.
pub open spec fn schema_widens(narrower: Seq<FieldView>, wider: Seq<FieldView>) -> bool {
    &&& narrower.len() <= wider.len()
    &&& forall|i: int|
        0 <= i < narrower.len() ==> {
            &&& (#[trigger] wider[i]).0 == narrower[i].0
            &&& type_widens(narrower[i].1, wider[i].1)
            &&& (narrower[i].2 ==> wider[i].2)
        }
}

/// Every field of `s` that `t` also names has a type compatible with `t`'s.
pub open spec fn schemas_compatible(t: Seq<FieldView>, s: Seq<FieldView>) -> bool {
    forall|i: int, j: int|
        0 <= i < t.len() && 0 <= j < s.len() && #[trigger] t[i].0 == #[trigger] s[j].0
            ==> types_compatible(t[i].1, s[j].1)
}

impl DataType {

    /// A copy of the type.
    pub fn copy(&self) -> (r: DataType)
        ensures
            r == *self,
        decreases self,
    {
        match self {
            DataType::Int32 => DataType::Int32,
            DataType::Int64 => DataType::Int64,
            DataType::Float32 => DataType::Float32,
            DataType::Float64 => DataType::Float64,
            DataType::Boolean => DataType::Boolean,
            DataType::Utf8 => DataType::Utf8,
            DataType::Binary => DataType::Binary,
            DataType::Date32 => DataType::Date32,
            DataType::TimestampMicros => DataType::TimestampMicros,
            DataType::List(t) => DataType::List(Box::new((**t).copy())),
        }
    }

    /// Structural equality of two types.
    pub fn same(&self, other: &DataType) -> (r: bool)
        ensures
            r == (*self == *other),
        decreases self,
    {
        match (self, other) {
            (DataType::Int32, DataType::Int32) => true,
            (DataType::Int64, DataType::Int64) => true,
            (DataType::Float32, DataType::Float32) => true,
            (DataType::Float64, DataType::Float64) => true,
            (DataType::Boolean, DataType::Boolean) => true,
            (DataType::Utf8, DataType::Utf8) => true,
            (DataType::Binary, DataType::Binary) => true,
            (DataType::Date32, DataType::Date32) => true,
            (DataType::TimestampMicros, DataType::TimestampMicros) => true,
            (DataType::List(a), DataType::List(b)) => (**a).same(&**b),
            _ => false,
        }
    }
}

/// Applies the promotion table.
pub fn promote_type(existing: &DataType, new: &DataType) -> (r: DataType)
    ensures
        r == promote(*existing, *new),
{
    match (existing, new) {
        (DataType::Int32, DataType::Int64) => DataType::Int64,
        (DataType::Float32, DataType::Float64) => DataType::Float64,
        (DataType::Int32, DataType::Float64) => DataType::Float64,
        (DataType::Int64, DataType::Float64) => DataType::Float64,
        _ => existing.copy(),
    }
}

/// Whether two types can meet in one column.
pub fn compatible_types(a: &DataType, b: &DataType) -> (r: bool)
    ensures
        r == types_compatible(*a, *b),
{
    let ab = promote_type(a, b);
    let ba = promote_type(b, a);
    a.same(b) || ab.same(b) || ba.same(a)
}

impl Field {
    /// Builds a field.
    pub fn new(name: String, data_type: DataType, nullable: bool) -> (r: Field)
        ensures
            r@ == (name@, data_type, nullable),
    {
        Field { name, data_type, nullable }
    }

    /// A copy of the field.
    pub fn copy(&self) -> (r: Field)
        ensures
            r@ == self@,
    {
        Field { name: self.name.clone(), data_type: self.data_type.copy(), nullable: self.nullable }
    }
}

impl Schema {
    /// A schema is well formed when its field names are distinct.
    pub open spec fn wf(&self) -> bool {
        names_unique(self@)
    }

    /// The schema with no fields.
    pub fn empty() -> (r: Schema)
        ensures
            r@ == Seq::<FieldView>::empty(),
            r.wf(),
    {
        let r = Schema { fields: Vec::new() };
        assert(r@ =~= Seq::<FieldView>::empty());
        r
    }

    /// The number of fields.
    pub fn len(&self) -> (r: usize)
        ensures
            r == self@.len(),
    {
        self.fields.len()
    }

    /// A copy of the schema.
    pub fn copy(&self) -> (r: Schema)
        ensures
            r@ == self@,
    {
        let mut fields: Vec<Field> = Vec::new();
        let mut i: usize = 0;
        while i < self.fields.len()
            invariant
                i <= self.fields@.len(),
                fields@.len() == i,
                forall|j: int| 0 <= j < i ==> (#[trigger] fields@[j])@ == self@[j],
            decreases self.fields@.len() - i,
        {
            let f = self.fields[i].copy();
            assert(f@ == self@[i as int]);
            fields.push(f);
            i = i + 1;
        }
        let r = Schema { fields };
        assert(r@ =~= self@);
        r
    }

    /// The position of the field with the given name, if any.
    pub fn index_of(&self, name: &String) -> (r: Option<usize>)
        requires
            self.wf(),
        ensures
            r is None <==> !has_name(self@, name@),
            r is Some ==> r->0 < self@.len() && self@[r->0 as int].0 == name@ && r->0
                == name_index(self@, name@),
    {
        let mut i: usize = 0;
        while i < self.fields.len()
            invariant
                i <= self.fields@.len(),
                names_unique(self@),
                forall|j: int| 0 <= j < i ==> self@[j].0 != name@,
            decreases self.fields@.len() - i,
        {
            if self.fields[i].name == *name {
                proof {
                    assert(self@[i as int].0 == name@);
                    let k = name_index(self@, name@);
                    assert(self@[k].0 == name@);
                    assert(k == i);
                }
                return Some(i);
            }
            i = i + 1;
        }
        None
    }
}

/// The index of the first element that is not `Null`, or the length when
/// every element is `Null`.
pub open spec fn first_non_null(s: Seq<JsonValue>) -> int
    decreases s.len(),
{
    if s.len() == 0 {
        0
    } else if !(s[0] is Null) {
        0
    } else {
        1 + first_non_null(s.drop_first())
    }
}

/// The column type inferred for one value: null and objects as text,
/// integers that fit `i64` as `Int64`, other numbers as `Float64`, and an
/// array as a list of the type of its first non-null element, or a list of
/// text when it has none (an empty array included).
pub open spec fn infer_type(v: JsonValue) -> DataType
    decreases v,
{
    match v {
        JsonValue::Null => DataType::Utf8,
        JsonValue::Bool(_) => DataType::Boolean,
        JsonValue::Int(_) => DataType::Int64,
        JsonValue::UInt(u) => if u <= i64::MAX as u64 {
            DataType::Int64
        } else {
            DataType::Utf8
        },
        JsonValue::Float(_) => DataType::Float64,
        JsonValue::Str(_) => DataType::Utf8,
        JsonValue::Array(items) => {
            let k = first_non_null(items@);
            if 0 <= k < items@.len() {
                DataType::List(Box::new(infer_type(items@[k])))
            } else {
                DataType::List(Box::new(DataType::Utf8))
            }
        },
        JsonValue::Object(_) => DataType::Utf8,
    }
}

/// The schema inferred from a record: one nullable field per member of an
/// object, in order; no fields for any other value.
pub open spec fn infer_record(v: JsonValue) -> Seq<FieldView> {
    match v {
        JsonValue::Object(entries) => entries@.map_values(
            |e: (String, JsonValue)| (e.0@, infer_type(e.1), true),
        ),
        _ => Seq::empty(),
    }
}

/// `wider` has, for each field of `narrower`, a field of the same name whose
/// type widens it and which is nullable if that one is.
pub open spec fn schema_covers(narrower: Seq<FieldView>, wider: Seq<FieldView>) -> bool {
    forall|i: int|
        0 <= i < narrower.len() ==> {
            &&& has_name(wider, #[trigger] narrower[i].0)
            &&& type_widens(narrower[i].1, wider[name_index(wider, narrower[i].0)].1)
            &&& (narrower[i].2 ==> wider[name_index(wider, narrower[i].0)].2)
        }
}

proof fn lemma_first_non_null(s: Seq<JsonValue>, i: int)
    requires
        0 <= i <= s.len(),
        forall|j: int| 0 <= j < i ==> s[j] is Null,
        i == s.len() || !(s[i] is Null),
    ensures
        first_non_null(s) == i,
    decreases i,
{
    if i > 0 {
        lemma_first_non_null(s.drop_first(), i - 1);
    }
}

proof fn lemma_merge_field_wf(s: Seq<FieldView>, f: FieldView)
    requires
        names_unique(s),
    ensures
        names_unique(merge_field(s, f)),
        schema_widens(s, merge_field(s, f)),
        has_name(merge_field(s, f), f.0),
{
    if has_name(s, f.0) {
        let i = name_index(s, f.0);
        let r = merge_field(s, f);
        assert(r[i].0 == f.0);
        assert forall|a: int, b: int| 0 <= a < b < r.len() implies r[a].0 != r[b].0 by {
            assert(r[a].0 == s[a].0 && r[b].0 == s[b].0);
        }
    } else {
        let r = merge_field(s, f);
        assert(r[s.len() as int].0 == f.0);
    }
}

/// Merging keeps field names distinct.
pub proof fn lemma_merge_wf(existing: Seq<FieldView>, new: Seq<FieldView>)
    requires
        names_unique(existing),
    ensures
        names_unique(merge(existing, new)),
    decreases new.len(),
{
    if new.len() > 0 {
        lemma_merge_wf(existing, new.drop_last());
        lemma_merge_field_wf(merge(existing, new.drop_last()), new.last());
    }
}

/// A merge widens the existing schema: every existing field stays at its
/// position under its name, its type is kept or promoted, and a nullable
/// field stays nullable. This makes a published schema grow monotonically.
pub proof fn lemma_merge_widens(existing: Seq<FieldView>, new: Seq<FieldView>)
    requires
        names_unique(existing),
    ensures
        schema_widens(existing, merge(existing, new)),
    decreases new.len(),
{
    if new.len() > 0 {
        let mid = merge(existing, new.drop_last());
        lemma_merge_widens(existing, new.drop_last());
        lemma_merge_wf(existing, new.drop_last());
        lemma_merge_field_wf(mid, new.last());
        lemma_widens_trans(existing, mid, merge(existing, new));
    }
}

/// Widening is transitive.
pub proof fn lemma_widens_trans(a: Seq<FieldView>, b: Seq<FieldView>, c: Seq<FieldView>)
    requires
        schema_widens(a, b),
        schema_widens(b, c),
    ensures
        schema_widens(a, c),
{
    assert forall|i: int| 0 <= i < a.len() implies {
        &&& (#[trigger] c[i]).0 == a[i].0
        &&& type_widens(a[i].1, c[i].1)
        &&& (a[i].2 ==> c[i].2)
    } by {
        assert(b[i].0 == a[i].0);
        assert(c[i].0 == b[i].0);
    }
}

proof fn lemma_name_index_unique(s: Seq<FieldView>, i: int)
    requires
        names_unique(s),
        0 <= i < s.len(),
    ensures
        has_name(s, s[i].0),
        name_index(s, s[i].0) == i,
{
    let k = name_index(s, s[i].0);
    assert(s[k].0 == s[i].0);
}

/// A merge also covers the new schema: each of its fields is present in the
/// result under its name, with a type that widens its own, wherever the two
/// schemas agree on the types they share.
pub proof fn lemma_merge_covers_new(existing: Seq<FieldView>, new: Seq<FieldView>)
    requires
        names_unique(existing),
        names_unique(new),
        schemas_compatible(existing, new),
    ensures
        schema_covers(new, merge(existing, new)),
    decreases new.len(),
{
    if new.len() > 0 {
        let init = new.drop_last();
        let f = new.last();
        let mid = merge(existing, init);
        assert(names_unique(init));
        assert(schemas_compatible(existing, init)) by {
            assert forall|i: int, j: int|
                0 <= i < existing.len() && 0 <= j < init.len() && #[trigger] existing[i].0
                    == #[trigger] init[j].0 implies types_compatible(existing[i].1, init[j].1) by {
                assert(init[j] == new[j]);
            }
        }
        lemma_merge_covers_new(existing, init);
        lemma_merge_wf(existing, init);
        lemma_merge_field_wf(mid, f);
        let r = merge(existing, new);
        // fields of `init` keep their names' positions and widen further
        assert forall|j: int| 0 <= j < new.len() implies {
            &&& has_name(r, #[trigger] new[j].0)
            &&& type_widens(new[j].1, r[name_index(r, new[j].0)].1)
            &&& (new[j].2 ==> r[name_index(r, new[j].0)].2)
        } by {
            if j < init.len() {
                assert(init[j] == new[j]);
                let m = name_index(mid, new[j].0);
                assert(has_name(mid, init[j].0));
                assert(mid[m].0 == new[j].0);
                assert(r[m].0 == mid[m].0);
                lemma_name_index_unique(r, m);
                assert(type_widens(mid[m].1, r[m].1));
                lemma_type_widens_trans(new[j].1, mid[m].1, r[m].1);
            } else {
                assert(new[j] == f);
                assert(new[new.len() - 1] == f);
                if has_name(mid, f.0) {
                    let m = name_index(mid, f.0);
                    assert(mid[m].0 == f.0);
                    lemma_name_index_unique(r, m);
                    assert(!has_name(init, f.0)) by {
                        if has_name(init, f.0) {
                            let k = choose|k: int| 0 <= k < init.len() && init[k].0 == f.0;
                            assert(new[k] == init[k]);
                        }
                    }
                    if m < existing.len() {
                        lemma_merge_widens(existing, init);
                        assert(mid[m].0 == existing[m].0);
                        lemma_merge_kept(existing, init, m);
                        assert(types_compatible(existing[m].1, f.1));
                    } else {
                        lemma_merge_appended(existing, init, m);
                    }
                } else {
                    let m = mid.len() as int;
                    assert(r[m] == f);
                    lemma_name_index_unique(r, m);
                }
            }
        }
    }
}

proof fn lemma_type_widens_trans(a: DataType, b: DataType, c: DataType)
    requires
        type_widens(a, b),
        type_widens(b, c),
    ensures
        type_widens(a, c),
{
}

proof fn lemma_merge_kept(existing: Seq<FieldView>, new: Seq<FieldView>, m: int)
    requires
        names_unique(existing),
        0 <= m < existing.len(),
        !has_name(new, existing[m].0),
    ensures
        m < merge(existing, new).len(),
        merge(existing, new)[m] == existing[m],
    decreases new.len(),
{
    if new.len() > 0 {
        let init = new.drop_last();
        let f = new.last();
        assert(!has_name(init, existing[m].0)) by {
            if has_name(init, existing[m].0) {
                let k = choose|k: int| 0 <= k < init.len() && init[k].0 == existing[m].0;
                assert(new[k] == init[k]);
            }
        }
        lemma_merge_kept(existing, init, m);
        assert(f.0 != existing[m].0) by {
            assert(new[new.len() - 1] == f);
        }
        let mid = merge(existing, init);
        if has_name(mid, f.0) {
            let i = name_index(mid, f.0);
            assert(mid[i].0 == f.0);
        }
    }
}

proof fn lemma_merge_appended(existing: Seq<FieldView>, new: Seq<FieldView>, m: int)
    requires
        names_unique(existing),
        existing.len() <= m < merge(existing, new).len(),
    ensures
        has_name(new, merge(existing, new)[m].0),
    decreases new.len(),
{
    if new.len() > 0 {
        let init = new.drop_last();
        let f = new.last();
        let mid = merge(existing, init);
        let r = merge(existing, new);
        lemma_merge_wf(existing, init);
        lemma_merge_field_wf(mid, f);
        if m < mid.len() {
            lemma_merge_appended(existing, init, m);
            assert(r[m].0 == mid[m].0);
            let k = choose|k: int| 0 <= k < init.len() && init[k].0 == mid[m].0;
            assert(new[k] == init[k]);
        } else {
            assert(!has_name(mid, f.0));
            assert(r[m] == f);
            assert(new[new.len() - 1] == f);
        }
    }
}

/// Field `j` of `batch` is refused by `table`: `table` has its name with a
/// type the field's type cannot meet, or, without evolution, with a type
/// narrower than the field's.
pub open spec fn refuses(table: Seq<FieldView>, batch: Seq<FieldView>, evolve: bool, j: int) -> bool {
    &&& has_name(table, batch[j].0)
    &&& {
        let t = table[name_index(table, batch[j].0)].1;
        !types_compatible(t, batch[j].1) || (!evolve && !type_widens(batch[j].1, t))
    }
}

/// Field `j` is the first field of `batch` that `table` refuses.
pub open spec fn first_refusal(table: Seq<FieldView>, batch: Seq<FieldView>, evolve: bool, j: int) -> bool {
    &&& 0 <= j < batch.len()
    &&& refuses(table, batch, evolve, j)
    &&& forall|k: int| 0 <= k < j ==> !refuses(table, batch, evolve, k)
}

/// `table` refuses no field of `batch`.
pub open spec fn admits(table: Seq<FieldView>, batch: Seq<FieldView>, evolve: bool) -> bool {
    forall|j: int| 0 <= j < batch.len() ==> !refuses(table, batch, evolve, j)
}

/// The index of the first field of `batch` from `j` on that `table`
/// refuses, or `batch.len()`.
pub open spec fn first_refused_from(table: Seq<FieldView>, batch: Seq<FieldView>, evolve: bool, j: int) -> int
    decreases batch.len() - j,
{
    if j >= batch.len() {
        batch.len() as int
    } else if refuses(table, batch, evolve, j) {
        j
    } else {
        first_refused_from(table, batch, evolve, j + 1)
    }
}

proof fn lemma_first_refused(table: Seq<FieldView>, batch: Seq<FieldView>, evolve: bool, j: int, i: int)
    requires
        0 <= i <= j <= batch.len(),
        forall|k: int| i <= k < j ==> !refuses(table, batch, evolve, k),
        j == batch.len() || refuses(table, batch, evolve, j),
    ensures
        first_refused_from(table, batch, evolve, i) == j,
    decreases j - i,
{
    if i < j {
        lemma_first_refused(table, batch, evolve, j, i + 1);
    }
}

/// Finds the first field of `batch` that `table` refuses.
pub fn find_refused(table: &Schema, batch: &Schema, evolve: bool) -> (r: usize)
    requires
        table.wf(),
    ensures
        r == first_refused_from(table@, batch@, evolve, 0),
        r <= batch@.len(),
        r < batch@.len() ==> first_refusal(table@, batch@, evolve, r as int),
        r == batch@.len() ==> admits(table@, batch@, evolve),
{
    let mut j: usize = 0;
    while j < batch.fields.len()
        invariant
            j <= batch@.len(),
            table.wf(),
            forall|k: int| 0 <= k < j ==> !refuses(table@, batch@, evolve, k),
        decreases batch@.len() - j,
    {
        let f = &batch.fields[j];
        match table.index_of(&f.name) {
            Some(i) => {
                let existing = &table.fields[i].data_type;
                let wider_or_same = promote_type(&f.data_type, existing).same(existing);
                if !compatible_types(existing, &f.data_type) || (!evolve && !wider_or_same) {
                    assert(batch@[j as int].0 == f.name@);
                    assert(refuses(table@, batch@, evolve, j as int));
                    proof {
                        lemma_first_refused(table@, batch@, evolve, j as int, 0);
                    }
                    return j;
                }
            },
            None => {},
        }
        assert(batch@[j as int].0 == f.name@);
        j = j + 1;
    }
    proof {
        lemma_first_refused(table@, batch@, evolve, j as int, 0);
    }
    j
}

/// Merges `new` into `existing`: fields of `existing` keep their order and
/// are promoted where `new` has the same name; fields only `new` has are
/// appended in its order. Never fails.
pub fn merge_schemas(existing: &Schema, new: &Schema) -> (r: Schema)
    requires
        existing.wf(),
    ensures
        r@ == merge(existing@, new@),
        r.wf(),
{
    let mut r = existing.copy();
    let mut k: usize = 0;
    while k < new.fields.len()
        invariant
            k <= new@.len(),
            r@ == merge(existing@, new@.take(k as int)),
            r.wf(),
            names_unique(existing@),
        decreases new@.len() - k,
    {
        let f = &new.fields[k];
        proof {
            let t = new@.take(k as int + 1);
            assert(t.drop_last() =~= new@.take(k as int));
            assert(t.last() == f@);
            lemma_merge_field_wf(r@, f@);
        }
        match r.index_of(&f.name) {
            Some(i) => {
                let cur = &r.fields[i];
                let merged = Field::new(
                    cur.name.clone(),
                    promote_type(&cur.data_type, &f.data_type),
                    cur.nullable || f.nullable,
                );
                let ghost before = r@;
                r.fields.set(i, merged);
                assert(r@ =~= before.update(i as int, merged@));
            },
            None => {
                let ghost before = r@;
                r.fields.push(f.copy());
                assert(r@ =~= before.push(f@));
            },
        }
        k = k + 1;
    }
    assert(new@.take(new@.len() as int) =~= new@);
    r
}

/// Infers the column type of one value.
pub fn infer_value_type(v: &JsonValue) -> (r: DataType)
    ensures
        r == infer_type(*v),
    decreases v,
{
    match v {
        JsonValue::Null => DataType::Utf8,
        JsonValue::Bool(_) => DataType::Boolean,
        JsonValue::Int(_) => DataType::Int64,
        JsonValue::UInt(u) => if *u <= i64::MAX as u64 {
            DataType::Int64
        } else {
            DataType::Utf8
        },
        JsonValue::Float(_) => DataType::Float64,
        JsonValue::Str(_) => DataType::Utf8,
        JsonValue::Array(items) => {
            let mut k: usize = 0;
            while k < items.len() && items[k].is_null()
                invariant
                    k <= items@.len(),
                    forall|j: int| 0 <= j < k ==> items@[j] is Null,
                decreases items@.len() - k,
            {
                k = k + 1;
            }
            proof {
                lemma_first_non_null(items@, k as int);
            }
            if k < items.len() {
                proof {
                    vstd::std_specs::vec::axiom_vec_index_decreases(*items, k as int);
                }
                DataType::List(Box::new(infer_value_type(&items[k])))
            } else {
                DataType::List(Box::new(DataType::Utf8))
            }
        },
        JsonValue::Object(_) => DataType::Utf8,
    }
}

/// Infers the schema of one record: for an object, one nullable field per
/// member in order, typed by `infer_type`; for any other value, no fields.
pub fn infer_schema(v: &JsonValue) -> (r: Schema)
    requires
        v.wf(),
    ensures
        r@ == infer_record(*v),
        r.wf(),
{
    match v {
        JsonValue::Object(entries) => {
            let mut fields: Vec<Field> = Vec::new();
            let mut i: usize = 0;
            while i < entries.len()
                invariant
                    i <= entries@.len(),
                    fields@.len() == i,
                    forall|j: int|
                        0 <= j < i ==> (#[trigger] fields@[j])@ == (
                            entries@[j].0@,
                            infer_type(entries@[j].1),
                            true,
                        ),
                decreases entries@.len() - i,
            {
                let t = infer_value_type(&entries[i].1);
                fields.push(Field::new(entries[i].0.clone(), t, true));
                i = i + 1;
            }
            let r = Schema { fields };
            assert(r@ =~= infer_record(*v));
            proof {
                let ks = entry_keys(entries@);
                assert forall|a: int, b: int| 0 <= a < b < r@.len() implies r@[a].0 != r@[b].0 by {
                    assert(ks[a] == r@[a].0 && ks[b] == r@[b].0);
                }
            }
            r
        },
        _ => Schema::empty(),
    }
}

} // verus!
