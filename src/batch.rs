//! Row batches: a schema and rows of typed cells, and the messages that
//! flow between operators.

use crate::json::{entry_keys, JsonValue};
use crate::schema::{infer_record, infer_type, DataType, FieldView, Schema};
use crate::text::{i64_text, int_text, nat_text, u64_text};
use vstd::prelude::*;

verus! {

/// One value of a row. Numbers that are not integers are held as their
/// decimal text; `Json` holds a value that a text or list column carries
/// as JSON.
#[derive(Debug, PartialEq, Eq)]
pub enum Cell {
    Null,
    Bool(bool),
    Int(i64),
    Float(String),
    Str(String),
    Json(JsonValue),
}

/// What a cell holds.
pub enum CellView {
    Null,
    Bool(bool),
    Int(i64),
    Float(Seq<char>),
    Str(Seq<char>),
    Json(JsonValue),
}

impl View for Cell {
    type V = CellView;

    open spec fn view(&self) -> CellView {
        match self {
            Cell::Null => CellView::Null,
            Cell::Bool(b) => CellView::Bool(*b),
            Cell::Int(i) => CellView::Int(*i),
            Cell::Float(t) => CellView::Float(t@),
            Cell::Str(t) => CellView::Str(t@),
            Cell::Json(v) => CellView::Json(*v),
        }
    }
}

/// The view of a row.
pub open spec fn row_view(row: Seq<Cell>) -> Seq<CellView> {
    row.map_values(|c: Cell| c@)
}

/// A set of rows under one schema.
#[derive(Debug, PartialEq, Eq)]
pub struct Batch {
    pub schema: Schema,
    pub rows: Vec<Vec<Cell>>,
}

impl Batch {
    /// Well formed: the schema's names are distinct and every row has one
    /// cell per field.
    pub open spec fn wf(&self) -> bool {
        &&& self.schema.wf()
        &&& forall|r: int| 0 <= r < self.rows@.len() ==> (#[trigger] self.rows@[r])@.len()
            == self.schema@.len()
    }

    /// The number of rows.
    pub fn num_rows(&self) -> (r: usize)
        ensures
            r == self.rows@.len(),
    {
        self.rows.len()
    }
}

/// The unit of flow between operators.
#[derive(Debug, PartialEq, Eq)]
pub enum Message {
    Batch(Batch),
    Watermark(i64),
    Eos,
}

/// The value of the first member with the given key, if any.
pub open spec fn member_of(entries: Seq<(String, JsonValue)>, key: Seq<char>) -> Option<JsonValue>
    decreases entries.len(),
{
    if entries.len() == 0 {
        None
    } else if entries[0].0@ == key {
        Some(entries[0].1)
    } else {
        member_of(entries.drop_first(), key)
    }
}

/// The member of a record with the given key; a non-object has none.
pub open spec fn member(record: JsonValue, key: Seq<char>) -> Option<JsonValue> {
    match record {
        JsonValue::Object(entries) => member_of(entries@, key),
        _ => None,
    }
}

/// The cell a value takes in a column of the given type. A missing value, a
/// JSON null, or a value the column type cannot hold is a null cell.
/// Floating columns take integers as their decimal text; text columns take
/// strings as they are and any other non-null value as JSON; list and the
/// remaining column types take any non-null value as JSON.
pub open spec fn coerce(v: Option<JsonValue>, t: DataType) -> CellView {
    match v {
        None => CellView::Null,
        Some(v) => match t {
            DataType::Boolean => match v {
                JsonValue::Bool(b) => CellView::Bool(b),
                _ => CellView::Null,
            },
            DataType::Int64 => match v {
                JsonValue::Int(i) => CellView::Int(i),
                JsonValue::UInt(u) => if u <= i64::MAX as u64 {
                    CellView::Int(u as i64)
                } else {
                    CellView::Null
                },
                _ => CellView::Null,
            },
            DataType::Int32 => match v {
                JsonValue::Int(i) => if i32::MIN <= i <= i32::MAX {
                    CellView::Int(i)
                } else {
                    CellView::Null
                },
                JsonValue::UInt(u) => if u <= i32::MAX as u64 {
                    CellView::Int(u as i64)
                } else {
                    CellView::Null
                },
                _ => CellView::Null,
            },
            DataType::Float64 | DataType::Float32 => match v {
                JsonValue::Int(i) => CellView::Float(int_text(i as int)),
                JsonValue::UInt(u) => CellView::Float(nat_text(u as nat)),
                JsonValue::Float(t) => CellView::Float(t@),
                _ => CellView::Null,
            },
            DataType::Utf8 => match v {
                JsonValue::Null => CellView::Null,
                JsonValue::Str(s) => CellView::Str(s@),
                _ => CellView::Json(v),
            },
            _ => match v {
                JsonValue::Null => CellView::Null,
                _ => CellView::Json(v),
            },
        },
    }
}

/// The row a record gives under a schema: one cell per field, in order.
pub open spec fn record_row(record: JsonValue, schema: Seq<FieldView>) -> Seq<CellView> {
    schema.map_values(|f: FieldView| coerce(member(record, f.0), f.1))
}

/// The column type of the JSON value a cell stands for.
pub open spec fn cell_type(c: CellView) -> DataType {
    match c {
        CellView::Null => DataType::Utf8,
        CellView::Bool(_) => DataType::Boolean,
        CellView::Int(_) => DataType::Int64,
        CellView::Float(_) => DataType::Float64,
        CellView::Str(_) => DataType::Utf8,
        CellView::Json(v) => infer_type(v),
    }
}

/// The schema inferred from a row read back as a record whose members are
/// the columns, in order.
pub open spec fn row_schema(row: Seq<CellView>, schema: Seq<FieldView>) -> Seq<FieldView> {
    Seq::new(schema.len(), |i: int| (schema[i].0, cell_type(row[i]), true))
}

pub proof fn lemma_member_found(entries: Seq<(String, JsonValue)>, key: Seq<char>, j: int)
    requires
        0 <= j < entries.len(),
        entries[j].0@ == key,
        forall|k: int| 0 <= k < j ==> entries[k].0@ != key,
    ensures
        member_of(entries, key) == Some(entries[j].1),
    decreases j,
{
    if j > 0 {
        lemma_member_found(entries.drop_first(), key, j - 1);
    }
}

pub proof fn lemma_member_absent(entries: Seq<(String, JsonValue)>, key: Seq<char>)
    requires
        forall|k: int| 0 <= k < entries.len() ==> entries[k].0@ != key,
    ensures
        member_of(entries, key) is None,
    decreases entries.len(),
{
    if entries.len() > 0 {
        lemma_member_absent(entries.drop_first(), key);
    }
}

proof fn lemma_member_remove(entries: Seq<(String, JsonValue)>, key: Seq<char>, j: int)
    requires
        0 <= j < entries.len(),
        entries[j].0@ != key,
    ensures
        member_of(entries.remove(j), key) == member_of(entries, key),
    decreases j,
{
    if j == 0 {
        assert(entries.remove(0) =~= entries.drop_first());
    } else {
        let r = entries.remove(j);
        assert(r[0] == entries[0]);
        if entries[0].0@ != key {
            assert(r.drop_first() =~= entries.drop_first().remove(j - 1));
            lemma_member_remove(entries.drop_first(), key, j - 1);
        }
    }
}

/// The cell a value takes in a column of the given type.
pub fn coerce_value(v: JsonValue, t: &DataType) -> (r: Cell)
    ensures
        r@ == coerce(Some(v), *t),
{
    match t {
        DataType::Boolean => match v {
            JsonValue::Bool(b) => Cell::Bool(b),
            _ => Cell::Null,
        },
        DataType::Int64 => match v {
            JsonValue::Int(i) => Cell::Int(i),
            JsonValue::UInt(u) => if u <= i64::MAX as u64 {
                Cell::Int(u as i64)
            } else {
                Cell::Null
            },
            _ => Cell::Null,
        },
        DataType::Int32 => match v {
            JsonValue::Int(i) => if i32::MIN as i64 <= i && i <= i32::MAX as i64 {
                Cell::Int(i)
            } else {
                Cell::Null
            },
            JsonValue::UInt(u) => if u <= i32::MAX as u64 {
                Cell::Int(u as i64)
            } else {
                Cell::Null
            },
            _ => Cell::Null,
        },
        DataType::Float64 | DataType::Float32 => match v {
            JsonValue::Int(i) => Cell::Float(i64_text(i)),
            JsonValue::UInt(u) => Cell::Float(u64_text(u)),
            JsonValue::Float(t) => Cell::Float(t),
            _ => Cell::Null,
        },
        DataType::Utf8 => match v {
            JsonValue::Null => Cell::Null,
            JsonValue::Str(s) => Cell::Str(s),
            other => Cell::Json(other),
        },
        _ => match v {
            JsonValue::Null => Cell::Null,
            other => Cell::Json(other),
        },
    }
}

/// Builds the row of one record under a schema: each field takes the
/// record's member of that name, coerced to the field's type, and a field
/// the record lacks is a null cell. The record is consumed.
pub fn record_to_row(record: JsonValue, schema: &Schema) -> (r: Vec<Cell>)
    requires
        schema.wf(),
    ensures
        row_view(r@) == record_row(record, schema@),
{
    let ghost given = record;
    let mut entries: Vec<(String, JsonValue)> = match record {
        JsonValue::Object(entries) => entries,
        _ => Vec::new(),
    };
    let ghost start = entries@;
    proof {
        assert forall|f: int| 0 <= f < schema@.len() implies member_of(start, #[trigger] schema@[f].0)
            == member(given, schema@[f].0) by {
            if !(given is Object) {
                lemma_member_absent(start, schema@[f].0);
            }
        }
    }
    let mut row: Vec<Cell> = Vec::new();
    let mut i: usize = 0;
    while i < schema.fields.len()
        invariant
            i <= schema@.len(),
            schema.wf(),
            row@.len() == i,
            forall|k: int| 0 <= k < i ==> (#[trigger] row@[k])@ == coerce(
                member(given, schema@[k].0),
                schema@[k].1,
            ),
            forall|f: int|
                i <= f < schema@.len() ==> member_of(entries@, #[trigger] schema@[f].0) == member(
                    given,
                    schema@[f].0,
                ),
        decreases schema@.len() - i,
    {
        let field = &schema.fields[i];
        let mut j: usize = 0;
        while j < entries.len() && entries[j].0 != field.name
            invariant
                j <= entries@.len(),
                forall|k: int| 0 <= k < j ==> entries@[k].0@ != field.name@,
            decreases entries@.len() - j,
        {
            j = j + 1;
        }
        assert(field.name@ == schema@[i as int].0);
        if j < entries.len() {
            proof {
                lemma_member_found(entries@, field.name@, j as int);
                assert forall|f: int| i < f < schema@.len() implies member_of(
                    entries@.remove(j as int),
                    #[trigger] schema@[f].0,
                ) == member(given, schema@[f].0) by {
                    assert(schema@[f].0 != schema@[i as int].0);
                    lemma_member_remove(entries@, schema@[f].0, j as int);
                }
            }
            let (_key, value) = entries.remove(j);
            row.push(coerce_value(value, &field.data_type));
        } else {
            proof {
                lemma_member_absent(entries@, field.name@);
            }
            row.push(Cell::Null);
        }
        i = i + 1;
    }
    assert(row_view(row@) =~= record_row(given, schema@));
    row
}

/// Inference is idempotent: the schema inferred from the first row of the
/// batch a record makes under its own inferred schema, read back as a
/// record, is that inferred schema.
pub proof fn lemma_infer_idempotent(record: JsonValue)
    requires
        record.wf(),
    ensures
        row_schema(record_row(record, infer_record(record)), infer_record(record))
            == infer_record(record),
{
    let s = infer_record(record);
    let row = record_row(record, s);
    if let JsonValue::Object(entries) = record {
        assert forall|i: int| 0 <= i < s.len() implies #[trigger] row_schema(row, s)[i] == s[i] by {
            let ks = entry_keys(entries@);
            assert forall|k: int| 0 <= k < i implies entries@[k].0@ != entries@[i].0@ by {
                assert(ks[k] == entries@[k].0@ && ks[i] == entries@[i].0@);
            }
            lemma_member_found(entries@, entries@[i].0@, i);
            let v = entries@[i].1;
            assert(s[i] == (entries@[i].0@, infer_type(v), true));
            assert(row[i] == coerce(Some(v), infer_type(v)));
        }
    }
    assert(row_schema(row, s) =~= s);
}

impl Batch {
    /// The rows' views.
    pub open spec fn rows_view(&self) -> Seq<Seq<CellView>> {
        self.rows@.map_values(|r: Vec<Cell>| row_view(r@))
    }
}

/// The column type of the JSON value a cell stands for.
pub fn cell_data_type(c: &Cell) -> (r: DataType)
    ensures
        r == cell_type(c@),
{
    match c {
        Cell::Null => DataType::Utf8,
        Cell::Bool(_) => DataType::Boolean,
        Cell::Int(_) => DataType::Int64,
        Cell::Float(_) => DataType::Float64,
        Cell::Str(_) => DataType::Utf8,
        Cell::Json(v) => crate::schema::infer_value_type(v),
    }
}

/// The schema inferred from one row read back as a record.
pub fn row_schema_of(row: &Vec<Cell>, schema: &Schema) -> (r: Schema)
    requires
        row@.len() == schema@.len(),
        schema.wf(),
    ensures
        r@ == row_schema(row_view(row@), schema@),
        r.wf(),
{
    let mut fields: Vec<crate::schema::Field> = Vec::new();
    let mut i: usize = 0;
    while i < row.len()
        invariant
            i <= row@.len(),
            row@.len() == schema@.len(),
            fields@.len() == i,
            forall|j: int| 0 <= j < i ==> (#[trigger] fields@[j])@ == row_schema(row_view(row@), schema@)[j],
        decreases row@.len() - i,
    {
        let t = cell_data_type(&row[i]);
        fields.push(crate::schema::Field::new(schema.fields[i].name.clone(), t, true));
        i = i + 1;
    }
    let r = Schema { fields };
    assert(r@ =~= row_schema(row_view(row@), schema@));
    assert forall|a: int, b: int| 0 <= a < b < r@.len() implies r@[a].0 != r@[b].0 by {
        assert(r@[a].0 == schema@[a].0 && r@[b].0 == schema@[b].0);
    }
    r
}

} // verus!
