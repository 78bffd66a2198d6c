//! The table-format metadata model: schemas with field ids, snapshots, the
//! logs, data files and manifests, and the mapping of column types to the
//! table format's type names.

use crate::schema::{names_unique, DataType, FieldView, Schema};
use vstd::prelude::*;

verus! {

/// A field of a table schema.
#[derive(Debug, PartialEq, Eq)]
pub struct TableField {
    pub id: i32,
    pub name: String,
    pub field_type: String,
    pub required: bool,
}

/// A versioned table schema.
#[derive(Debug, PartialEq, Eq)]
pub struct TableSchema {
    pub schema_id: i32,
    pub fields: Vec<TableField>,
}

/// A partition field.
#[derive(Debug, PartialEq, Eq)]
pub struct PartitionField {
    pub source_id: i32,
    pub field_id: i32,
    pub name: String,
    pub transform: String,
}

/// A partition specification.
#[derive(Debug, PartialEq, Eq)]
pub struct PartitionSpec {
    pub spec_id: i32,
    pub fields: Vec<PartitionField>,
}

/// The aggregates a snapshot records.
#[derive(Debug, PartialEq, Eq)]
pub struct SnapshotSummary {
    pub operation: String,
    pub added_data_files: i32,
    pub deleted_data_files: i32,
    pub total_records: i64,
    pub added_records: i64,
    pub deleted_records: i64,
    pub added_files_size: i64,
    pub deleted_files_size: i64,
}

/// One commit of the table.
#[derive(Debug, PartialEq, Eq)]
pub struct Snapshot {
    pub snapshot_id: i64,
    pub parent_snapshot_id: Option<i64>,
    pub sequence_number: i64,
    pub timestamp_ms: i64,
    pub manifest_list: String,
    pub summary: SnapshotSummary,
    pub schema_id: i32,
}

/// An entry of the snapshot log.
#[derive(Debug, PartialEq, Eq)]
pub struct SnapshotLogEntry {
    pub timestamp_ms: i64,
    pub snapshot_id: i64,
}

/// An entry of the metadata log.
#[derive(Debug, PartialEq, Eq)]
pub struct MetadataLogEntry {
    pub timestamp_ms: i64,
    pub metadata_file: String,
}

/// A named reference to a snapshot.
#[derive(Debug, PartialEq, Eq)]
pub struct SnapshotRef {
    pub name: String,
    pub snapshot_id: i64,
    pub ref_type: String,
}

/// The table's metadata document.
#[derive(Debug, PartialEq, Eq)]
pub struct TableMetadata {
    pub format_version: i32,
    pub table_uuid: String,
    pub location: String,
    pub last_updated_ms: i64,
    pub last_column_id: i32,
    pub current_schema_id: i32,
    pub schemas: Vec<TableSchema>,
    pub partition_specs: Vec<PartitionSpec>,
    pub default_spec_id: i32,
    pub properties: Vec<(String, String)>,
    pub snapshots: Vec<Snapshot>,
    pub snapshot_log: Vec<SnapshotLogEntry>,
    pub metadata_log: Vec<MetadataLogEntry>,
    pub current_snapshot_id: Option<i64>,
    pub refs: Vec<SnapshotRef>,
}

/// A columnar data block of the table.
#[derive(Debug, PartialEq, Eq)]
pub struct DataFile {
    pub content: i32,
    pub file_path: String,
    pub file_format: String,
    pub record_count: i64,
    pub file_size_in_bytes: i64,
}

/// A data file as a manifest lists it.
#[derive(Debug, PartialEq, Eq)]
pub struct ManifestEntry {
    pub status: i32,
    pub snapshot_id: i64,
    pub data_file: DataFile,
}

/// The files one commit adds.
#[derive(Debug, PartialEq, Eq)]
pub struct Manifest {
    pub schema_id: i32,
    pub schema: TableSchema,
    pub partition_spec_id: i32,
    pub content: i32,
    pub sequence_number: i64,
    pub min_sequence_number: i64,
    pub entries: Vec<ManifestEntry>,
}

/// What a table field holds: id, name, type name, required.
pub type TableFieldView = (i32, Seq<char>, Seq<char>, bool);

impl View for TableField {
    type V = TableFieldView;

    open spec fn view(&self) -> TableFieldView {
        (self.id, self.name@, self.field_type@, self.required)
    }
}

impl TableSchema {
    /// The fields' views, in order.
    pub open spec fn fields_view(&self) -> Seq<TableFieldView> {
        self.fields@.map_values(|f: TableField| f@)
    }

    /// A copy of the schema.
    pub fn copy(&self) -> (r: TableSchema)
        ensures
            r.schema_id == self.schema_id,
            r.fields_view() == self.fields_view(),
    {
        let mut fields: Vec<TableField> = Vec::new();
        let mut i: usize = 0;
        while i < self.fields.len()
            invariant
                i <= self.fields@.len(),
                fields@.len() == i,
                forall|j: int| 0 <= j < i ==> (#[trigger] fields@[j])@ == self.fields@[j]@,
            decreases self.fields@.len() - i,
        {
            let f = &self.fields[i];
            fields.push(
                TableField {
                    id: f.id,
                    name: f.name.clone(),
                    field_type: f.field_type.clone(),
                    required: f.required,
                },
            );
            i = i + 1;
        }
        let r = TableSchema { schema_id: self.schema_id, fields };
        assert(r.fields_view() =~= self.fields_view());
        r
    }
}

/// The table format's name for a column type; types it has no name for
/// are stored as strings.
pub open spec fn table_type(t: DataType) -> Seq<char> {
    match t {
        DataType::Int32 => "int"@,
        DataType::Int64 => "long"@,
        DataType::Float32 => "float"@,
        DataType::Float64 => "double"@,
        DataType::Boolean => "boolean"@,
        DataType::Utf8 => "string"@,
        DataType::Binary => "binary"@,
        DataType::Date32 => "date"@,
        DataType::TimestampMicros => "timestamp"@,
        DataType::List(_) => "string"@,
    }
}

/// The column type a table type name stands for; unknown names are text.
pub open spec fn column_type(name: Seq<char>) -> DataType {
    if name == "long"@ {
        DataType::Int64
    } else if name == "int"@ {
        DataType::Int32
    } else if name == "double"@ {
        DataType::Float64
    } else if name == "float"@ {
        DataType::Float32
    } else if name == "boolean"@ {
        DataType::Boolean
    } else if name == "string"@ {
        DataType::Utf8
    } else if name == "binary"@ {
        DataType::Binary
    } else if name == "date"@ {
        DataType::Date32
    } else if name == "timestamp"@ {
        DataType::TimestampMicros
    } else {
        DataType::Utf8
    }
}

/// The table fields of a schema: ids from 1 in declaration order, the type
/// name of each type, and required exactly when not nullable.
pub open spec fn table_fields(schema: Seq<FieldView>) -> Seq<TableFieldView> {
    Seq::new(
        schema.len(),
        |i: int| ((i + 1) as i32, schema[i].0, table_type(schema[i].1), !schema[i].2),
    )
}

/// The schema a table schema's fields describe.
pub open spec fn schema_of_table(fields: Seq<TableFieldView>) -> Seq<FieldView> {
    fields.map_values(|f: TableFieldView| (f.1, column_type(f.2), !f.3))
}

/// Maps a column type to the table format's type name.
pub fn table_type_name(t: &DataType) -> (r: String)
    ensures
        r@ == table_type(*t),
{
    match t {
        DataType::Int32 => String::from_str("int"),
        DataType::Int64 => String::from_str("long"),
        DataType::Float32 => String::from_str("float"),
        DataType::Float64 => String::from_str("double"),
        DataType::Boolean => String::from_str("boolean"),
        DataType::Utf8 => String::from_str("string"),
        DataType::Binary => String::from_str("binary"),
        DataType::Date32 => String::from_str("date"),
        DataType::TimestampMicros => String::from_str("timestamp"),
        DataType::List(_) => String::from_str("string"),
    }
}

/// Maps a table type name to a column type.
pub fn column_type_of(name: &String) -> (r: DataType)
    ensures
        r == column_type(name@),
{
    if *name == String::from_str("long") {
        DataType::Int64
    } else if *name == String::from_str("int") {
        DataType::Int32
    } else if *name == String::from_str("double") {
        DataType::Float64
    } else if *name == String::from_str("float") {
        DataType::Float32
    } else if *name == String::from_str("boolean") {
        DataType::Boolean
    } else if *name == String::from_str("string") {
        DataType::Utf8
    } else if *name == String::from_str("binary") {
        DataType::Binary
    } else if *name == String::from_str("date") {
        DataType::Date32
    } else if *name == String::from_str("timestamp") {
        DataType::TimestampMicros
    } else {
        DataType::Utf8
    }
}

/// Builds the table schema of a schema under the given schema id.
pub fn to_table_schema(schema: &Schema, schema_id: i32) -> (r: TableSchema)
    requires
        schema@.len() < i32::MAX,
    ensures
        r.schema_id == schema_id,
        r.fields_view() == table_fields(schema@),
{
    let mut fields: Vec<TableField> = Vec::new();
    let mut i: usize = 0;
    while i < schema.fields.len()
        invariant
            i <= schema@.len(),
            schema@.len() < i32::MAX,
            fields@.len() == i,
            forall|j: int| 0 <= j < i ==> (#[trigger] fields@[j])@ == table_fields(schema@)[j],
        decreases schema@.len() - i,
    {
        let f = &schema.fields[i];
        fields.push(
            TableField {
                id: (i + 1) as i32,
                name: f.name.clone(),
                field_type: table_type_name(&f.data_type),
                required: !f.nullable,
            },
        );
        i = i + 1;
    }
    let r = TableSchema { schema_id, fields };
    assert(r.fields_view() =~= table_fields(schema@));
    r
}

/// Reads a table schema back as a schema: each field keeps its name, takes
/// the column type of its type name, and is nullable unless required.
/// Fails when two fields share a name.
pub fn from_table_schema(t: &TableSchema) -> (r: Option<Schema>)
    ensures
        r is Some <==> names_unique(schema_of_table(t.fields_view())),
        r matches Some(s) ==> s@ == schema_of_table(t.fields_view()) && s.wf(),
{
    let mut out = Schema::empty();
    let mut i: usize = 0;
    while i < t.fields.len()
        invariant
            i <= t.fields@.len(),
            out@ == schema_of_table(t.fields_view()).take(i as int),
            out.wf(),
        decreases t.fields@.len() - i,
    {
        let f = &t.fields[i];
        let ghost before = out@;
        match out.index_of(&f.name) {
            Some(k) => {
                proof {
                    let all = schema_of_table(t.fields_view());
                    assert(all[k as int] == before[k as int]);
                    assert(all[i as int].0 == f.name@);
                }
                return None;
            },
            None => {},
        }
        out.fields.push(crate::schema::Field::new(f.name.clone(), column_type_of(&f.field_type), !f.required));
        i = i + 1;
        proof {
            let all = schema_of_table(t.fields_view());
            assert(out@ =~= all.take(i as int));
            assert forall|a: int, b: int| 0 <= a < b < out@.len() implies out@[a].0 != out@[b].0 by {
                if b == i - 1 {
                    assert(out@[b].0 == f.name@);
                    assert(out@[a] == before[a]);
                }
            }
        }
    }
    assert(out@ =~= schema_of_table(t.fields_view()));
    Some(out)
}

/// No value occurs twice.
pub open spec fn all_distinct(s: Seq<int>) -> bool {
    forall|i: int, j: int| 0 <= i < j < s.len() ==> s[i] != s[j]
}

/// Each value is larger than the one before.
pub open spec fn strictly_increasing(s: Seq<int>) -> bool {
    forall|i: int, j: int| 0 <= i < j < s.len() ==> s[i] < s[j]
}

/// The largest value, or `floor` when there is none larger.
pub open spec fn max_or(s: Seq<int>, floor: int) -> int
    decreases s.len(),
{
    if s.len() == 0 {
        floor
    } else {
        let m = max_or(s.drop_last(), floor);
        if s.last() > m {
            s.last()
        } else {
            m
        }
    }
}

pub proof fn lemma_max_or_bounds(s: Seq<int>, floor: int)
    ensures
        max_or(s, floor) >= floor,
        forall|i: int| 0 <= i < s.len() ==> s[i] <= max_or(s, floor),
        max_or(s, floor) == floor || s.contains(max_or(s, floor)),
    decreases s.len(),
{
    if s.len() > 0 {
        lemma_max_or_bounds(s.drop_last(), floor);
        let m = max_or(s.drop_last(), floor);
        assert forall|i: int| 0 <= i < s.len() implies s[i] <= max_or(s, floor) by {
            if i < s.len() - 1 {
                assert(s[i] == s.drop_last()[i]);
            }
        }
        if m != floor && max_or(s, floor) == m {
            let k = choose|k: int| 0 <= k < s.drop_last().len() && s.drop_last()[k] == m;
            assert(s[k] == m);
        }
        if max_or(s, floor) == s.last() {
            assert(s[s.len() - 1] == s.last());
        }
    }
}

impl TableMetadata {
    /// The ids of the stored schemas, in order.
    pub open spec fn schema_ids(&self) -> Seq<int> {
        self.schemas@.map_values(|s: TableSchema| s.schema_id as int)
    }

    /// The ids of the stored snapshots, in order.
    pub open spec fn snapshot_ids(&self) -> Seq<int> {
        self.snapshots@.map_values(|s: Snapshot| s.snapshot_id as int)
    }

    /// The snapshot ids of the snapshot log, in order.
    pub open spec fn log_ids(&self) -> Seq<int> {
        self.snapshot_log@.map_values(|e: SnapshotLogEntry| e.snapshot_id as int)
    }

    /// The layout's invariants: schema ids are distinct and the current one
    /// is stored; snapshot ids are distinct and the current one, when set,
    /// is stored; the snapshot log strictly increases and names stored
    /// snapshots only.
    pub open spec fn wf(&self) -> bool {
        &&& all_distinct(self.schema_ids())
        &&& self.schema_ids().contains(self.current_schema_id as int)
        &&& all_distinct(self.snapshot_ids())
        &&& (self.current_snapshot_id matches Some(id) ==> self.snapshot_ids().contains(id as int))
        &&& strictly_increasing(self.log_ids())
        &&& forall|i: int|
            0 <= i < self.log_ids().len() ==> self.snapshot_ids().contains(
                #[trigger] self.log_ids()[i],
            )
    }

    /// The position of the current schema among the stored ones.
    pub open spec fn current_schema_index(&self) -> int {
        choose|i: int| 0 <= i < self.schemas@.len() && self.schemas@[i].schema_id == self.current_schema_id
    }

    /// Checks the layout's invariants.
    pub fn check(&self) -> (r: bool)
        ensures
            r == self.wf(),
    {
        let mut schema_ids: Vec<i64> = Vec::new();
        let mut i: usize = 0;
        while i < self.schemas.len()
            invariant
                i <= self.schemas@.len(),
                schema_ids@.len() == i,
                forall|j: int| 0 <= j < i ==> #[trigger] schema_ids@[j] == self.schema_ids()[j],
            decreases self.schemas@.len() - i,
        {
            schema_ids.push(self.schemas[i].schema_id as i64);
            i = i + 1;
        }
        assert(schema_ids@.map_values(|x: i64| x as int) =~= self.schema_ids());
        let mut snapshot_ids: Vec<i64> = Vec::new();
        let mut i: usize = 0;
        while i < self.snapshots.len()
            invariant
                i <= self.snapshots@.len(),
                snapshot_ids@.len() == i,
                forall|j: int| 0 <= j < i ==> #[trigger] snapshot_ids@[j] == self.snapshot_ids()[j],
            decreases self.snapshots@.len() - i,
        {
            snapshot_ids.push(self.snapshots[i].snapshot_id);
            i = i + 1;
        }
        assert(snapshot_ids@.map_values(|x: i64| x as int) =~= self.snapshot_ids());
        let mut log_ids: Vec<i64> = Vec::new();
        let mut i: usize = 0;
        while i < self.snapshot_log.len()
            invariant
                i <= self.snapshot_log@.len(),
                log_ids@.len() == i,
                forall|j: int| 0 <= j < i ==> #[trigger] log_ids@[j] == self.log_ids()[j],
            decreases self.snapshot_log@.len() - i,
        {
            log_ids.push(self.snapshot_log[i].snapshot_id);
            i = i + 1;
        }
        assert(log_ids@.map_values(|x: i64| x as int) =~= self.log_ids());
        if !distinct(&schema_ids) || !contains(&schema_ids, self.current_schema_id as i64) {
            return false;
        }
        if !distinct(&snapshot_ids) {
            return false;
        }
        match self.current_snapshot_id {
            Some(id) => {
                if !contains(&snapshot_ids, id) {
                    return false;
                }
            },
            None => {},
        }
        if !increasing(&log_ids) {
            return false;
        }
        let mut k: usize = 0;
        while k < log_ids.len()
            invariant
                k <= log_ids@.len(),
                log_ids@.map_values(|x: i64| x as int) == self.log_ids(),
                snapshot_ids@.map_values(|x: i64| x as int) == self.snapshot_ids(),
                forall|j: int| 0 <= j < k ==> self.snapshot_ids().contains(#[trigger] self.log_ids()[j]),
            decreases log_ids@.len() - k,
        {
            if !contains(&snapshot_ids, log_ids[k]) {
                assert(self.log_ids()[k as int] == log_ids@[k as int]);
                return false;
            }
            assert(self.log_ids()[k as int] == log_ids@[k as int]);
            k = k + 1;
        }
        true
    }

    /// The position of the stored schema with the current schema id.
    pub fn find_current_schema(&self) -> (r: usize)
        requires
            self.wf(),
        ensures
            r < self.schemas@.len(),
            self.schemas@[r as int].schema_id == self.current_schema_id,
            r == self.current_schema_index(),
    {
        let mut i: usize = 0;
        while i < self.schemas.len()
            invariant
                i <= self.schemas@.len(),
                self.wf(),
                forall|j: int| 0 <= j < i ==> self.schemas@[j].schema_id != self.current_schema_id,
            decreases self.schemas@.len() - i,
        {
            if self.schemas[i].schema_id == self.current_schema_id {
                proof {
                    let k = self.current_schema_index();
                    assert(self.schema_ids()[k] == self.schema_ids()[i as int]);
                }
                return i;
            }
            i = i + 1;
        }
        proof {
            let k = choose|k: int| 0 <= k < self.schema_ids().len() && self.schema_ids()[k] == self.current_schema_id as int;
            assert(self.schemas@[k].schema_id == self.current_schema_id);
        }
        0
    }

    /// The largest stored snapshot id, or `floor` when none is larger.
    pub fn max_snapshot_id(&self, floor: i64) -> (r: i64)
        ensures
            r == max_or(self.snapshot_ids(), floor as int),
    {
        let mut m = floor;
        let mut i: usize = 0;
        while i < self.snapshots.len()
            invariant
                i <= self.snapshots@.len(),
                m == max_or(self.snapshot_ids().take(i as int), floor as int),
            decreases self.snapshots@.len() - i,
        {
            proof {
                assert(self.snapshot_ids().take(i as int + 1).drop_last() =~= self.snapshot_ids().take(i as int));
            }
            if self.snapshots[i].snapshot_id > m {
                m = self.snapshots[i].snapshot_id;
            }
            i = i + 1;
        }
        assert(self.snapshot_ids().take(i as int) =~= self.snapshot_ids());
        m
    }

    /// The largest stored schema id, or `floor` when none is larger.
    pub fn max_schema_id(&self, floor: i32) -> (r: i32)
        ensures
            r == max_or(self.schema_ids(), floor as int),
    {
        let mut m = floor;
        let mut i: usize = 0;
        while i < self.schemas.len()
            invariant
                i <= self.schemas@.len(),
                m == max_or(self.schema_ids().take(i as int), floor as int),
            decreases self.schemas@.len() - i,
        {
            proof {
                assert(self.schema_ids().take(i as int + 1).drop_last() =~= self.schema_ids().take(i as int));
            }
            if self.schemas[i].schema_id > m {
                m = self.schemas[i].schema_id;
            }
            i = i + 1;
        }
        assert(self.schema_ids().take(i as int) =~= self.schema_ids());
        m
    }
}

/// Whether no value occurs twice.
fn distinct(v: &Vec<i64>) -> (r: bool)
    ensures
        r == all_distinct(v@.map_values(|x: i64| x as int)),
{
    let ghost s = v@.map_values(|x: i64| x as int);
    let mut i: usize = 0;
    while i < v.len()
        invariant
            i <= v@.len(),
            s == v@.map_values(|x: i64| x as int),
            forall|a: int, b: int| 0 <= a < b < v@.len() && a < i ==> s[a] != s[b],
        decreases v@.len() - i,
    {
        let mut j: usize = i + 1;
        while j < v.len()
            invariant
                i < v@.len(),
                i + 1 <= j <= v@.len(),
                s == v@.map_values(|x: i64| x as int),
                forall|a: int, b: int| 0 <= a < b < v@.len() && a < i ==> s[a] != s[b],
                forall|b: int| i < b < j ==> s[i as int] != s[b],
            decreases v@.len() - j,
        {
            if v[i] == v[j] {
                assert(s[i as int] == s[j as int]);
                return false;
            }
            j = j + 1;
        }
        i = i + 1;
    }
    true
}

/// Whether the value occurs.
fn contains(v: &Vec<i64>, x: i64) -> (r: bool)
    ensures
        r == v@.map_values(|y: i64| y as int).contains(x as int),
{
    let ghost s = v@.map_values(|y: i64| y as int);
    let mut i: usize = 0;
    while i < v.len()
        invariant
            i <= v@.len(),
            s == v@.map_values(|y: i64| y as int),
            forall|j: int| 0 <= j < i ==> s[j] != x as int,
        decreases v@.len() - i,
    {
        if v[i] == x {
            assert(s[i as int] == x as int);
            return true;
        }
        i = i + 1;
    }
    false
}

/// Whether each value is larger than the one before.
fn increasing(v: &Vec<i64>) -> (r: bool)
    ensures
        r == strictly_increasing(v@.map_values(|x: i64| x as int)),
{
    let ghost s = v@.map_values(|x: i64| x as int);
    if v.len() == 0 {
        return true;
    }
    let mut i: usize = 1;
    while i < v.len()
        invariant
            1 <= i <= v@.len(),
            s == v@.map_values(|x: i64| x as int),
            forall|a: int, b: int| 0 <= a < b < i ==> s[a] < s[b],
        decreases v@.len() - i,
    {
        if v[i - 1] >= v[i] {
            assert(s[i - 1] >= s[i as int]);
            return false;
        }
        proof {
            assert forall|a: int, b: int| 0 <= a < b < i + 1 implies s[a] < s[b] by {
                if b == i && a < i - 1 {
                    assert(s[a] < s[i - 1]);
                }
            }
        }
        i = i + 1;
    }
    true
}

/// `md` is the metadata of a new table: format version 2, the given
/// identifier and location, the schema as schema 1 with field ids from 1,
/// one unpartitioned spec 0, the default write properties, no snapshots.
pub open spec fn is_initial_metadata(
    md: TableMetadata,
    table_uuid: Seq<char>,
    location: Seq<char>,
    schema: Seq<FieldView>,
    now_ms: i64,
) -> bool {
    &&& md.wf()
    &&& md.format_version == 2
    &&& md.table_uuid@ == table_uuid
    &&& md.location@ == location
    &&& md.last_updated_ms == now_ms
    &&& md.last_column_id == schema.len()
    &&& md.current_schema_id == 1
    &&& md.schemas@.len() == 1
    &&& md.schemas@[0].schema_id == 1
    &&& md.schemas@[0].fields_view() == table_fields(schema)
    &&& md.partition_specs@.len() == 1
    &&& md.partition_specs@[0].spec_id == 0
    &&& md.partition_specs@[0].fields@.len() == 0
    &&& md.default_spec_id == 0
    &&& md.properties@.map_values(|p: (String, String)| (p.0@, p.1@)) == seq![
        ("write.format.default"@, "parquet"@),
        ("write.metadata.delete-after-commit.enabled"@, "true"@),
        ("write.metadata.previous-versions-max"@, "1"@),
    ]
    &&& md.snapshots@.len() == 0
    &&& md.snapshot_log@.len() == 0
    &&& md.metadata_log@.len() == 0
    &&& md.current_snapshot_id is None
    &&& md.refs@.len() == 0
}

/// The metadata of a new table; see `is_initial_metadata`.
pub fn initial_metadata(table_uuid: String, location: String, schema: &Schema, now_ms: i64) -> (md: TableMetadata)
    requires
        schema@.len() < i32::MAX,
    ensures
        is_initial_metadata(md, table_uuid@, location@, schema@, now_ms),
{
    let table_schema = to_table_schema(schema, 1);
    let mut schemas: Vec<TableSchema> = Vec::new();
    schemas.push(table_schema);
    let mut partition_specs: Vec<PartitionSpec> = Vec::new();
    partition_specs.push(PartitionSpec { spec_id: 0, fields: Vec::new() });
    let mut properties: Vec<(String, String)> = Vec::new();
    properties.push((String::from_str("write.format.default"), String::from_str("parquet")));
    properties.push(
        (
            String::from_str("write.metadata.delete-after-commit.enabled"),
            String::from_str("true"),
        ),
    );
    properties.push(
        (String::from_str("write.metadata.previous-versions-max"), String::from_str("1")),
    );
    let md = TableMetadata {
        format_version: 2,
        table_uuid,
        location,
        last_updated_ms: now_ms,
        last_column_id: schema.fields.len() as i32,
        current_schema_id: 1,
        schemas,
        partition_specs,
        default_spec_id: 0,
        properties,
        snapshots: Vec::new(),
        snapshot_log: Vec::new(),
        metadata_log: Vec::new(),
        current_snapshot_id: None,
        refs: Vec::new(),
    };
    assert(md.properties@.map_values(|p: (String, String)| (p.0@, p.1@)) =~= seq![
        ("write.format.default"@, "parquet"@),
        ("write.metadata.delete-after-commit.enabled"@, "true"@),
        ("write.metadata.previous-versions-max"@, "1"@),
    ]);
    assert(md.schema_ids() =~= seq![1int]);
    assert(md.schema_ids()[0] == 1int);
    assert(md.snapshot_ids() =~= Seq::<int>::empty());
    assert(md.log_ids() =~= Seq::<int>::empty());
    md
}

/// `m` is `md` with `schema` recorded as a new schema version: the next
/// schema id (one past the largest) becomes current, the last column id is
/// the larger of the old one and the field count, the update is stamped
/// `now_ms`, and everything else is kept.
pub open spec fn schema_version_added(
    md: TableMetadata,
    m: TableMetadata,
    schema: Seq<FieldView>,
    now_ms: i64,
) -> bool {
    &&& m.wf()
    &&& m.current_schema_id == max_or(md.schema_ids(), i32::MIN as int) + 1
    &&& m.schemas@.len() == md.schemas@.len() + 1
    &&& m.schemas@.drop_last() == md.schemas@
    &&& m.schemas@.last().schema_id == m.current_schema_id
    &&& m.schemas@.last().fields_view() == table_fields(schema)
    &&& m.last_column_id == if md.last_column_id >= schema.len() {
        md.last_column_id as int
    } else {
        schema.len() as int
    }
    &&& m.last_updated_ms == now_ms
    &&& m.snapshots == md.snapshots
    &&& m.snapshot_log == md.snapshot_log
    &&& m.metadata_log == md.metadata_log
    &&& m.current_snapshot_id == md.current_snapshot_id
    &&& m.format_version == md.format_version
    &&& m.table_uuid == md.table_uuid
    &&& m.location == md.location
    &&& m.partition_specs == md.partition_specs
    &&& m.default_spec_id == md.default_spec_id
    &&& m.properties == md.properties
    &&& m.refs == md.refs
}

/// Records `schema` as a new schema version of `md`, with the next schema
/// id (one past the largest), and makes it current: the last column id
/// becomes the larger of the old one and the field count, and the update
/// is stamped `now_ms`. `Overflow` when the schema id would not fit.
pub fn add_schema_version(md: TableMetadata, schema: &Schema, now_ms: i64) -> (r: Result<TableMetadata, crate::error::RdeError>)
    requires
        md.wf(),
        schema@.len() < i32::MAX,
    ensures
        max_or(md.schema_ids(), i32::MIN as int) == i32::MAX <==> r is Err,
        r is Err ==> r == Err::<TableMetadata, crate::error::RdeError>(crate::error::RdeError::Overflow),
        r matches Ok(m) ==> schema_version_added(md, m, schema@, now_ms),
{
    let max = md.max_schema_id(i32::MIN);
    if max == i32::MAX {
        return Err(crate::error::RdeError::Overflow);
    }
    proof {
        lemma_max_or_bounds(md.schema_ids(), i32::MIN as int);
    }
    let mut m = md;
    let ghost before = m;
    let id = max + 1;
    m.schemas.push(to_table_schema(schema, id));
    m.current_schema_id = id;
    let len = schema.fields.len() as i32;
    if len > m.last_column_id {
        m.last_column_id = len;
    }
    m.last_updated_ms = now_ms;
    proof {
        assert(m.schemas@.drop_last() =~= before.schemas@);
        assert(m.schema_ids() =~= before.schema_ids().push(id as int));
        assert(m.schema_ids()[before.schema_ids().len() as int] == id as int);
        assert(m.snapshot_ids() =~= before.snapshot_ids());
        assert(m.log_ids() =~= before.log_ids());
    }
    Ok(m)
}

} // verus!
