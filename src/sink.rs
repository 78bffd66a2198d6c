//! The table-format sink's decisions: table creation and loading, batch
//! admission with schema evolution, buffering of written data files, and
//! the commit that turns them into a snapshot. Reading and writing the
//! object store is left to the caller, which writes the data file before
//! recording it, the manifest before the metadata document, and the
//! metadata document last.

use crate::batch::Message;
use crate::error::RdeError;
use crate::schema::{
    admits, find_refused, first_refusal, merge, merge_schemas, names_unique, FieldView, Schema,
};
use crate::manager::same_schema;
use crate::table::{
    all_distinct, initial_metadata, is_initial_metadata, lemma_max_or_bounds, max_or, schema_of_table,
    strictly_increasing, table_fields, to_table_schema, DataFile, Manifest, ManifestEntry,
    MetadataLogEntry, Snapshot, SnapshotLogEntry, SnapshotSummary, TableMetadata,
};
use crate::text::{i64_text, int_text};
use vstd::prelude::*;

verus! {

/// Relies on uuid's `Uuid::new_v4` and its `Display`: a fresh random
/// identifier in hyphenated form, 36 characters long.
#[verifier::external_body]
fn new_uuid() -> (r: String)
    ensures
        r@.len() == 36,
{
    uuid::Uuid::new_v4().to_string()
}

/// Relies on chrono's `Utc::now` and `timestamp_millis`: the current time in
/// milliseconds since the Unix epoch.
#[verifier::external_body]
fn now_millis() -> (r: i64) {
    chrono::Utc::now().timestamp_millis()
}

/// `{table}/metadata/metadata.json`
pub open spec fn metadata_path_of(table: Seq<char>) -> Seq<char> {
    table + "/metadata/metadata.json"@
}

/// `{bucket}/{table}`
pub open spec fn location_of(bucket: Seq<char>, table: Seq<char>) -> Seq<char> {
    bucket + "/"@ + table
}

/// `{table}/data/data-{unix_ms}-{uuid}.parquet`
pub open spec fn data_file_path_of(table: Seq<char>, unix_ms: int, id: Seq<char>) -> Seq<char> {
    table + "/data/data-"@ + int_text(unix_ms) + "-"@ + id + ".parquet"@
}

/// `{table}/metadata/{uuid}.avro`
pub open spec fn manifest_path_of(table: Seq<char>, id: Seq<char>) -> Seq<char> {
    table + "/metadata/"@ + id + ".avro"@
}

/// The sum of the files' record counts.
pub open spec fn sum_records(files: Seq<DataFile>) -> int
    decreases files.len(),
{
    if files.len() == 0 {
        0
    } else {
        sum_records(files.drop_last()) + files.last().record_count
    }
}

/// The sum of the files' sizes in bytes.
pub open spec fn sum_sizes(files: Seq<DataFile>) -> int
    decreases files.len(),
{
    if files.len() == 0 {
        0
    } else {
        sum_sizes(files.drop_last()) + files.last().file_size_in_bytes
    }
}

/// Every file has a non-negative record count and size.
pub open spec fn files_nonneg(files: Seq<DataFile>) -> bool {
    forall|i: int|
        0 <= i < files.len() ==> (#[trigger] files[i]).record_count >= 0
            && files[i].file_size_in_bytes >= 0
}

proof fn lemma_sums_grow(files: Seq<DataFile>, k: int)
    requires
        files_nonneg(files),
        0 <= k <= files.len(),
    ensures
        0 <= sum_records(files.take(k)) <= sum_records(files),
        0 <= sum_sizes(files.take(k)) <= sum_sizes(files),
    decreases files.len(),
{
    if files.len() > 0 {
        let init = files.drop_last();
        assert(files_nonneg(init)) by {
            assert forall|i: int| 0 <= i < init.len() implies (#[trigger] init[i]).record_count >= 0
                && init[i].file_size_in_bytes >= 0 by {
                assert(init[i] == files[i]);
            }
        }
        assert(files[files.len() - 1] == files.last());
        if k == files.len() {
            assert(files.take(k) =~= files);
            lemma_sums_grow(init, init.len() as int);
            assert(init.take(init.len() as int) =~= init);
        } else {
            assert(files.take(k) =~= init.take(k));
            lemma_sums_grow(init, k);
        }
    }
}

/// What a successful commit hands back: where the manifest goes and what
/// it holds.
#[derive(Debug, PartialEq, Eq)]
pub struct Commit {
    pub manifest_path: String,
    pub manifest: Manifest,
}

/// The table-format sink.
pub struct IcebergSink {
    id: String,
    schema: Schema,
    table_name: String,
    bucket: String,
    endpoint: String,
    access_key: String,
    secret_key: String,
    region: String,
    auto_schema_evolution: bool,
    table_metadata: Option<TableMetadata>,
    current_snapshot_id: i64,
    data_files: Vec<DataFile>,
    schema_changed: bool,
}

impl IcebergSink {
    /// The sink's schema: the declared one, or the table's once loaded,
    /// widened by admitted batches.
    pub closed spec fn sink_schema(&self) -> Seq<FieldView> {
        self.schema@
    }

    /// The table name.
    pub closed spec fn table(&self) -> Seq<char> {
        self.table_name@
    }

    /// The bucket name.
    pub closed spec fn bucket_name(&self) -> Seq<char> {
        self.bucket@
    }

    /// The operator id.
    pub closed spec fn sink_id(&self) -> Seq<char> {
        self.id@
    }

    /// The endpoint, credentials and region.
    pub closed spec fn store_views(&self) -> (Seq<char>, Seq<char>, Seq<char>, Seq<char>) {
        (self.endpoint@, self.access_key@, self.secret_key@, self.region@)
    }

    /// The metadata in memory, once created or loaded.
    pub closed spec fn metadata(&self) -> Option<TableMetadata> {
        self.table_metadata
    }

    /// The id the next snapshot gets.
    pub closed spec fn next_snapshot_id(&self) -> i64 {
        self.current_snapshot_id
    }

    /// Data files written since the last commit.
    pub closed spec fn pending(&self) -> Seq<DataFile> {
        self.data_files@
    }

    /// Whether batches may widen the schema.
    pub closed spec fn evolving(&self) -> bool {
        self.auto_schema_evolution
    }

    /// Whether the schema widened since the last commit.
    pub closed spec fn schema_dirty(&self) -> bool {
        self.schema_changed
    }

    /// The sink's invariants: a valid schema whose field ids fit, valid
    /// metadata whose snapshot ids are all below the next one, and buffered
    /// files with non-negative counts.
    pub closed spec fn wf(&self) -> bool {
        &&& self.schema.wf()
        &&& self.schema@.len() < i32::MAX
        &&& (self.table_metadata matches Some(md) ==> {
            &&& md.wf()
            &&& forall|i: int|
                0 <= i < md.snapshot_ids().len() ==> #[trigger] md.snapshot_ids()[i]
                    < self.current_snapshot_id
        })
        &&& files_nonneg(self.data_files@)
    }

    /// A sink with no table yet, whose first snapshot will get id 1.
    pub fn new(
        id: String,
        schema: Schema,
        table_name: String,
        bucket: String,
        endpoint: String,
        access_key: String,
        secret_key: String,
        region: String,
    ) -> (r: IcebergSink)
        requires
            schema.wf(),
            schema@.len() < i32::MAX,
        ensures
            r.wf(),
            r.sink_id() == id@,
            r.sink_schema() == schema@,
            r.table() == table_name@,
            r.bucket_name() == bucket@,
            r.store_views() == (endpoint@, access_key@, secret_key@, region@),
            r.metadata() is None,
            r.next_snapshot_id() == 1,
            r.pending().len() == 0,
            !r.evolving(),
            !r.schema_dirty(),
    {
        IcebergSink {
            id,
            schema,
            table_name,
            bucket,
            endpoint,
            access_key,
            secret_key,
            region,
            auto_schema_evolution: false,
            table_metadata: None,
            current_snapshot_id: 1,
            data_files: Vec::new(),
            schema_changed: false,
        }
    }

    /// Lets admitted batches widen the table schema.
    pub fn with_schema_evolution(self, enabled: bool) -> (r: IcebergSink)
        ensures
            r.evolving() == enabled,
            r.wf() == self.wf(),
            r.sink_id() == self.sink_id(),
            r.sink_schema() == self.sink_schema(),
            r.table() == self.table(),
            r.bucket_name() == self.bucket_name(),
            r.metadata() == self.metadata(),
            r.next_snapshot_id() == self.next_snapshot_id(),
            r.pending() == self.pending(),
            r.schema_dirty() == self.schema_dirty(),
    {
        let mut s = self;
        s.auto_schema_evolution = enabled;
        s
    }

    /// The operator id.
    pub fn name(&self) -> (r: &str)
        ensures
            r@ == self.sink_id(),
    {
        self.id.as_str()
    }

    /// The sink's current schema.
    pub fn schema(&self) -> (r: Schema)
        ensures
            r@ == self.sink_schema(),
    {
        self.schema.copy()
    }

    /// The endpoint, credentials and region the object store is reached
    /// with, in that order.
    pub fn store_settings(&self) -> (r: (&str, &str, &str, &str))
        ensures
            (r.0@, r.1@, r.2@, r.3@) == self.store_views(),
    {
        (self.endpoint.as_str(), self.access_key.as_str(), self.secret_key.as_str(), self.region.as_str())
    }

    /// The bucket name.
    pub fn bucket(&self) -> (r: &str)
        ensures
            r@ == self.bucket_name(),
    {
        self.bucket.as_str()
    }

    /// The metadata in memory, once created or loaded.
    pub fn table_metadata(&self) -> (r: Option<&TableMetadata>)
        ensures
            r is None <==> self.metadata() is None,
            r is Some ==> *r->0 == self.metadata()->0,
    {
        match &self.table_metadata {
            Some(md) => Some(md),
            None => None,
        }
    }

    /// Whether buffered data files await a commit.
    pub fn has_pending(&self) -> (r: bool)
        ensures
            r == (self.pending().len() > 0),
    {
        self.data_files.len() > 0
    }

    /// The key of the metadata document.
    pub fn metadata_path(&self) -> (r: String)
        ensures
            r@ == metadata_path_of(self.table()),
    {
        let mut s = self.table_name.clone();
        s.append("/metadata/metadata.json");
        s
    }

    /// The table's canonical location.
    pub fn location(&self) -> (r: String)
        ensures
            r@ == location_of(self.bucket_name(), self.table()),
    {
        let mut s = self.bucket.clone();
        s.append("/");
        s.append(self.table_name.as_str());
        s
    }
}

/// The key of a data file written at `unix_ms` under identifier `id`.
pub fn data_file_path(table: &str, unix_ms: i64, id: &str) -> (r: String)
    ensures
        r@ == data_file_path_of(table@, unix_ms as int, id@),
{
    let mut s = String::from_str(table);
    s.append("/data/data-");
    let ms = i64_text(unix_ms);
    s.append(ms.as_str());
    s.append("-");
    s.append(id);
    s.append(".parquet");
    s
}

/// The key of the manifest written under identifier `id`.
pub fn manifest_path(table: &str, id: &str) -> (r: String)
    ensures
        r@ == manifest_path_of(table@, id@),
{
    let mut s = String::from_str(table);
    s.append("/metadata/");
    s.append(id);
    s.append(".avro");
    s
}

impl IcebergSink {
    /// The settings no operation changes: id, table, bucket, store settings
    /// and the evolution switch.
    pub closed spec fn same_settings(&self, other: &IcebergSink) -> bool {
        &&& self.id == other.id
        &&& self.table_name == other.table_name
        &&& self.bucket == other.bucket
        &&& self.endpoint == other.endpoint
        &&& self.access_key == other.access_key
        &&& self.secret_key == other.secret_key
        &&& self.region == other.region
        &&& self.auto_schema_evolution == other.auto_schema_evolution
    }

    /// Installs the metadata of a new table: format version 2, the given
    /// identifier, location `{bucket}/{table}`, the sink's schema as schema
    /// 0 with field ids from 1, one unpartitioned spec 0, the default write
    /// properties, and no snapshots. The next snapshot gets id 1.
    pub fn init_table_metadata(&mut self, table_uuid: String, now_ms: i64)
        requires
            old(self).wf(),
        ensures
            final(self).wf(),
            final(self).same_settings(old(self)),
            final(self).sink_schema() == old(self).sink_schema(),
            final(self).pending() == old(self).pending(),
            final(self).next_snapshot_id() == 1,
            !final(self).schema_dirty(),
            final(self).metadata() matches Some(md) && is_initial_metadata(
                md,
                table_uuid@,
                location_of(old(self).bucket_name(), old(self).table()),
                old(self).sink_schema(),
                now_ms,
            ),
    {
        let md = initial_metadata(table_uuid, self.location(), &self.schema, now_ms);
        self.table_metadata = Some(md);
        self.current_snapshot_id = 1;
        self.schema_changed = false;
    }

    /// Creates the metadata of a new table under a fresh identifier, stamped
    /// with the current time; see `init_table_metadata`.
    pub fn create_new_table_metadata(&mut self)
        requires
            old(self).wf(),
        ensures
            final(self).wf(),
            final(self).same_settings(old(self)),
            final(self).sink_schema() == old(self).sink_schema(),
            final(self).pending() == old(self).pending(),
            final(self).next_snapshot_id() == 1,
            !final(self).schema_dirty(),
            final(self).metadata() is Some,
            exists|id: Seq<char>, now_ms: i64|
                id.len() == 36 && #[trigger] is_initial_metadata(
                    final(self).metadata()->0,
                    id,
                    location_of(old(self).bucket_name(), old(self).table()),
                    old(self).sink_schema(),
                    now_ms,
                ),
    {
        let table_uuid = new_uuid();
        let now = now_millis();
        let ghost id = table_uuid@;
        self.init_table_metadata(table_uuid, now);
        assert(id.len() == 36 && is_initial_metadata(
            self.metadata()->0,
            id,
            location_of(old(self).bucket_name(), old(self).table()),
            old(self).sink_schema(),
            now,
        ));
    }

    /// Adopts the metadata read from an existing table. It must satisfy the
    /// layout's invariants and its current schema must have distinct names
    /// (else `InvalidMetadata`); the next snapshot id is one past the
    /// largest stored one, or 1 (else `Overflow`). The sink's schema becomes
    /// the table's current schema. On error nothing changes.
    pub fn load_table_metadata(&mut self, md: TableMetadata) -> (r: Result<(), RdeError>)
        requires
            old(self).wf(),
        ensures
            final(self).wf(),
            final(self).same_settings(old(self)),
            final(self).pending() == old(self).pending(),
            r is Ok <==> {
                &&& md.wf()
                &&& names_unique(
                    schema_of_table(md.schemas@[md.current_schema_index()].fields_view()),
                )
                &&& md.schemas@[md.current_schema_index()].fields@.len() < i32::MAX
                &&& max_or(md.snapshot_ids(), 0) < i64::MAX
            },
            r is Err ==> *final(self) == *old(self),
            r matches Err(e) ==> (e is InvalidMetadata || e is Overflow),
            r == Err::<(), RdeError>(RdeError::Overflow) ==> md.wf(),
            r is Ok ==> {
                &&& final(self).metadata() == Some(md)
                &&& final(self).sink_schema() == schema_of_table(
                    md.schemas@[md.current_schema_index()].fields_view(),
                )
                &&& final(self).next_snapshot_id() == max_or(md.snapshot_ids(), 0) + 1
                &&& !final(self).schema_dirty()
            },
    {
        if !md.check() {
            return Err(RdeError::InvalidMetadata);
        }
        let k = md.find_current_schema();
        if md.schemas[k].fields.len() >= i32::MAX as usize {
            return Err(RdeError::InvalidMetadata);
        }
        let schema = match crate::table::from_table_schema(&md.schemas[k]) {
            Some(s) => s,
            None => {
                return Err(RdeError::InvalidMetadata);
            },
        };
        let max = md.max_snapshot_id(0);
        if max == i64::MAX {
            return Err(RdeError::Overflow);
        }
        proof {
            lemma_max_or_bounds(md.snapshot_ids(), 0);
            assert(md.schemas@[k as int].fields_view().len() == md.schemas@[k as int].fields@.len());
        }
        self.schema = schema;
        self.table_metadata = Some(md);
        self.current_snapshot_id = max + 1;
        self.schema_changed = false;
        Ok(())
    }

    /// Admits a batch's schema. A field is refused (`SchemaMismatch` with
    /// its name, the first such field) when the sink's schema has that name
    /// with a type it cannot meet, or, without evolution, with a narrower
    /// type. With evolution the sink's schema becomes its merge with the
    /// batch's schema (`Overflow` if that has too many fields for field
    /// ids), and, once a table exists, is recorded as a new schema version
    /// at the next commit; before that it is the schema the table will be
    /// created with. Without evolution, fields the sink's schema lacks are
    /// ignored. On error nothing changes.
    pub fn admit_batch(&mut self, batch: &Schema) -> (r: Result<(), RdeError>)
        requires
            old(self).wf(),
            batch.wf(),
        ensures
            final(self).wf(),
            r is Err ==> *final(self) == *old(self),
            !admits(old(self).sink_schema(), batch@, old(self).evolving()) ==> exists|j: int|
                first_refusal(old(self).sink_schema(), batch@, old(self).evolving(), j) && (r matches Err(
                    RdeError::SchemaMismatch(n),
                ) && n@ == batch@[j].0),
            admits(old(self).sink_schema(), batch@, old(self).evolving()) && old(self).evolving()
                && merge(old(self).sink_schema(), batch@).len() >= i32::MAX ==> r == Err::<
                (),
                RdeError,
            >(RdeError::Overflow),
            admits(old(self).sink_schema(), batch@, old(self).evolving()) && !(old(self).evolving()
                && merge(old(self).sink_schema(), batch@).len() >= i32::MAX) ==> {
                &&& r is Ok
                &&& final(self).same_settings(old(self))
                &&& final(self).metadata() == old(self).metadata()
                &&& final(self).next_snapshot_id() == old(self).next_snapshot_id()
                &&& final(self).pending() == old(self).pending()
                &&& final(self).sink_schema() == if old(self).evolving() {
                    merge(old(self).sink_schema(), batch@)
                } else {
                    old(self).sink_schema()
                }
                &&& final(self).schema_dirty() == (old(self).schema_dirty() || (old(self).evolving()
                    && old(self).metadata() is Some && merge(old(self).sink_schema(), batch@)
                    != old(self).sink_schema()))
            },
    {
        let j = find_refused(&self.schema, batch, self.auto_schema_evolution);
        if j < batch.fields.len() {
            assert(batch@[j as int].0 == batch.fields@[j as int].name@);
            return Err(RdeError::SchemaMismatch(batch.fields[j].name.clone()));
        }
        if self.auto_schema_evolution {
            let merged = merge_schemas(&self.schema, batch);
            if merged.fields.len() >= i32::MAX as usize {
                return Err(RdeError::Overflow);
            }
            if !same_schema(&merged, &self.schema) {
                self.schema = merged;
                if self.table_metadata.is_some() {
                    self.schema_changed = true;
                }
            }
        }
        Ok(())
    }

    /// Records a data file the caller has written: content 0, format
    /// `PARQUET`, the given path, size and record count.
    pub fn record_data_file(&mut self, file_path: String, file_size: i64, record_count: i64)
        requires
            old(self).wf(),
            file_size >= 0,
            record_count >= 0,
        ensures
            final(self).wf(),
            final(self).same_settings(old(self)),
            final(self).sink_schema() == old(self).sink_schema(),
            final(self).metadata() == old(self).metadata(),
            final(self).next_snapshot_id() == old(self).next_snapshot_id(),
            final(self).schema_dirty() == old(self).schema_dirty(),
            final(self).pending().len() == old(self).pending().len() + 1,
            final(self).pending().drop_last() == old(self).pending(),
            final(self).pending().last().content == 0,
            final(self).pending().last().file_path == file_path,
            final(self).pending().last().file_format@ == "PARQUET"@,
            final(self).pending().last().file_size_in_bytes == file_size,
            final(self).pending().last().record_count == record_count,
    {
        let df = DataFile {
            content: 0,
            file_path,
            file_format: String::from_str("PARQUET"),
            record_count,
            file_size_in_bytes: file_size,
        };
        self.data_files.push(df);
        assert(self.data_files@.drop_last() =~= old(self).data_files@);
    }

    /// The key for the next data file: the table's data directory, the
    /// current time and a fresh identifier.
    pub fn next_data_file_path(&self) -> (r: String)
        ensures
            exists|ms: int, id: Seq<char>|
                id.len() == 36 && r@ == data_file_path_of(self.table(), ms, id),
    {
        let id = new_uuid();
        let now = now_millis();
        let r = data_file_path(self.table_name.as_str(), now, id.as_str());
        assert(id@.len() == 36 && r@ == data_file_path_of(self.table(), now as int, id@));
        r
    }
}

/// Whether a commit of `files` as snapshot `next_id` into `md` would
/// overflow a count, a sum, the snapshot id or, when the schema widened,
/// the schema id.
pub open spec fn commit_overflows(files: Seq<DataFile>, next_id: i64, md: TableMetadata, dirty: bool) -> bool {
    ||| files.len() > i32::MAX
    ||| sum_records(files) > i64::MAX
    ||| sum_sizes(files) > i64::MAX
    ||| next_id == i64::MAX
    ||| (dirty && max_or(md.schema_ids(), i32::MIN as int) >= i32::MAX)
}

/// The state after a commit of `old`'s buffered files as snapshot
/// `old.next_snapshot_id()`, stamped `now_ms`, with manifest identifier
/// `manifest_id`.
pub open spec fn committed(
    old: IcebergSink,
    new: IcebergSink,
    c: Commit,
    manifest_id: Seq<char>,
    now_ms: i64,
) -> bool {
    let md0 = old.metadata()->0;
    let md = new.metadata()->0;
    let id = old.next_snapshot_id();
    let files = old.pending();
    let sid = md.current_schema_id;
    let snap = md.snapshots@.last();
    &&& new.metadata() is Some
    &&& md.wf()
    &&& new.pending().len() == 0
    &&& new.next_snapshot_id() == id + 1
    &&& !new.schema_dirty()
    &&& c.manifest_path@ == manifest_path_of(old.table(), manifest_id)
    &&& (if old.schema_dirty() {
        &&& sid == max_or(md0.schema_ids(), i32::MIN as int) + 1
        &&& md.schemas@.len() == md0.schemas@.len() + 1
        &&& md.schemas@.drop_last() == md0.schemas@
        &&& md.schemas@.last().schema_id == sid
        &&& md.schemas@.last().fields_view() == table_fields(old.sink_schema())
        &&& md.last_column_id == if md0.last_column_id >= old.sink_schema().len() {
            md0.last_column_id as int
        } else {
            old.sink_schema().len() as int
        }
    } else {
        &&& md.schemas == md0.schemas
        &&& sid == md0.current_schema_id
        &&& md.last_column_id == md0.last_column_id
    })
    &&& md.snapshots@.len() == md0.snapshots@.len() + 1
    &&& md.snapshots@.drop_last() == md0.snapshots@
    &&& snap.snapshot_id == id
    &&& snap.parent_snapshot_id == md0.current_snapshot_id
    &&& snap.sequence_number == id
    &&& snap.timestamp_ms == now_ms
    &&& snap.manifest_list == c.manifest_path
    &&& snap.schema_id == sid
    &&& snap.summary.operation@ == "append"@
    &&& snap.summary.added_data_files == files.len()
    &&& snap.summary.deleted_data_files == 0
    &&& snap.summary.total_records == sum_records(files)
    &&& snap.summary.added_records == sum_records(files)
    &&& snap.summary.deleted_records == 0
    &&& snap.summary.added_files_size == sum_sizes(files)
    &&& snap.summary.deleted_files_size == 0
    &&& md.current_snapshot_id == Some(id)
    &&& md.snapshot_log@.len() == md0.snapshot_log@.len() + 1
    &&& md.snapshot_log@.drop_last() == md0.snapshot_log@
    &&& md.snapshot_log@.last() == SnapshotLogEntry { timestamp_ms: now_ms, snapshot_id: id }
    &&& md.metadata_log@.len() == md0.metadata_log@.len() + 1
    &&& md.metadata_log@.drop_last() == md0.metadata_log@
    &&& md.metadata_log@.last().timestamp_ms == now_ms
    &&& md.metadata_log@.last().metadata_file@ == metadata_path_of(old.table())
    &&& md.last_updated_ms == now_ms
    &&& md.format_version == md0.format_version
    &&& md.table_uuid == md0.table_uuid
    &&& md.location == md0.location
    &&& md.partition_specs == md0.partition_specs
    &&& md.default_spec_id == md0.default_spec_id
    &&& md.properties == md0.properties
    &&& md.refs == md0.refs
    &&& c.manifest.schema_id == sid
    &&& c.manifest.schema.schema_id == sid
    &&& c.manifest.schema.fields_view() == md.schemas@[md.current_schema_index()].fields_view()
    &&& c.manifest.partition_spec_id == md0.default_spec_id
    &&& c.manifest.content == 0
    &&& c.manifest.sequence_number == id
    &&& c.manifest.min_sequence_number == id
    &&& c.manifest.entries@.len() == files.len()
    &&& forall|i: int|
        0 <= i < files.len() ==> {
            &&& (#[trigger] c.manifest.entries@[i]).status == 2
            &&& c.manifest.entries@[i].snapshot_id == id
            &&& c.manifest.entries@[i].data_file == files[i]
        }
}

impl IcebergSink {
    /// Commits the buffered data files as one append snapshot. With nothing
    /// buffered it does nothing and returns `None`. Otherwise it records a
    /// new schema version if the schema widened, builds the manifest of the
    /// buffered files stamped with the next snapshot id, adds the snapshot
    /// (parent: the current one) with its summary, extends the snapshot and
    /// metadata logs, makes it current, advances the snapshot id and clears
    /// the buffer. The caller writes the returned manifest, then the
    /// metadata document. `Overflow`, changing nothing, when a count, a sum
    /// or an id would not fit.
    pub fn commit(&mut self, manifest_id: &str, now_ms: i64) -> (r: Result<Option<Commit>, RdeError>)
        requires
            old(self).wf(),
        ensures
            final(self).wf(),
            final(self).same_settings(old(self)),
            final(self).sink_schema() == old(self).sink_schema(),
            old(self).metadata() is None || old(self).pending().len() == 0 ==> r == Ok::<
                Option<Commit>,
                RdeError,
            >(None) && *final(self) == *old(self),
            r is Err <==> old(self).metadata() is Some && old(self).pending().len() > 0
                && commit_overflows(
                old(self).pending(),
                old(self).next_snapshot_id(),
                old(self).metadata()->0,
                old(self).schema_dirty(),
            ),
            r is Err ==> r == Err::<Option<Commit>, RdeError>(RdeError::Overflow) && *final(self)
                == *old(self),
            old(self).metadata() is Some && old(self).pending().len() > 0 && r is Ok ==> (r matches Ok(
                Some(c),
            ) && committed(*old(self), *final(self), c, manifest_id@, now_ms)),
    {
        if self.table_metadata.is_none() {
            return Ok(None);
        }
        let n = self.data_files.len();
        if n == 0 {
            return Ok(None);
        }
        if n > i32::MAX as usize {
            return Err(RdeError::Overflow);
        }
        let ghost files = self.data_files@;
        let mut records: i64 = 0;
        let mut bytes: i64 = 0;
        let mut i: usize = 0;
        while i < n
            invariant
                n == files.len(),
                files == self.data_files@,
                self.wf(),
                *self == *old(self),
                old(self).metadata() is Some,
                files_nonneg(files),
                i <= n,
                records == sum_records(files.take(i as int)),
                bytes == sum_sizes(files.take(i as int)),
            decreases n - i,
        {
            proof {
                assert(files.take(i as int + 1).drop_last() =~= files.take(i as int));
                assert(files.take(i as int + 1).last() == files[i as int]);
                lemma_sums_grow(files, i as int + 1);
            }
            let df = &self.data_files[i];
            match records.checked_add(df.record_count) {
                Some(x) => {
                    records = x;
                },
                None => {
                    return Err(RdeError::Overflow);
                },
            }
            match bytes.checked_add(df.file_size_in_bytes) {
                Some(x) => {
                    bytes = x;
                },
                None => {
                    return Err(RdeError::Overflow);
                },
            }
            i = i + 1;
        }
        assert(files.take(n as int) =~= files);
        if self.current_snapshot_id == i64::MAX {
            return Err(RdeError::Overflow);
        }
        let id = self.current_snapshot_id;
        let md_view = self.table_metadata.as_ref().unwrap();
        let new_schema_id: i32 = if self.schema_changed {
            let m = md_view.max_schema_id(i32::MIN);
            if m == i32::MAX {
                return Err(RdeError::Overflow);
            }
            m + 1
        } else {
            md_view.current_schema_id
        };
        // No failure from here on.
        let mut md = self.table_metadata.take().unwrap();
        let ghost md0 = md;
        proof {
            lemma_max_or_bounds(md0.schema_ids(), i32::MIN as int);
        }
        if self.schema_changed {
            md.schemas.push(to_table_schema(&self.schema, new_schema_id));
            assert(md.schemas@.drop_last() =~= md0.schemas@);
            md.current_schema_id = new_schema_id;
            let len = self.schema.fields.len() as i32;
            if len > md.last_column_id {
                md.last_column_id = len;
            }
        }
        let k = md.find_current_schema_after(Ghost(md0), self.schema_changed);
        let manifest_schema = md.schemas[k].copy();
        let path = manifest_path(self.table_name.as_str(), manifest_id);
        // Move the buffered files into the manifest's entries.
        let mut pending: Vec<DataFile> = Vec::new();
        std::mem::swap(&mut pending, &mut self.data_files);
        let mut entries: Vec<ManifestEntry> = Vec::new();
        let ghost all = pending@;
        while pending.len() > 0
            invariant
                all == files,
                entries@.len() + pending@.len() == all.len(),
                pending@ == all.skip(entries@.len() as int),
                forall|j: int|
                    0 <= j < entries@.len() ==> {
                        &&& (#[trigger] entries@[j]).status == 2
                        &&& entries@[j].snapshot_id == id
                        &&& entries@[j].data_file == all[j]
                    },
            decreases pending@.len(),
        {
            let ghost before = entries@.len();
            let df = pending.remove(0);
            assert(df == all[before as int]);
            entries.push(ManifestEntry { status: 2, snapshot_id: id, data_file: df });
            assert(pending@ =~= all.skip(entries@.len() as int));
        }
        let summary = SnapshotSummary {
            operation: String::from_str("append"),
            added_data_files: n as i32,
            deleted_data_files: 0,
            total_records: records,
            added_records: records,
            deleted_records: 0,
            added_files_size: bytes,
            deleted_files_size: 0,
        };
        let snapshot = Snapshot {
            snapshot_id: id,
            parent_snapshot_id: md.current_snapshot_id,
            sequence_number: id,
            timestamp_ms: now_ms,
            manifest_list: path.clone(),
            summary,
            schema_id: md.current_schema_id,
        };
        md.snapshots.push(snapshot);
        md.current_snapshot_id = Some(id);
        md.last_updated_ms = now_ms;
        md.snapshot_log.push(SnapshotLogEntry { timestamp_ms: now_ms, snapshot_id: id });
        md.metadata_log.push(
            MetadataLogEntry { timestamp_ms: now_ms, metadata_file: self.metadata_path() },
        );
        let manifest = Manifest {
            schema_id: md.current_schema_id,
            schema: manifest_schema,
            partition_spec_id: md.default_spec_id,
            content: 0,
            sequence_number: id,
            min_sequence_number: id,
            entries,
        };
        proof {
            assert(md.snapshots@.drop_last() =~= md0.snapshots@);
            assert(md.snapshot_log@.drop_last() =~= md0.snapshot_log@);
            assert(md.metadata_log@.drop_last() =~= md0.metadata_log@);
            assert(md.snapshot_ids() =~= md0.snapshot_ids().push(id as int));
            assert(md.log_ids() =~= md0.log_ids().push(id as int));
            assert(md.snapshot_ids()[md0.snapshot_ids().len() as int] == id as int);
            assert forall|a: int| 0 <= a < md0.log_ids().len() implies md0.log_ids()[a] < id by {
                assert(md0.snapshot_ids().contains(md0.log_ids()[a]));
            }
            assert forall|a: int| 0 <= a < md.log_ids().len() implies md.snapshot_ids().contains(
                #[trigger] md.log_ids()[a],
            ) by {
                if a < md0.log_ids().len() {
                    let w = choose|w: int| 0 <= w < md0.snapshot_ids().len() && md0.snapshot_ids()[w] == md0.log_ids()[a];
                    assert(md.snapshot_ids()[w] == md0.snapshot_ids()[w]);
                } else {
                    assert(md.log_ids()[a] == id as int);
                }
            }
            assert forall|a: int| 0 <= a < md.snapshot_ids().len() implies #[trigger] md.snapshot_ids()[a]
                < id + 1 by {
                if a < md0.snapshot_ids().len() {
                    assert(md.snapshot_ids()[a] == md0.snapshot_ids()[a]);
                }
            }
            if self.schema_changed {
                assert(md.schemas@.drop_last() =~= md0.schemas@);
            }
        }
        self.table_metadata = Some(md);
        self.current_snapshot_id = id + 1;
        self.schema_changed = false;
        Ok(Some(Commit { manifest_path: path, manifest }))
    }

    /// Commits under a fresh manifest identifier at the current time; see
    /// `commit`.
    pub fn commit_now(&mut self) -> (r: Result<Option<Commit>, RdeError>)
        requires
            old(self).wf(),
        ensures
            final(self).wf(),
            final(self).same_settings(old(self)),
            final(self).sink_schema() == old(self).sink_schema(),
            old(self).metadata() is None || old(self).pending().len() == 0 ==> r == Ok::<
                Option<Commit>,
                RdeError,
            >(None) && *final(self) == *old(self),
            r is Err <==> old(self).metadata() is Some && old(self).pending().len() > 0
                && commit_overflows(
                old(self).pending(),
                old(self).next_snapshot_id(),
                old(self).metadata()->0,
                old(self).schema_dirty(),
            ),
            old(self).metadata() is Some && old(self).pending().len() > 0 && r is Ok ==> (r matches Ok(
                Some(c),
            ) && exists|id: Seq<char>, now_ms: i64|
                id.len() == 36 && committed(*old(self), *final(self), c, id, now_ms)),
    {
        let id = new_uuid();
        let now = now_millis();
        let r = self.commit(id.as_str(), now);
        proof {
            if old(self).metadata() is Some && old(self).pending().len() > 0 && r is Ok {
                assert(id@.len() == 36 && committed(*old(self), *final(self), r->Ok_0->0, id@, now));
            }
        }
        r
    }
}

impl TableMetadata {
    /// Finds the current schema after a commit's schema step: the pushed
    /// schema when one was added, else the one found before.
    fn find_current_schema_after(&self, before: Ghost<TableMetadata>, added: bool) -> (r: usize)
        requires
            before@.wf(),
            added ==> {
                &&& self.schemas@.drop_last() == before@.schemas@
                &&& self.schemas@.len() == before@.schemas@.len() + 1
                &&& self.current_schema_id == self.schemas@.last().schema_id
                &&& self.current_schema_id as int > max_or(before@.schema_ids(), i32::MIN as int)
            },
            !added ==> self.schemas == before@.schemas && self.current_schema_id
                == before@.current_schema_id,
        ensures
            r < self.schemas@.len(),
            self.schemas@[r as int].schema_id == self.current_schema_id,
            r == self.current_schema_index(),
            all_distinct(self.schema_ids()),
            self.schema_ids().contains(self.current_schema_id as int),
    {
        proof {
            lemma_max_or_bounds(before@.schema_ids(), i32::MIN as int);
            if added {
                assert(self.schema_ids() =~= before@.schema_ids().push(self.current_schema_id as int));
                assert(self.schema_ids()[before@.schema_ids().len() as int] == self.current_schema_id as int);
            } else {
                assert(self.schema_ids() =~= before@.schema_ids());
            }
        }
        let mut i: usize = 0;
        while i < self.schemas.len()
            invariant
                i <= self.schemas@.len(),
                all_distinct(self.schema_ids()),
                self.schema_ids().contains(self.current_schema_id as int),
                forall|j: int| 0 <= j < i ==> self.schemas@[j].schema_id != self.current_schema_id,
            decreases self.schemas@.len() - i,
        {
            if self.schemas[i].schema_id == self.current_schema_id {
                proof {
                    let k = self.current_schema_index();
                    assert(self.schema_ids()[k] == self.schema_ids()[i as int]);
                }
                return i;
            }
            i = i + 1;
        }
        proof {
            let k = choose|k: int| 0 <= k < self.schema_ids().len() && self.schema_ids()[k] == self.current_schema_id as int;
            assert(self.schemas@[k].schema_id == self.current_schema_id);
        }
        0
    }
}

/// After a commit the current snapshot is stored, its manifest list is the
/// manifest the commit hands out, that manifest lists exactly the files
/// recorded since the previous commit, and snapshot ids still strictly
/// increase along the snapshot log.
pub proof fn lemma_commit_names_written_files(
    old: IcebergSink,
    new: IcebergSink,
    c: Commit,
    manifest_id: Seq<char>,
    now_ms: i64,
)
    requires
        committed(old, new, c, manifest_id, now_ms),
    ensures
        ({
            let md = new.metadata()->0;
            &&& md.current_snapshot_id matches Some(id) && exists|i: int|
                0 <= i < md.snapshots@.len() && md.snapshots@[i].snapshot_id == id
                    && md.snapshots@[i].manifest_list == c.manifest_path
            &&& c.manifest.entries@.len() == old.pending().len()
            &&& forall|j: int|
                0 <= j < old.pending().len() ==> (#[trigger] c.manifest.entries@[j]).data_file.file_path
                    == old.pending()[j].file_path
            &&& strictly_increasing(md.log_ids())
        }),
{
    let md = new.metadata()->0;
    let i = md.snapshots@.len() - 1;
    assert(md.snapshots@[i] == md.snapshots@.last());
}

/// What reaches the sink: a message of one of the three kinds, or the
/// cancellation of the pipeline (a channel closed before its end of stream
/// counts as cancellation).
#[derive(Debug, Clone, Copy, PartialEq, Eq, Structural)]
pub enum SinkEvent {
    Batch,
    Watermark,
    Eos,
    Cancelled,
}

/// What the sink does next.
#[derive(Debug, Clone, Copy, PartialEq, Eq, Structural)]
pub enum SinkStep {
    /// Reach the store and load the table, or create it; then take the
    /// same event again.
    OpenTable,
    /// Write the batch as a data file and record it.
    WriteBatch,
    /// Commit what is buffered.
    Commit,
    /// Commit what is buffered, then stop.
    CommitAndStop,
    /// Stop without touching the store.
    Stop,
}

impl SinkEvent {
    /// The event a message is.
    pub fn of(msg: &Message) -> (r: SinkEvent)
        ensures
            r == match msg {
                Message::Batch(_) => SinkEvent::Batch,
                Message::Watermark(_) => SinkEvent::Watermark,
                Message::Eos => SinkEvent::Eos,
            },
    {
        match msg {
            Message::Batch(_) => SinkEvent::Batch,
            Message::Watermark(_) => SinkEvent::Watermark,
            Message::Eos => SinkEvent::Eos,
        }
    }
}

/// The sink's lifecycle: the table is reached on the first message, and a
/// cancellation before that touches nothing; then a batch is written, a
/// watermark commits, and the end of stream or a cancellation commits a
/// last time and stops.
pub open spec fn lifecycle(has_table: bool, event: SinkEvent) -> SinkStep {
    if !has_table {
        if event == SinkEvent::Cancelled {
            SinkStep::Stop
        } else {
            SinkStep::OpenTable
        }
    } else {
        match event {
            SinkEvent::Batch => SinkStep::WriteBatch,
            SinkEvent::Watermark => SinkStep::Commit,
            _ => SinkStep::CommitAndStop,
        }
    }
}

impl IcebergSink {
    /// The next step for an event; see `lifecycle`.
    pub fn next_step(&self, event: SinkEvent) -> (r: SinkStep)
        ensures
            r == lifecycle(self.metadata() is Some, event),
    {
        if self.table_metadata.is_none() {
            match event {
                SinkEvent::Cancelled => SinkStep::Stop,
                _ => SinkStep::OpenTable,
            }
        } else {
            match event {
                SinkEvent::Batch => SinkStep::WriteBatch,
                SinkEvent::Watermark => SinkStep::Commit,
                _ => SinkStep::CommitAndStop,
            }
        }
    }
}

} // verus!
