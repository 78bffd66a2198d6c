use rde::error::RdeError;
use rde::schema::{DataType, Field, Schema};
use rde::batch::Message;
use rde::sink::{data_file_path, manifest_path, IcebergSink, SinkEvent, SinkStep};
use rde::table::{to_table_schema, TableMetadata};

fn field(name: &str, t: DataType) -> Field {
    Field::new(name.to_string(), t, true)
}

fn sink(schema: Schema) -> IcebergSink {
    IcebergSink::new(
        "sink".to_string(),
        schema,
        "orders".to_string(),
        "lake".to_string(),
        "http://localhost:9000".to_string(),
        "key".to_string(),
        "SECRET-REDACTED".to_string(),
        "us-east-1".to_string(),
    )
}

fn field_names(md: &TableMetadata, i: usize) -> Vec<(i32, String, String, bool)> {
    md.schemas[i]
        .fields
        .iter()
        .map(|f| (f.id, f.name.clone(), f.field_type.clone(), f.required))
        .collect()
}

#[test]
fn new_table_metadata_layout() {
    let mut s = sink(Schema { fields: vec![Field::new("id".to_string(), DataType::Int64, false)] });
    s.init_table_metadata("u-1".to_string(), 1000);
    let md = s.table_metadata().unwrap();
    assert_eq!(md.format_version, 2);
    assert_eq!(md.location, "lake/orders");
    assert_eq!(md.current_schema_id, 1);
    assert_eq!(md.schemas[0].schema_id, 1);
    assert_eq!(md.last_column_id, 1);
    assert_eq!(field_names(md, 0), vec![(1, "id".to_string(), "long".to_string(), true)]);
    assert_eq!(md.properties.len(), 3);
    assert_eq!(md.properties[0], ("write.format.default".to_string(), "parquet".to_string()));
    assert_eq!(md.current_snapshot_id, None);
    assert!(md.snapshots.is_empty());
    assert_eq!(s.metadata_path(), "orders/metadata/metadata.json");
    assert!(md.check());
}

#[test]
fn empty_commit_is_a_no_op() {
    let mut s = sink(Schema::empty());
    s.init_table_metadata("u".to_string(), 1);
    assert_eq!(s.commit("m", 2), Ok(None));
    assert!(s.table_metadata().unwrap().snapshots.is_empty());
}

#[test]
fn first_write_then_widening_write() {
    let mut s = sink(Schema::empty()).with_schema_evolution(true);
    let batch = Schema { fields: vec![field("id", DataType::Int64), field("amount", DataType::Int64)] };
    assert_eq!(s.next_step(SinkEvent::Batch), SinkStep::OpenTable);
    // The first batch arrives before the table exists: it shapes the new table.
    assert_eq!(s.admit_batch(&batch), Ok(()));
    s.init_table_metadata("u".to_string(), 10);
    assert_eq!(s.next_step(SinkEvent::Batch), SinkStep::WriteBatch);
    assert_eq!(s.admit_batch(&batch), Ok(()));
    s.record_data_file("orders/data/data-1-a.parquet".to_string(), 100, 2);
    let c = s.commit("m1", 20).unwrap().unwrap();
    assert_eq!(c.manifest_path, "orders/metadata/m1.avro");
    assert_eq!(c.manifest.entries.len(), 1);
    assert_eq!(c.manifest.entries[0].status, 2);
    assert_eq!(c.manifest.entries[0].snapshot_id, 1);
    assert_eq!(c.manifest.entries[0].data_file.file_path, "orders/data/data-1-a.parquet");
    {
        let md = s.table_metadata().unwrap();
        assert_eq!(md.current_snapshot_id, Some(1));
        let snap = &md.snapshots[0];
        assert_eq!(snap.snapshot_id, 1);
        assert_eq!(snap.parent_snapshot_id, None);
        assert_eq!(snap.summary.operation, "append");
        assert_eq!(snap.summary.added_data_files, 1);
        assert_eq!(snap.summary.added_records, 2);
        assert_eq!(snap.summary.added_files_size, 100);
        assert_eq!(snap.manifest_list, "orders/metadata/m1.avro");
        assert_eq!(md.current_schema_id, 1);
        assert_eq!(md.schemas.len(), 1);
        assert_eq!(md.snapshots[0].schema_id, 1);
        assert_eq!(
            field_names(md, 0),
            vec![
                (1, "id".to_string(), "long".to_string(), false),
                (2, "amount".to_string(), "long".to_string(), false)
            ]
        );
        assert_eq!(md.snapshot_log.len(), 1);
        assert_eq!(md.metadata_log.len(), 1);
        assert_eq!(md.metadata_log[0].metadata_file, "orders/metadata/metadata.json");
        assert!(md.check());
    }
    let wider = Schema {
        fields: vec![
            field("id", DataType::Int64),
            field("amount", DataType::Int64),
            field("currency", DataType::Utf8),
        ],
    };
    assert_eq!(s.admit_batch(&wider), Ok(()));
    s.record_data_file("orders/data/data-2-b.parquet".to_string(), 50, 1);
    s.commit("m2", 30).unwrap().unwrap();
    let md = s.table_metadata().unwrap();
    assert_eq!(md.current_snapshot_id, Some(2));
    assert_eq!(md.snapshots[1].parent_snapshot_id, Some(1));
    assert_eq!(md.current_schema_id, 2);
    assert_eq!(md.schemas.len(), 2);
    assert_eq!(md.schemas[1].schema_id, 2);
    assert_eq!(md.schemas[1].fields.len(), 3);
    assert_eq!(md.schemas[1].fields[2].name, "currency");
    assert_eq!(md.schemas[1].fields[2].field_type, "string");
    assert_eq!(md.snapshots[1].schema_id, 2);
    assert_eq!(md.last_column_id, 3);
    assert_eq!(md.snapshot_log[1].snapshot_id, 2);
}

#[test]
fn extra_field_is_ignored_without_evolution() {
    let mut s = sink(Schema { fields: vec![field("id", DataType::Int64)] });
    let wider = Schema { fields: vec![field("id", DataType::Int64), field("x", DataType::Utf8)] };
    assert_eq!(s.admit_batch(&wider), Ok(()));
    assert_eq!(s.schema().fields.len(), 1);
}

#[test]
fn incompatible_and_widened_types_are_refused() {
    let mut s = sink(Schema { fields: vec![field("id", DataType::Int64)] });
    let text = Schema { fields: vec![field("id", DataType::Utf8)] };
    assert_eq!(s.admit_batch(&text), Err(RdeError::SchemaMismatch("id".to_string())));
    let wider = Schema { fields: vec![field("id", DataType::Float64)] };
    assert_eq!(s.admit_batch(&wider), Err(RdeError::SchemaMismatch("id".to_string())));
    let narrower = Schema { fields: vec![field("id", DataType::Int32)] };
    assert_eq!(s.admit_batch(&narrower), Ok(()));
    let mut e = sink(Schema { fields: vec![field("id", DataType::Int64)] }).with_schema_evolution(true);
    assert_eq!(e.admit_batch(&wider), Ok(()));
    assert_eq!(e.schema().fields[0].data_type, DataType::Float64);
    assert_eq!(e.admit_batch(&text), Err(RdeError::SchemaMismatch("id".to_string())));
}

#[test]
fn loading_seeds_the_next_snapshot_id() {
    let mut first = sink(Schema { fields: vec![field("id", DataType::Int64)] });
    first.init_table_metadata("u".to_string(), 1);
    first.record_data_file("p1".to_string(), 1, 1);
    first.commit("m", 2).unwrap();
    first.record_data_file("p2".to_string(), 1, 1);
    first.commit("n", 3).unwrap();
    let md = first.table_metadata().unwrap();
    let mut copy = TableMetadata {
        format_version: md.format_version,
        table_uuid: md.table_uuid.clone(),
        location: md.location.clone(),
        last_updated_ms: md.last_updated_ms,
        last_column_id: md.last_column_id,
        current_schema_id: md.current_schema_id,
        schemas: vec![to_table_schema(&Schema { fields: vec![field("id", DataType::Int64)] }, md.current_schema_id)],
        partition_specs: vec![],
        default_spec_id: 0,
        properties: vec![],
        snapshots: vec![],
        snapshot_log: vec![],
        metadata_log: vec![],
        current_snapshot_id: None,
        refs: vec![],
    };
    let mut second = sink(Schema::empty());
    assert_eq!(second.load_table_metadata(copy), Ok(()));
    assert_eq!(second.schema().fields.len(), 1);
    second.record_data_file("p3".to_string(), 1, 1);
    second.commit("o", 4).unwrap();
    assert_eq!(second.table_metadata().unwrap().current_snapshot_id, Some(1));

    copy = TableMetadata {
        format_version: 2,
        table_uuid: "u".to_string(),
        location: "lake/orders".to_string(),
        last_updated_ms: 0,
        last_column_id: 1,
        current_schema_id: 7,
        schemas: vec![to_table_schema(&Schema::empty(), 0)],
        partition_specs: vec![],
        default_spec_id: 0,
        properties: vec![],
        snapshots: vec![],
        snapshot_log: vec![],
        metadata_log: vec![],
        current_snapshot_id: None,
        refs: vec![],
    };
    let mut third = sink(Schema::empty());
    assert_eq!(third.load_table_metadata(copy), Err(RdeError::InvalidMetadata));
}

#[test]
fn reload_after_two_commits_continues_at_three() {
    let mut s = sink(Schema { fields: vec![field("id", DataType::Int64)] });
    s.init_table_metadata("u".to_string(), 1);
    s.record_data_file("p1".to_string(), 1, 1);
    s.commit("m", 2).unwrap();
    s.record_data_file("p2".to_string(), 1, 1);
    s.commit("n", 3).unwrap();
    let md = s.table_metadata().unwrap();
    let snapshots = md
        .snapshots
        .iter()
        .map(|x| rde::table::Snapshot {
            snapshot_id: x.snapshot_id,
            parent_snapshot_id: x.parent_snapshot_id,
            sequence_number: x.sequence_number,
            timestamp_ms: x.timestamp_ms,
            manifest_list: x.manifest_list.clone(),
            summary: rde::table::SnapshotSummary {
                operation: x.summary.operation.clone(),
                added_data_files: x.summary.added_data_files,
                deleted_data_files: 0,
                total_records: x.summary.total_records,
                added_records: x.summary.added_records,
                deleted_records: 0,
                added_files_size: x.summary.added_files_size,
                deleted_files_size: 0,
            },
            schema_id: x.schema_id,
        })
        .collect();
    let log = md
        .snapshot_log
        .iter()
        .map(|e| rde::table::SnapshotLogEntry { timestamp_ms: e.timestamp_ms, snapshot_id: e.snapshot_id })
        .collect();
    let copy = TableMetadata {
        format_version: 2,
        table_uuid: "u".to_string(),
        location: "lake/orders".to_string(),
        last_updated_ms: 3,
        last_column_id: 1,
        current_schema_id: 1,
        schemas: vec![md.schemas[0].copy()],
        partition_specs: vec![],
        default_spec_id: 0,
        properties: vec![],
        snapshots,
        snapshot_log: log,
        metadata_log: vec![],
        current_snapshot_id: Some(2),
        refs: vec![],
    };
    let mut again = sink(Schema::empty());
    assert_eq!(again.load_table_metadata(copy), Ok(()));
    again.record_data_file("p3".to_string(), 1, 1);
    again.commit("o", 4).unwrap();
    let md2 = again.table_metadata().unwrap();
    assert_eq!(md2.current_snapshot_id, Some(3));
    assert_eq!(md2.snapshots[2].parent_snapshot_id, Some(2));
}

#[test]
fn paths_are_formatted() {
    assert_eq!(data_file_path("t", 1700000000123, "abc"), "t/data/data-1700000000123-abc.parquet");
    assert_eq!(manifest_path("t", "abc"), "t/metadata/abc.avro");
    let s = sink(Schema::empty());
    assert_eq!(s.location(), "lake/orders");
    let p = s.next_data_file_path();
    assert!(p.starts_with("orders/data/data-"));
    assert!(p.ends_with(".parquet"));
    assert_eq!(p.len(), "orders/data/data-".len() + 13 + 1 + 36 + ".parquet".len());
}

#[test]
fn commit_now_stamps_a_fresh_manifest() {
    let mut s = sink(Schema::empty());
    s.create_new_table_metadata();
    assert_eq!(s.table_metadata().unwrap().table_uuid.len(), 36);
    s.record_data_file("p".to_string(), 3, 4);
    let c = s.commit_now().unwrap().unwrap();
    assert!(c.manifest_path.starts_with("orders/metadata/"));
    assert!(c.manifest_path.ends_with(".avro"));
    assert_eq!(c.manifest_path.len(), "orders/metadata/".len() + 36 + ".avro".len());
}

#[test]
fn oversized_sums_overflow_without_change() {
    let mut s = sink(Schema::empty());
    s.init_table_metadata("u".to_string(), 1);
    s.record_data_file("a".to_string(), i64::MAX, 1);
    s.record_data_file("b".to_string(), 1, 1);
    assert_eq!(s.commit("m", 2), Err(RdeError::Overflow));
    assert!(s.has_pending());
    assert!(s.table_metadata().unwrap().snapshots.is_empty());
}

#[test]
fn commit_without_a_table_changes_nothing() {
    let mut s = sink(Schema::empty());
    s.record_data_file("p".to_string(), 1, 1);
    assert_eq!(s.commit("m", 1), Ok(None));
    assert!(s.has_pending());
    assert!(s.table_metadata().is_none());
}

#[test]
fn lifecycle_steps() {
    let mut s = sink(Schema::empty());
    assert_eq!(s.next_step(SinkEvent::Cancelled), SinkStep::Stop);
    assert_eq!(s.next_step(SinkEvent::Eos), SinkStep::OpenTable);
    assert_eq!(s.next_step(SinkEvent::Watermark), SinkStep::OpenTable);
    s.init_table_metadata("u".to_string(), 1);
    assert_eq!(s.next_step(SinkEvent::Batch), SinkStep::WriteBatch);
    assert_eq!(s.next_step(SinkEvent::Watermark), SinkStep::Commit);
    assert_eq!(s.next_step(SinkEvent::Eos), SinkStep::CommitAndStop);
    assert_eq!(s.next_step(SinkEvent::Cancelled), SinkStep::CommitAndStop);
    assert_eq!(SinkEvent::of(&Message::Watermark(3)), SinkEvent::Watermark);
    assert_eq!(SinkEvent::of(&Message::Eos), SinkEvent::Eos);
}

#[test]
fn widening_after_the_table_exists_is_a_new_version() {
    let mut s = sink(Schema { fields: vec![field("id", DataType::Int64)] }).with_schema_evolution(true);
    s.init_table_metadata("u".to_string(), 1);
    let wider = Schema { fields: vec![field("id", DataType::Int64), field("x", DataType::Boolean)] };
    assert_eq!(s.admit_batch(&wider), Ok(()));
    s.record_data_file("p".to_string(), 1, 1);
    s.commit("m", 2).unwrap();
    let md = s.table_metadata().unwrap();
    assert_eq!(md.current_schema_id, 2);
    assert_eq!(md.schemas[1].fields[1].field_type, "boolean");
}
