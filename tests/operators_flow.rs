use rde::batch::{Batch, Cell, Message};
use rde::config::{
    CsvSourceSpec, KafkaSourceSpec, PipelineSpec, SinkSpec, SourceSpec, TransformSpec,
    default_batch_rows,
};
use rde::error::RdeError;
use rde::flatten::JsonFlatten;
use rde::json::JsonValue;
use rde::operators::{CsvSource, KafkaPipelineSource, KafkaSource, ParquetDirSink, StdoutSink};
use rde::ops::{CleanData, Partition, Passthrough, SchemaEvolution, SqlTransform};
use rde::pipeline::{build_transforms, channel_count, create_transform, validate_spec};
use rde::schema::{DataType, Field, Schema};
use rde::text::{i64_text, to_title, trim_text};

fn field(name: &str, t: DataType) -> Field {
    Field::new(name.to_string(), t, true)
}

fn batch(fields: Vec<Field>, rows: Vec<Vec<Cell>>) -> Batch {
    Batch { schema: Schema { fields }, rows }
}

fn text(s: &str) -> Cell {
    Cell::Str(s.to_string())
}

fn rows_of(n: usize) -> Batch {
    batch(vec![field("i", DataType::Int64)], (0..n).map(|i| vec![Cell::Int(i as i64)]).collect())
}

#[test]
fn passthrough_forwards_everything() {
    let mut p = Passthrough::new("p".to_string(), Schema::empty());
    assert_eq!(p.process(Message::Watermark(5)), vec![Message::Watermark(5)]);
    assert_eq!(p.process(Message::Eos), vec![Message::Eos]);
    assert_eq!(p.name(), "p");
}

#[test]
fn sql_window_of_two_over_three_batches() {
    let mut t = SqlTransform::new("q".to_string(), Schema::empty(), "SELECT * FROM input_data".to_string(), 2).unwrap();
    let s1 = t.on_message(Message::Batch(rows_of(100)));
    assert!(s1.query_input.is_none() && s1.forward.is_none());
    let s2 = t.on_message(Message::Batch(rows_of(100)));
    assert_eq!(s2.query_input.as_ref().map(|b| b.len()), Some(2));
    assert!(s2.forward.is_none());
    let s3 = t.on_message(Message::Batch(rows_of(100)));
    assert!(s3.query_input.is_none());
    let s4 = t.on_message(Message::Eos);
    assert_eq!(s4.query_input.as_ref().map(|b| b.len()), Some(1));
    assert_eq!(s4.forward, Some(Message::Eos));
}

#[test]
fn sql_watermark_flushes_and_forwards() {
    let mut t = SqlTransform::new("q".to_string(), Schema::empty(), "SELECT 1".to_string(), 10).unwrap();
    let s0 = t.on_message(Message::Watermark(1));
    assert!(s0.query_input.is_none());
    assert_eq!(s0.forward, Some(Message::Watermark(1)));
    t.on_message(Message::Batch(rows_of(1)));
    let s1 = t.on_message(Message::Watermark(2));
    assert_eq!(s1.query_input.map(|b| b.len()), Some(1));
    assert_eq!(s1.forward, Some(Message::Watermark(2)));
}

#[test]
fn clean_data_trims_and_cases_text_columns() {
    let input = || {
        batch(
            vec![field("name", DataType::Utf8), field("n", DataType::Int64)],
            vec![vec![text("  hello wORLD  "), Cell::Int(1)], vec![Cell::Null, Cell::Int(2)]],
        )
    };
    let lower = CleanData::new("c".to_string(), Schema::empty(), false, true, Some("lower".to_string()));
    let out = lower.clean_batch(input());
    assert_eq!(out.rows[0], vec![text("hello world"), Cell::Int(1)]);
    assert_eq!(out.rows[1], vec![Cell::Null, Cell::Int(2)]);
    let upper = CleanData::new("c".to_string(), Schema::empty(), false, false, Some("upper".to_string()));
    assert_eq!(upper.clean_batch(input()).rows[0][0], text("  HELLO WORLD  "));
    let title = CleanData::new("c".to_string(), Schema::empty(), false, false, Some("title".to_string()));
    assert_eq!(title.clean_batch(input()).rows[0][0], text("Hello WORLD"));
    let none = CleanData::new("c".to_string(), Schema::empty(), true, false, None);
    assert_eq!(none.clean_batch(input()), input());
    let odd = CleanData::new("c".to_string(), Schema::empty(), false, true, Some("snake".to_string()));
    assert_eq!(odd.clean_batch(input()).rows[0][0], text("hello wORLD"));
}

#[test]
fn text_helpers() {
    assert_eq!(trim_text(" \t a b \n"), "a b");
    assert_eq!(trim_text("   "), "");
    assert_eq!(to_title("  the quick   fox "), "The Quick Fox");
    assert_eq!(i64_text(-42), "-42");
    assert_eq!(i64_text(i64::MIN), "-9223372036854775808");
    assert_eq!(i64_text(0), "0");
}

#[test]
fn partition_keys_join_or_fill_template() {
    let b = || {
        batch(
            vec![field("region", DataType::Utf8), field("year", DataType::Int64)],
            vec![vec![text("eu"), Cell::Int(2024)], vec![Cell::Null, Cell::Int(-1)]],
        )
    };
    let joined = Partition::new(
        "p".to_string(),
        Schema::empty(),
        vec!["region".to_string(), "year".to_string(), "missing".to_string()],
        String::new(),
    );
    assert_eq!(joined.generate_partition_key(&b(), 0), "eu/2024/unknown");
    assert_eq!(joined.generate_partition_key(&b(), 1), "null/-1/unknown");
    let templated = Partition::new(
        "p".to_string(),
        Schema::empty(),
        vec!["year".to_string(), "region".to_string()],
        "y={0}/r={1}/{0}".to_string(),
    );
    assert_eq!(templated.generate_partition_key(&b(), 0), "y=2024/r=eu/2024");
    let out = joined.add_partition_columns(b(), "2024-05-01").unwrap();
    assert_eq!(out.schema.fields.len(), 4);
    assert_eq!(out.schema.fields[2].name, "partition_key");
    assert_eq!(out.schema.fields[3].name, "partition_date");
    assert_eq!(out.rows[0][2], text("eu/2024/unknown"));
    assert_eq!(out.rows[1][3], text("2024-05-01"));
    let again = joined.add_partition_columns(out, "x");
    assert_eq!(again, Err(RdeError::SchemaMismatch("partition_key".to_string())));
}

#[test]
fn partition_process_dates_batches() {
    let mut p = Partition::new("p".to_string(), Schema::empty(), vec![], String::new());
    let out = p.process(Message::Batch(batch(vec![field("a", DataType::Int64)], vec![vec![Cell::Int(1)]]))).unwrap();
    match &out[0] {
        Message::Batch(b) => match &b.rows[0][2] {
            Cell::Str(d) => assert_eq!(d.len(), 10),
            other => panic!("unexpected cell {:?}", other),
        },
        other => panic!("unexpected message {:?}", other),
    }
    assert_eq!(p.process(Message::Eos).unwrap(), vec![Message::Eos]);
}

#[test]
fn json_flatten_nested_rows() {
    let nested = JsonValue::Object(vec![
        ("b".to_string(), JsonValue::Int(1)),
        ("c".to_string(), JsonValue::Object(vec![("d".to_string(), JsonValue::Bool(true))])),
        ("e".to_string(), JsonValue::Array(vec![JsonValue::Str("x".to_string()), JsonValue::Null])),
        ("f".to_string(), JsonValue::Array(vec![])),
    ]);
    let input = batch(
        vec![field("a", DataType::Utf8), field("n", DataType::Int64)],
        vec![vec![Cell::Json(nested), Cell::Int(7)], vec![Cell::Null, Cell::Null]],
    );
    let f = JsonFlatten::new("f".to_string(), Schema::empty(), "_".to_string(), 3);
    let out = f.flatten_batch(input);
    let names: Vec<String> = out.schema.fields.iter().map(|x| x.name.clone()).collect();
    assert_eq!(names, vec!["a_b", "a_c_d", "a_e", "a_f", "n", "a"]);
    assert_eq!(out.schema.fields[0].data_type, DataType::Int64);
    assert_eq!(out.schema.fields[1].data_type, DataType::Boolean);
    assert_eq!(out.schema.fields[3].data_type, DataType::List(Box::new(DataType::Utf8)));
    assert_eq!(out.rows[0][0], Cell::Int(1));
    assert_eq!(out.rows[0][1], Cell::Bool(true));
    assert_eq!(out.rows[0][2], text("x"));
    assert_eq!(out.rows[0][3], Cell::Json(JsonValue::Array(vec![])));
    assert_eq!(out.rows[0][4], Cell::Int(7));
    assert_eq!(out.rows[1][0], Cell::Null);
    assert_eq!(out.rows[1][4], Cell::Null);
    assert_eq!(out.rows[1][5], Cell::Null);
    assert_eq!(out.rows[0][5], Cell::Null);
    let shallow = JsonFlatten::new("f".to_string(), Schema::empty(), ".".to_string(), 1);
    let one = batch(
        vec![field("a", DataType::Utf8)],
        vec![vec![Cell::Json(JsonValue::Object(vec![("b".to_string(), JsonValue::Int(1))]))]],
    );
    assert_eq!(shallow.flatten_batch(one).schema.fields.len(), 0);
    let zero = JsonFlatten::new("f".to_string(), Schema::empty(), ".".to_string(), 0);
    assert_eq!(zero.flatten_batch(rows_of(2)).schema.fields.len(), 0);
}

#[test]
fn schema_evolution_merges_or_refuses() {
    let start = Schema { fields: vec![field("id", DataType::Int64)] };
    let b = || {
        batch(
            vec![field("id", DataType::Utf8), field("extra", DataType::Boolean)],
            vec![vec![text("x"), Cell::Bool(true)]],
        )
    };
    let mut loose = SchemaEvolution::new("s".to_string(), start.copy(), true, false);
    let out = loose.process(Message::Batch(b())).unwrap();
    assert_eq!(out, vec![Message::Batch(b())]);
    let names: Vec<String> = loose.schema().fields.iter().map(|x| x.name.clone()).collect();
    assert_eq!(names, vec!["id", "extra"]);
    assert_eq!(loose.schema().fields[0].data_type, DataType::Int64);
    let mut strict = SchemaEvolution::new("s".to_string(), start.copy(), true, true);
    assert_eq!(strict.process(Message::Batch(b())), Err(RdeError::SchemaMismatch("id".to_string())));
    assert_eq!(strict.schema(), start);
    let mut off = SchemaEvolution::new("s".to_string(), start.copy(), false, true);
    off.process(Message::Batch(b())).unwrap();
    assert_eq!(off.schema(), start);
}

#[test]
fn kafka_source_drops_poison_and_builds_rows() {
    let k = KafkaSource::new("localhost:9092", "g", "t");
    assert_eq!(k.topic, "t");
    let spec = KafkaSourceSpec {
        id: "k".to_string(),
        brokers: "b".to_string(),
        group_id: "g".to_string(),
        topic: "t".to_string(),
        schema: None,
        topic_mapping: None,
    };
    let mut src = KafkaPipelineSource::new(spec);
    assert_eq!(src.on_record(None), Ok(None));
    assert_eq!(src.on_record(Some(JsonValue::Null)), Ok(None));
    assert_eq!(src.on_record(Some(JsonValue::Int(4))), Ok(None));
    let rec = JsonValue::Object(vec![("id".to_string(), JsonValue::Int(1)), ("amount".to_string(), JsonValue::Int(10))]);
    match src.on_record(Some(rec)) {
        Ok(Some(Message::Batch(b))) => {
            assert_eq!(b.rows, vec![vec![Cell::Int(1), Cell::Int(10)]]);
            assert_eq!(b.schema.fields[0].name, "id");
        },
        other => panic!("unexpected {:?}", other),
    }
    let rec2 = JsonValue::Object(vec![("id".to_string(), JsonValue::Int(2))]);
    match src.on_record(Some(rec2)) {
        Ok(Some(Message::Batch(b))) => assert_eq!(b.rows, vec![vec![Cell::Int(2), Cell::Null]]),
        other => panic!("unexpected {:?}", other),
    }
    assert_eq!(src.schema().fields.len(), 2);
}

#[test]
fn kafka_source_without_any_schema_fails() {
    let spec = KafkaSourceSpec {
        id: "k".to_string(),
        brokers: "b".to_string(),
        group_id: "g".to_string(),
        topic: "t".to_string(),
        schema: Some(rde::config::SchemaConfig { fields: vec![], auto_infer: false }),
        topic_mapping: None,
    };
    let mut src = KafkaPipelineSource::new(spec);
    let rec = JsonValue::Object(vec![("id".to_string(), JsonValue::Int(1))]);
    assert_eq!(src.on_record(Some(rec)), Err(RdeError::NoSchema));
    assert_eq!(src.on_record(None), Ok(None));
}

#[test]
fn csv_source_needs_a_match() {
    let spec = CsvSourceSpec { id: "c".to_string(), path: "data/*.csv".to_string(), has_header: true, batch_rows: default_batch_rows() };
    let src = CsvSource::try_new(spec).unwrap();
    assert_eq!(src.check_matches(vec![]), Err(RdeError::NoFilesMatched("data/*.csv".to_string())));
    assert_eq!(src.check_matches(vec!["a.csv".to_string()]), Ok(vec!["a.csv".to_string()]));
    assert_eq!(default_batch_rows(), 65536);
}

#[test]
fn simple_sinks() {
    let p = ParquetDirSink::new("out".to_string(), "/tmp/x".to_string(), Schema::empty());
    assert_eq!(p.file_name(), "out.parquet");
    let s = StdoutSink::new("s".to_string(), Schema::empty());
    assert_eq!(s.render(&Message::Watermark(42)), vec!["watermark=42".to_string()]);
    assert!(s.render(&Message::Eos).is_empty());
    let b = batch(
        vec![field("a", DataType::Utf8), field("n", DataType::Int64), field("b", DataType::Utf8)],
        vec![vec![text("x"), Cell::Int(1), Cell::Null], vec![text("y"), Cell::Int(2), text("z")]],
    );
    assert_eq!(s.render(&Message::Batch(b)), vec!["x", "", "y", "z"]);
}

#[test]
fn pipeline_shape_and_schema_threading() {
    let csv = SourceSpec::Csv(CsvSourceSpec { id: "c".to_string(), path: "a.csv".to_string(), has_header: true, batch_rows: 10 });
    let sink = SinkSpec::Stdout { id: "s".to_string() };
    let mut spec = PipelineSpec { name: "p".to_string(), sources: vec![], transforms: vec![], sinks: vec![sink.clone()], edges: vec![] };
    assert_eq!(validate_spec(&spec), Err(RdeError::SourceCount(0)));
    spec.sources = vec![csv];
    spec.sinks = vec![sink.clone(), sink];
    assert_eq!(validate_spec(&spec), Err(RdeError::SinkCount(2)));
    spec.sinks.pop();
    assert_eq!(validate_spec(&spec), Ok(()));
    assert_eq!(channel_count(0), 1);
    assert_eq!(channel_count(3), 4);
    let transforms = vec![
        TransformSpec::Passthrough { id: "t1".to_string() },
        TransformSpec::Partition { id: "t2".to_string(), partition_by: vec![], partition_format: String::new() },
        TransformSpec::CleanData { id: "t3".to_string(), remove_nulls: false, trim_strings: true, normalize_case: None },
    ];
    let (ops, last) = build_transforms(&transforms, Schema { fields: vec![field("a", DataType::Int64)] }).unwrap();
    assert_eq!(ops.len(), 3);
    assert_eq!(last.fields.len(), 3);
    assert_eq!(ops[2].name(), "t3");
    let twice = vec![
        TransformSpec::Partition { id: "a".to_string(), partition_by: vec![], partition_format: String::new() },
        TransformSpec::Partition { id: "b".to_string(), partition_by: vec![], partition_format: String::new() },
    ];
    assert_eq!(build_transforms(&twice, Schema::empty()).err(), Some(RdeError::SchemaMismatch("partition_key".to_string())));
    let flat = TransformSpec::JsonFlatten { id: "f".to_string(), separator: ".".to_string(), max_depth: usize::MAX };
    assert_eq!(create_transform(&flat, Schema::empty()).err(), Some(RdeError::Overflow));
}
