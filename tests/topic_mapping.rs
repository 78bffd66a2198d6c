use rde::config::TopicMapping;
use rde::error::RdeError;
use rde::mapping::TopicMappingManager;
use rde::pipeline::schema_from_table;
use rde::schema::{DataType, Field, Schema};
use rde::table::{initial_metadata, to_table_schema, TableField, TableSchema};

fn mapping(auto: bool) -> TopicMapping {
    TopicMapping {
        iceberg_table: "events".to_string(),
        bucket: "lake".to_string(),
        endpoint: "http://localhost:9000".to_string(),
        access_key: "key".to_string(),
        secret_key: "SECRET-REDACTED".to_string(),
        region: "us-east-1".to_string(),
        auto_schema_evolution: auto,
        sql_transform: None,
        partition_by: vec![],
    }
}

fn schema(fields: Vec<(&str, DataType)>) -> Schema {
    Schema { fields: fields.into_iter().map(|(n, t)| Field::new(n.to_string(), t, true)).collect() }
}

#[test]
fn mapping_paths_and_initial_metadata() {
    let m = TopicMappingManager::new(mapping(true));
    assert_eq!(m.get_table_name(), "events");
    assert_eq!(m.metadata_path(), "events/metadata/metadata.json");
    assert!(m.get_current_schema().is_none());
    let md = m.create_initial_metadata(&schema(vec![("id", DataType::Int64)]), "u".to_string(), 5);
    assert_eq!(md.location, "lake/events");
    assert_eq!(md.format_version, 2);
    assert_eq!(md.schemas[0].fields[0].field_type, "long");
    assert_eq!(md.last_updated_ms, 5);
}

#[test]
fn evolution_merges_when_enabled() {
    let mut on = TopicMappingManager::new(mapping(true));
    assert!(on.evolve_schema_if_needed(&schema(vec![("id", DataType::Int64)])));
    assert!(!on.evolve_schema_if_needed(&schema(vec![("id", DataType::Int64)])));
    assert!(on.evolve_schema_if_needed(&schema(vec![("id", DataType::Float64), ("c", DataType::Utf8)])));
    let s = on.get_current_schema().unwrap();
    assert_eq!(s.fields.len(), 2);
    assert_eq!(s.fields[0].data_type, DataType::Float64);
    let mut off = TopicMappingManager::new(mapping(false));
    assert!(!off.evolve_schema_if_needed(&schema(vec![("id", DataType::Int64)])));
    assert!(off.get_current_schema().is_none());
}

#[test]
fn schema_versions_are_added() {
    let m = TopicMappingManager::new(mapping(true));
    let md = m.create_initial_metadata(&schema(vec![("id", DataType::Int64)]), "u".to_string(), 1);
    let wider = schema(vec![("id", DataType::Int64), ("currency", DataType::Utf8)]);
    let md2 = m.update_table_schema(md, &wider, 9).unwrap();
    assert_eq!(md2.current_schema_id, 2);
    assert_eq!(md2.schemas[0].schema_id, 1);
    assert_eq!(md2.schemas.len(), 2);
    assert_eq!(md2.schemas[1].fields[1].name, "currency");
    assert_eq!(md2.last_column_id, 2);
    assert_eq!(md2.last_updated_ms, 9);
    assert!(md2.check());
    let mut broken = initial_metadata("u".to_string(), "x".to_string(), &Schema::empty(), 0);
    broken.current_schema_id = 4;
    assert_eq!(m.update_table_schema(broken, &wider, 9), Err(RdeError::InvalidMetadata));
    let mut full = initial_metadata("u".to_string(), "x".to_string(), &Schema::empty(), 0);
    full.schemas[0].schema_id = i32::MAX;
    full.current_schema_id = i32::MAX;
    assert_eq!(m.update_table_schema(full, &wider, 9), Err(RdeError::Overflow));
}

#[test]
fn loading_the_table_schema() {
    let mut md = initial_metadata("u".to_string(), "x".to_string(), &schema(vec![("a", DataType::Int32)]), 0);
    md.schemas.push(to_table_schema(&schema(vec![("a", DataType::Int64), ("b", DataType::Boolean)]), 3));
    md.current_schema_id = 3;
    let s = schema_from_table(&md);
    assert_eq!(s, Schema { fields: vec![
        Field::new("a".to_string(), DataType::Int64, true),
        Field::new("b".to_string(), DataType::Boolean, true),
    ] });
    let mut m = TopicMappingManager::new(mapping(true));
    m.load_existing_schema(&md);
    assert_eq!(m.get_current_schema().unwrap().fields.len(), 2);
    md.current_schema_id = 8;
    assert_eq!(schema_from_table(&md).fields.len(), 0);
    let dup = TableSchema {
        schema_id: 8,
        fields: vec![
            TableField { id: 1, name: "a".to_string(), field_type: "weird".to_string(), required: true },
            TableField { id: 2, name: "a".to_string(), field_type: "long".to_string(), required: false },
        ],
    };
    md.schemas.push(dup);
    assert_eq!(schema_from_table(&md).fields.len(), 0);
    let mut again = TopicMappingManager::new(mapping(true));
    again.load_existing_schema(&md);
    assert!(again.get_current_schema().is_none());
}
