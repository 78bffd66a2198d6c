use rde::batch::{record_to_row, Cell};
use rde::config::{FieldConfig, SchemaConfig};
use rde::json::JsonValue;
use rde::manager::DynamicSchemaManager;
use rde::schema::{infer_schema, infer_value_type, merge_schemas, DataType, Field, Schema};

fn field(name: &str, t: DataType, nullable: bool) -> Field {
    Field::new(name.to_string(), t, nullable)
}

fn schema(fields: Vec<Field>) -> Schema {
    Schema { fields }
}

fn obj(members: Vec<(&str, JsonValue)>) -> JsonValue {
    JsonValue::Object(members.into_iter().map(|(k, v)| (k.to_string(), v)).collect())
}

fn names(s: &Schema) -> Vec<String> {
    s.fields.iter().map(|f| f.name.clone()).collect()
}

#[test]
fn promotion_table_widens_numbers() {
    let cases = vec![
        (DataType::Int32, DataType::Int64, DataType::Int64),
        (DataType::Float32, DataType::Float64, DataType::Float64),
        (DataType::Int32, DataType::Float64, DataType::Float64),
        (DataType::Int64, DataType::Float64, DataType::Float64),
        (DataType::Int64, DataType::Int32, DataType::Int64),
        (DataType::Utf8, DataType::Int64, DataType::Utf8),
        (DataType::Float64, DataType::Int64, DataType::Float64),
    ];
    for (existing, new, expected) in cases {
        let s = schema(vec![field("a", existing, false)]);
        let n = schema(vec![field("a", new, false)]);
        let m = merge_schemas(&s, &n);
        assert_eq!(m.fields.len(), 1);
        assert_eq!(m.fields[0].data_type, expected);
    }
}

#[test]
fn merge_keeps_order_appends_and_ors_nullability() {
    let s = schema(vec![field("b", DataType::Int64, false), field("a", DataType::Utf8, false)]);
    let n = schema(vec![field("c", DataType::Boolean, true), field("b", DataType::Int64, true)]);
    let m = merge_schemas(&s, &n);
    assert_eq!(names(&m), vec!["b", "a", "c"]);
    assert!(m.fields[0].nullable);
    assert!(!m.fields[1].nullable);
    assert!(m.fields[2].nullable);
}

#[test]
fn merge_widens_both_sides() {
    let s = schema(vec![field("id", DataType::Int64, true)]);
    let r = infer_schema(&obj(vec![("id", JsonValue::Float("1.5".to_string())), ("x", JsonValue::Bool(true))]));
    let m = merge_schemas(&s, &r);
    assert_eq!(names(&m), vec!["id", "x"]);
    assert_eq!(m.fields[0].data_type, DataType::Float64);
    assert_eq!(m.fields[1].data_type, DataType::Boolean);
}

#[test]
fn infer_record_types() {
    let rec = obj(vec![
        ("id", JsonValue::Int(1)),
        ("name", JsonValue::Str("alice".to_string())),
        ("score", JsonValue::Float("2.5".to_string())),
        ("ok", JsonValue::Bool(true)),
        ("none", JsonValue::Null),
        ("nested", obj(vec![("a", JsonValue::Int(1))])),
        ("big", JsonValue::UInt(u64::MAX)),
    ]);
    let s = infer_schema(&rec);
    assert_eq!(names(&s), vec!["id", "name", "score", "ok", "none", "nested", "big"]);
    let types: Vec<DataType> = s.fields.iter().map(|f| f.data_type.copy()).collect();
    assert_eq!(
        types,
        vec![
            DataType::Int64,
            DataType::Utf8,
            DataType::Float64,
            DataType::Boolean,
            DataType::Utf8,
            DataType::Utf8,
            DataType::Utf8,
        ]
    );
    assert!(s.fields.iter().all(|f| f.nullable));
}

#[test]
fn infer_array_types() {
    assert_eq!(infer_value_type(&JsonValue::Array(vec![])), DataType::List(Box::new(DataType::Utf8)));
    assert_eq!(
        infer_value_type(&JsonValue::Array(vec![JsonValue::Null, JsonValue::Int(3)])),
        DataType::List(Box::new(DataType::Int64))
    );
    assert_eq!(
        infer_value_type(&JsonValue::Array(vec![JsonValue::Null])),
        DataType::List(Box::new(DataType::Utf8))
    );
    assert_eq!(
        infer_value_type(&JsonValue::Array(vec![JsonValue::Array(vec![JsonValue::Bool(false)])])),
        DataType::List(Box::new(DataType::List(Box::new(DataType::Boolean))))
    );
}

#[test]
fn infer_non_object_is_empty() {
    assert_eq!(infer_schema(&JsonValue::Int(5)).fields.len(), 0);
}

#[test]
fn missing_field_becomes_null() {
    let s = schema(vec![
        field("id", DataType::Int64, true),
        field("amount", DataType::Int64, true),
        field("note", DataType::Utf8, true),
        field("price", DataType::Float64, true),
    ]);
    let rec = obj(vec![
        ("price", JsonValue::Int(7)),
        ("id", JsonValue::Int(3)),
        ("extra", JsonValue::Bool(true)),
    ]);
    let row = record_to_row(rec, &s);
    assert_eq!(
        row,
        vec![Cell::Int(3), Cell::Null, Cell::Null, Cell::Float("7".to_string())]
    );
}

#[test]
fn mismatched_value_is_null_and_objects_stay_json() {
    let s = schema(vec![field("id", DataType::Int64, true), field("meta", DataType::Utf8, true)]);
    let rec = obj(vec![
        ("id", JsonValue::Str("x".to_string())),
        ("meta", obj(vec![("k", JsonValue::Int(1))])),
    ]);
    let row = record_to_row(rec, &s);
    assert_eq!(row[0], Cell::Null);
    assert_eq!(row[1], Cell::Json(obj(vec![("k", JsonValue::Int(1))])));
}

#[test]
fn manager_widens_monotonically() {
    let mut m = DynamicSchemaManager::new();
    assert!(m.update_schema_if_needed(&obj(vec![("id", JsonValue::Int(1))])));
    assert!(!m.update_schema_if_needed(&obj(vec![("id", JsonValue::Int(2))])));
    assert!(m.update_schema_if_needed(&obj(vec![("name", JsonValue::Str("a".to_string()))])));
    let s = m.get_current_schema().unwrap();
    assert_eq!(names(&s), vec!["id", "name"]);
    assert!(m.update_schema_if_needed(&obj(vec![("id", JsonValue::Float("0.5".to_string()))])));
    let s = m.get_current_schema().unwrap();
    assert_eq!(s.fields[0].data_type, DataType::Float64);
    assert!(!m.update_schema_if_needed(&obj(vec![("id", JsonValue::Str("x".to_string()))])));
    assert_eq!(m.get_current_schema().unwrap().fields[0].data_type, DataType::Float64);
}

#[test]
fn configured_schema_seeds_inference() {
    let config = Some(SchemaConfig {
        fields: vec![
            FieldConfig { name: "amount".to_string(), data_type: "float64".to_string(), nullable: false },
            FieldConfig { name: "flag".to_string(), data_type: "boolean".to_string(), nullable: true },
            FieldConfig { name: "other".to_string(), data_type: "decimal".to_string(), nullable: true },
        ],
        auto_infer: true,
    });
    let mut m = DynamicSchemaManager::new().with_config(&config);
    let probe = m.merge_schemas(&obj(vec![("id", JsonValue::Int(1))]));
    assert_eq!(names(&probe), vec!["amount", "flag", "other", "id"]);
    assert_eq!(probe.fields[2].data_type, DataType::Utf8);
    assert!(m.get_current_schema().is_some());
    assert!(m.update_schema_if_needed(&obj(vec![("id", JsonValue::Int(1))])));
    assert_eq!(names(&m.get_current_schema().unwrap()), vec!["amount", "flag", "other", "id"]);
}

#[test]
fn without_inference_configured_schema_is_adopted_once() {
    let config = Some(SchemaConfig {
        fields: vec![FieldConfig { name: "id".to_string(), data_type: "int64".to_string(), nullable: false }],
        auto_infer: false,
    });
    let mut m = DynamicSchemaManager::new().with_config(&config);
    assert!(m.update_schema_if_needed(&obj(vec![("x", JsonValue::Int(1))])));
    assert!(!m.update_schema_if_needed(&obj(vec![("y", JsonValue::Int(1))])));
    let s = m.get_current_schema().unwrap();
    assert_eq!(names(&s), vec!["id"]);
    assert!(!s.fields[0].nullable);
}

#[test]
fn inference_is_idempotent_through_a_row() {
    let rec = obj(vec![
        ("id", JsonValue::Int(1)),
        ("tags", JsonValue::Array(vec![JsonValue::Str("a".to_string())])),
        ("n", JsonValue::Null),
        ("o", obj(vec![("x", JsonValue::Int(1))])),
    ]);
    let s = infer_schema(&rec);
    let row = record_to_row(rec, &s);
    let back = JsonValue::Object(
        s.fields
            .iter()
            .zip(row.into_iter())
            .map(|(f, c)| {
                let v = match c {
                    Cell::Null => JsonValue::Null,
                    Cell::Bool(b) => JsonValue::Bool(b),
                    Cell::Int(i) => JsonValue::Int(i),
                    Cell::Float(t) => JsonValue::Float(t),
                    Cell::Str(t) => JsonValue::Str(t),
                    Cell::Json(v) => v,
                };
                (f.name.clone(), v)
            })
            .collect(),
    );
    assert_eq!(infer_schema(&back), s);
}
