//! The declarative pipeline document: one source, ordered transforms, one
//! sink, and informational edges.

use vstd::prelude::*;

verus! {

/// A whole pipeline.
#[derive(Debug, Clone, PartialEq, Eq)]
pub struct PipelineSpec {
    pub name: String,
    pub sources: Vec<SourceSpec>,
    pub transforms: Vec<TransformSpec>,
    pub sinks: Vec<SinkSpec>,
    pub edges: Vec<(String, String)>,
}

/// A delimited-text file source.
#[derive(Debug, Clone, PartialEq, Eq)]
pub struct CsvSourceSpec {
    pub id: String,
    pub path: String,
    pub has_header: bool,
    pub batch_rows: usize,
}

/// A topic-subscription source.
#[derive(Debug, Clone, PartialEq, Eq)]
pub struct KafkaSourceSpec {
    pub id: String,
    pub brokers: String,
    pub group_id: String,
    pub topic: String,
    pub schema: Option<SchemaConfig>,
    pub topic_mapping: Option<TopicMapping>,
}

/// The table a topic feeds, and how.
#[derive(Debug, Clone, PartialEq, Eq)]
pub struct TopicMapping {
    pub iceberg_table: String,
    pub bucket: String,
    pub endpoint: String,
    pub access_key: String,
    pub secret_key: String,
    pub region: String,
    pub auto_schema_evolution: bool,
    pub sql_transform: Option<String>,
    pub partition_by: Vec<String>,
}

/// A configured schema that seeds inference.
#[derive(Debug, Clone, PartialEq, Eq)]
pub struct SchemaConfig {
    pub fields: Vec<FieldConfig>,
    pub auto_infer: bool,
}

/// One configured field; `data_type` is one of `int64`, `float64`, `string`,
/// `boolean`.
#[derive(Debug, Clone, PartialEq, Eq)]
pub struct FieldConfig {
    pub name: String,
    pub data_type: String,
    pub nullable: bool,
}

/// The source variants.
#[derive(Debug, Clone, PartialEq, Eq)]
pub enum SourceSpec {
    Csv(CsvSourceSpec),
    Kafka(KafkaSourceSpec),
}

/// The transform variants.
#[derive(Debug, Clone, PartialEq, Eq)]
pub enum TransformSpec {
    Passthrough { id: String },
    SchemaEvolution { id: String, auto_infer: bool, strict_mode: bool },
    JsonFlatten { id: String, separator: String, max_depth: usize },
    Partition { id: String, partition_by: Vec<String>, partition_format: String },
    SqlTransform { id: String, query: String, window_size: usize },
    CleanData {
        id: String,
        remove_nulls: bool,
        trim_strings: bool,
        normalize_case: Option<String>,
    },
}

/// The table-format sink's settings.
#[derive(Debug, Clone, PartialEq, Eq)]
pub struct IcebergSinkSpec {
    pub id: String,
    pub table_name: String,
    pub bucket: String,
    pub endpoint: String,
    pub access_key: String,
    pub secret_key: String,
    pub region: String,
}

/// The sink variants.
#[derive(Debug, Clone, PartialEq, Eq)]
pub enum SinkSpec {
    Stdout { id: String },
    ParquetDir { id: String, path: String },
    Iceberg(IcebergSinkSpec),
}

/// The number of rows a file source puts in one batch unless configured.
pub fn default_batch_rows() -> (r: usize)
    ensures
        r == 65536,
{
    65536
}

} // verus!
