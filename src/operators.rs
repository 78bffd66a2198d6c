//! Sources and the simple sinks: their settings, and the decisions they
//! make per record or per message.

use crate::batch::{record_row, record_to_row, row_view, Batch, Cell, Message};
use crate::config::{CsvSourceSpec, KafkaSourceSpec};
use crate::error::RdeError;
use crate::json::JsonValue;
use crate::manager::{configured_view, DynamicSchemaManager};
use crate::schema::{infer_record, merge, DataType, FieldView, Schema};
use crate::text::{i64_text, int_text};
use vstd::prelude::*;

verus! {

/// The connection settings of a topic subscription.
pub struct KafkaSource {
    pub brokers: String,
    pub group_id: String,
    pub topic: String,
}

impl KafkaSource {
    /// Settings for one topic.
    pub fn new(brokers: &str, group_id: &str, topic: &str) -> (r: KafkaSource)
        ensures
            r.brokers@ == brokers@,
            r.group_id@ == group_id@,
            r.topic@ == topic@,
    {
        KafkaSource {
            brokers: String::from_str(brokers),
            group_id: String::from_str(group_id),
            topic: String::from_str(topic),
        }
    }
}

/// The topic source: one single-row batch per record, built against the
/// schema its manager publishes.
pub struct KafkaPipelineSource {
    pub id: String,
    pub schema: Schema,
    pub spec: KafkaSourceSpec,
    pub schema_manager: DynamicSchemaManager,
}

impl KafkaPipelineSource {
    /// A source whose manager is configured by the spec's schema settings.
    pub fn new(spec: KafkaSourceSpec) -> (r: KafkaPipelineSource)
        ensures
            r.schema_manager.wf(),
            r.schema_manager.current() is None,
            r.schema_manager.infers() == match spec.schema {
                Some(c) => c.auto_infer,
                None => true,
            },
            r.schema_manager.configured() == match spec.schema {
                Some(c) => if c.fields@.len() > 0 {
                    Some(configured_view(c.fields@))
                } else {
                    None
                },
                None => None,
            },
            r.spec == spec,
            r.schema@ == Seq::<FieldView>::empty(),
            r.id@ == spec.id@,
    {
        let manager = DynamicSchemaManager::new().with_config(&spec.schema);
        let id = spec.id.clone();
        KafkaPipelineSource { id, schema: Schema::empty(), spec, schema_manager: manager }
    }

    /// Sets the schema computed ahead of the run.
    pub fn with_schema(self, schema: Schema) -> (r: KafkaPipelineSource)
        ensures
            r.schema@ == schema@,
            r.schema_manager == self.schema_manager,
            r.id == self.id,
    {
        let mut s = self;
        s.schema = schema;
        s
    }

    /// The operator's id.
    pub fn name(&self) -> (r: &str)
        ensures
            r@ == self.id@,
    {
        self.id.as_str()
    }

    /// The manager's current schema, else its configured one, else empty.
    pub fn schema(&self) -> (r: Schema)
        ensures
            r@ == match self.schema_manager.current() {
                Some(s) => s,
                None => match self.schema_manager.configured() {
                    Some(c) => c,
                    None => Seq::empty(),
                },
            },
    {
        match self.schema_manager.get_current_schema() {
            Some(s) => s,
            None => Schema::empty(),
        }
    }

    /// Takes one payload: `None` when it did not parse. Unparsed payloads
    /// and values that are not objects are dropped (`Ok(None)`, nothing
    /// changes). An object is handed to the manager (see
    /// `update_schema_if_needed`) and becomes a one-row batch under the
    /// schema the manager then holds: fields the record lacks are null,
    /// members the schema lacks are ignored. With no schema at all (no
    /// inference and none configured) it is `NoSchema`.
    pub fn on_record(&mut self, value: Option<JsonValue>) -> (r: Result<Option<Message>, RdeError>)
        requires
            old(self).schema_manager.wf(),
            value matches Some(v) ==> v.wf(),
        ensures
            final(self).schema_manager.wf(),
            final(self).id == old(self).id,
            final(self).spec == old(self).spec,
            !(value matches Some(JsonValue::Object(_))) ==> r == Ok::<Option<Message>, RdeError>(
                None,
            ) && final(self).schema_manager == old(self).schema_manager,
            value is Some && value->0 is Object ==> {
                let v = value->0;
                let m0 = old(self).schema_manager;
                let m = final(self).schema_manager;
                let s = match m.current() {
                    Some(s) => Some(s),
                    None => m.configured(),
                };
                &&& m.configured() == m0.configured()
                &&& m.infers() == m0.infers()
                &&& m0.infers() ==> m.current() == Some(merge(m0.base(), infer_record(v)))
                &&& !m0.infers() ==> m.current() == if m0.current() is None {
                    m0.configured()
                } else {
                    m0.current()
                }
                &&& s is None ==> r == Err::<Option<Message>, RdeError>(RdeError::NoSchema)
                &&& s matches Some(s) ==> (r matches Ok(Some(Message::Batch(b))) && b.wf()
                    && b.schema@ == s && b.rows@.len() == 1 && row_view(b.rows@[0]@) == record_row(
                    v,
                    s,
                ))
            },
    {
        let v = match value {
            Some(v) => v,
            None => {
                return Ok(None);
            },
        };
        match &v {
            JsonValue::Object(_) => {},
            _ => {
                return Ok(None);
            },
        }
        self.schema_manager.update_schema_if_needed(&v);
        let schema = match self.schema_manager.get_current_schema() {
            Some(s) => s,
            None => {
                return Err(RdeError::NoSchema);
            },
        };
        proof {
            self.schema_manager.lemma_published_wf();
        }
        let row = record_to_row(v, &schema);
        let mut rows: Vec<Vec<Cell>> = Vec::new();
        rows.push(row);
        let b = Batch { schema, rows };
        assert(b.rows@[0]@.len() == row_view(b.rows@[0]@).len());
        Ok(Some(Message::Batch(b)))
    }
}

/// The delimited-text file source's settings.
pub struct CsvSource {
    pub id: String,
    pub schema: Schema,
    pub spec: CsvSourceSpec,
}

impl CsvSource {
    /// A source with an empty schema until one is set.
    pub fn try_new(spec: CsvSourceSpec) -> (r: Result<CsvSource, RdeError>)
        ensures
            r matches Ok(s) && s.id@ == spec.id@ && s.schema@ == Seq::<FieldView>::empty(),
    {
        Ok(CsvSource { id: spec.id.clone(), schema: Schema::empty(), spec })
    }

    /// Sets the schema inferred ahead of the run.
    pub fn with_schema(self, schema: Schema) -> (r: CsvSource)
        ensures
            r.schema@ == schema@,
            r.id == self.id,
    {
        let mut s = self;
        s.schema = schema;
        s
    }

    /// The operator's id.
    pub fn name(&self) -> (r: &str)
        ensures
            r@ == self.id@,
    {
        self.id.as_str()
    }

    /// The source's schema.
    pub fn schema(&self) -> (r: Schema)
        ensures
            r@ == self.schema@,
    {
        self.schema.copy()
    }

    /// Accepts the files the pattern matched, in the order given; no match
    /// is an error naming the pattern.
    pub fn check_matches(&self, paths: Vec<String>) -> (r: Result<Vec<String>, RdeError>)
        ensures
            paths@.len() == 0 ==> r == Err::<Vec<String>, RdeError>(RdeError::NoFilesMatched(self.spec.path)),
            paths@.len() > 0 ==> r == Ok::<Vec<String>, RdeError>(paths),
    {
        if paths.len() == 0 {
            Err(RdeError::NoFilesMatched(self.spec.path.clone()))
        } else {
            Ok(paths)
        }
    }
}

/// The column-file-directory sink's settings.
pub struct ParquetDirSink {
    id: String,
    dir: String,
    schema: Schema,
}

impl ParquetDirSink {
    /// A sink writing into `dir`.
    pub fn new(id: String, dir: String, schema: Schema) -> (r: ParquetDirSink)
        ensures
            r.sink_id() == id@,
            r.sink_dir() == dir@,
            r.sink_schema() == schema@,
    {
        ParquetDirSink { id, dir, schema }
    }

    /// The operator id.
    pub closed spec fn sink_id(&self) -> Seq<char> {
        self.id@
    }

    /// The output directory.
    pub closed spec fn sink_dir(&self) -> Seq<char> {
        self.dir@
    }

    /// The declared schema.
    pub closed spec fn sink_schema(&self) -> Seq<FieldView> {
        self.schema@
    }

    /// The operator id.
    pub fn name(&self) -> (r: &str)
        ensures
            r@ == self.sink_id(),
    {
        self.id.as_str()
    }

    /// The declared schema.
    pub fn schema(&self) -> (r: Schema)
        ensures
            r@ == self.sink_schema(),
    {
        self.schema.copy()
    }

    /// The output directory.
    pub fn dir(&self) -> (r: &str)
        ensures
            r@ == self.sink_dir(),
    {
        self.dir.as_str()
    }

    /// The name of the one file the sink writes: `{id}.parquet`.
    pub fn file_name(&self) -> (r: String)
        ensures
            r@ == self.sink_id() + ".parquet"@,
    {
        let mut s = self.id.clone();
        s.append(".parquet");
        s
    }
}

/// The lines the console sink prints for one row: one per text column,
/// the value itself, or empty for anything else.
pub open spec fn row_lines(row: Seq<crate::batch::CellView>, schema: Seq<FieldView>) -> Seq<Seq<char>>
    decreases schema.len(),
{
    if schema.len() == 0 {
        Seq::empty()
    } else {
        let init = row_lines(row, schema.drop_last());
        let c = schema.len() - 1;
        if schema.last().1 is Utf8 {
            init.push(
                match row[c] {
                    crate::batch::CellView::Str(s) => s,
                    _ => Seq::empty(),
                },
            )
        } else {
            init
        }
    }
}

/// The console sink.
pub struct StdoutSink {
    id: String,
    schema: Schema,
}

impl StdoutSink {
    /// A console sink.
    pub fn new(id: String, schema: Schema) -> (r: StdoutSink)
        ensures
            r.sink_id() == id@,
            r.sink_schema() == schema@,
    {
        StdoutSink { id, schema }
    }

    /// The operator id.
    pub closed spec fn sink_id(&self) -> Seq<char> {
        self.id@
    }

    /// The declared schema.
    pub closed spec fn sink_schema(&self) -> Seq<FieldView> {
        self.schema@
    }

    /// The operator id.
    pub fn name(&self) -> (r: &str)
        ensures
            r@ == self.sink_id(),
    {
        self.id.as_str()
    }

    /// The declared schema.
    pub fn schema(&self) -> (r: Schema)
        ensures
            r@ == self.sink_schema(),
    {
        self.schema.copy()
    }

    /// The lines to print for a message: for a batch, each row's text
    /// columns in order; for a watermark, `watermark={ts}`; nothing for the
    /// end of stream.
    pub fn render(&self, msg: &Message) -> (r: Vec<String>)
        requires
            msg matches Message::Batch(b) ==> b.wf(),
        ensures
            msg matches Message::Watermark(ts) ==> r@.len() == 1 && r@[0]@ == "watermark="@
                + int_text(ts as int),
            msg is Eos ==> r@.len() == 0,
            msg matches Message::Batch(b) ==> r@.map_values(|s: String| s@) == batch_lines(
                b.rows_view(),
                b.schema@,
            ),
    {
        let mut out: Vec<String> = Vec::new();
        match msg {
            Message::Batch(b) => {
                let mut i: usize = 0;
                while i < b.rows.len()
                    invariant
                        b.wf(),
                        i <= b.rows@.len(),
                        out@.map_values(|s: String| s@) == batch_lines(b.rows_view().take(i as int), b.schema@),
                    decreases b.rows@.len() - i,
                {
                    proof {
                        assert(b.rows_view().take(i as int + 1).drop_last() =~= b.rows_view().take(i as int));
                    }
                    let ghost before = out@.map_values(|s: String| s@);
                    let row = &b.rows[i];
                    let mut c: usize = 0;
                    while c < b.schema.fields.len()
                        invariant
                            b.wf(),
                            i < b.rows@.len(),
                            row == &b.rows@[i as int],
                            c <= b.schema@.len(),
                            out@.map_values(|s: String| s@) == before + row_lines(
                                row_view(row@),
                                b.schema@.take(c as int),
                            ),
                        decreases b.schema@.len() - c,
                    {
                        proof {
                            assert(b.schema@.take(c as int + 1).drop_last() =~= b.schema@.take(c as int));
                            assert(row@.len() == b.schema@.len());
                        }
                        let ghost mid = out@.map_values(|s: String| s@);
                        match &b.schema.fields[c].data_type {
                            DataType::Utf8 => {
                                let line = match &row[c] {
                                    Cell::Str(s) => s.clone(),
                                    _ => String::new(),
                                };
                                out.push(line);
                                assert(out@.map_values(|s: String| s@) =~= mid.push(line@));
                            },
                            _ => {},
                        }
                        c = c + 1;
                    }
                    assert(b.schema@.take(b.schema@.len() as int) =~= b.schema@);
                    i = i + 1;
                }
                assert(b.rows_view().take(b.rows@.len() as int) =~= b.rows_view());
            },
            Message::Watermark(ts) => {
                let mut line = String::from_str("watermark=");
                let t = i64_text(*ts);
                line.append(t.as_str());
                out.push(line);
            },
            Message::Eos => {},
        }
        out
    }
}

/// The lines the console sink prints for rows, in order.
pub open spec fn batch_lines(rows: Seq<Seq<crate::batch::CellView>>, schema: Seq<FieldView>) -> Seq<Seq<char>>
    decreases rows.len(),
{
    if rows.len() == 0 {
        Seq::empty()
    } else {
        batch_lines(rows.drop_last(), schema) + row_lines(rows.last(), schema)
    }
}

} // verus!
