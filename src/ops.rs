//! The transform operators. Each takes the messages of its input channel
//! one at a time and says what to send downstream; watermarks and the end
//! of stream are passed on.

use crate::batch::{row_schema, row_view, Batch, Cell, CellView, Message};
use crate::error::RdeError;
use crate::schema::{
    admits, find_refused, has_name, name_index, first_refused_from, lemma_merge_wf, merge,
    merge_schemas, DataType, Field, FieldView, Schema,
};
use crate::text::{
    i64_text, int_text, nat_text, replace_all, replace_text, u64_text, lower_text, title_text,
    to_lower, to_title, to_upper, trim_text, trimmed, upper_text,
};
use vstd::prelude::*;

verus! {

/// The identity transform.
pub struct Passthrough {
    id: String,
    schema: Schema,
}

impl Passthrough {
    /// The operator's id.
    pub closed spec fn op_id(&self) -> Seq<char> {
        self.id@
    }

    /// The operator's output schema.
    pub closed spec fn out_schema(&self) -> Seq<FieldView> {
        self.schema@
    }

    /// A passthrough with the given id and schema.
    pub fn new(id: String, schema: Schema) -> (r: Passthrough)
        ensures
            r.op_id() == id@,
            r.out_schema() == schema@,
    {
        Passthrough { id, schema }
    }

    /// The operator's id.
    pub fn name(&self) -> (r: &str)
        ensures
            r@ == self.op_id(),
    {
        self.id.as_str()
    }

    /// The output schema, which is the input schema.
    pub fn schema(&self) -> (r: Schema)
        ensures
            r@ == self.out_schema(),
    {
        self.schema.copy()
    }

    /// Forwards every message unchanged.
    pub fn process(&mut self, msg: Message) -> (r: Vec<Message>)
        ensures
            r@ == seq![msg],
    {
        let mut out: Vec<Message> = Vec::new();
        out.push(msg);
        assert(out@ =~= seq![msg]);
        out
    }
}

/// What the windowed SQL transform asks of its caller after a message: run
/// the query over these batches, concatenated as `input_data`, and send the
/// one result batch; then send `forward`.
pub struct SqlStep {
    pub query_input: Option<Vec<Batch>>,
    pub forward: Option<Message>,
}

/// A windowed transform through the embedded SQL engine: batches are
/// buffered until `window_size` have arrived or a watermark or the end of
/// stream comes.
pub struct SqlTransform {
    id: String,
    schema: Schema,
    query: String,
    window_size: usize,
    buffer: Vec<Batch>,
}

impl SqlTransform {
    /// The operator's id.
    pub closed spec fn op_id(&self) -> Seq<char> {
        self.id@
    }

    /// The batches buffered since the last query.
    pub closed spec fn buffered(&self) -> Seq<Batch> {
        self.buffer@
    }

    /// The window size.
    pub closed spec fn window(&self) -> usize {
        self.window_size
    }

    /// The operator's output schema before any result is seen.
    pub closed spec fn out_schema(&self) -> Seq<FieldView> {
        self.schema@
    }

    /// The query text.
    pub closed spec fn query_text(&self) -> Seq<char> {
        self.query@
    }

    /// A windowed SQL transform with an empty buffer.
    pub fn new(id: String, schema: Schema, query: String, window_size: usize) -> (r: Result<
        SqlTransform,
        RdeError,
    >)
        ensures
            r matches Ok(t) && t.buffered().len() == 0 && t.window() == window_size
                && t.out_schema() == schema@ && t.query_text() == query@ && t.op_id() == id@,
    {
        Ok(SqlTransform { id, schema, query, window_size, buffer: Vec::new() })
    }

    /// The operator's id.
    pub fn name(&self) -> (r: &str)
        ensures
            r@ == self.op_id(),
    {
        self.id.as_str()
    }

    /// The declared output schema.
    pub fn schema(&self) -> (r: Schema)
        ensures
            r@ == self.out_schema(),
    {
        self.schema.copy()
    }

    /// The query text.
    pub fn query(&self) -> (r: &str)
        ensures
            r@ == self.query_text(),
    {
        self.query.as_str()
    }

    /// Takes one message. A batch joins the buffer, and once the buffer
    /// holds `window_size` batches they are handed out for one query. A
    /// watermark or the end of stream hands out what is buffered, if
    /// anything, and is then forwarded.
    pub fn on_message(&mut self, msg: Message) -> (r: SqlStep)
        ensures
            final(self).window() == old(self).window(),
            final(self).out_schema() == old(self).out_schema(),
            final(self).query_text() == old(self).query_text(),
            match msg {
                Message::Batch(b) => {
                    let all = old(self).buffered().push(b);
                    &&& r.forward is None
                    &&& all.len() >= old(self).window() ==> (r.query_input matches Some(q) && q@
                        == all && final(self).buffered().len() == 0)
                    &&& all.len() < old(self).window() ==> (r.query_input is None
                        && final(self).buffered() == all)
                },
                _ => {
                    &&& r.forward == Some(msg)
                    &&& old(self).buffered().len() == 0 ==> r.query_input is None
                    &&& old(self).buffered().len() > 0 ==> (r.query_input matches Some(q) && q@
                        == old(self).buffered())
                    &&& final(self).buffered().len() == 0
                },
            },
    {
        match msg {
            Message::Batch(b) => {
                self.buffer.push(b);
                if self.buffer.len() >= self.window_size {
                    let mut full: Vec<Batch> = Vec::new();
                    std::mem::swap(&mut full, &mut self.buffer);
                    SqlStep { query_input: Some(full), forward: None }
                } else {
                    SqlStep { query_input: None, forward: None }
                }
            },
            other => {
                let mut held: Vec<Batch> = Vec::new();
                std::mem::swap(&mut held, &mut self.buffer);
                let query_input = if held.len() > 0 {
                    Some(held)
                } else {
                    None
                };
                SqlStep { query_input, forward: Some(other) }
            },
        }
    }
}

/// The case a configured name selects: `lower`, `upper`, `title`, or none.
pub open spec fn case_of(name: Option<Seq<char>>, s: Seq<char>) -> Seq<char> {
    match name {
        Some(n) => if n == "lower"@ {
            lower_text(s)
        } else if n == "upper"@ {
            upper_text(s)
        } else if n == "title"@ {
            title_text(s)
        } else {
            s
        },
        None => s,
    }
}

/// A text value after cleaning: trimmed if asked, then case-normalised.
pub open spec fn cleaned(s: Seq<char>, trim: bool, case: Option<Seq<char>>) -> Seq<char> {
    case_of(case, if trim { trimmed(s) } else { s })
}

/// A cell of a column after cleaning: text values of text columns are
/// cleaned, everything else is kept.
pub open spec fn clean_cell(c: CellView, t: DataType, trim: bool, case: Option<Seq<char>>) -> CellView {
    match c {
        CellView::Str(s) => if t is Utf8 {
            CellView::Str(cleaned(s, trim, case))
        } else {
            c
        },
        _ => c,
    }
}

/// `out` is `input` with its text values cleaned.
pub open spec fn cleaned_batch(input: Batch, out: Batch, trim: bool, case: Option<Seq<char>>) -> bool {
    &&& out.wf()
    &&& out.schema@ == input.schema@
    &&& out.rows@.len() == input.rows@.len()
    &&& forall|i: int, c: int|
        0 <= i < input.rows@.len() && 0 <= c < input.schema@.len() ==> (
        #[trigger] out.rows@[i]@[c])@ == clean_cell(input.rows@[i]@[c]@, input.schema@[c].1, trim, case)
}

/// The view of an optional string.
pub open spec fn opt_view(s: Option<String>) -> Option<Seq<char>> {
    match s {
        Some(x) => Some(x@),
        None => None,
    }
}

/// Cleans the text columns of batches.
pub struct CleanData {
    id: String,
    schema: Schema,
    remove_nulls: bool,
    trim_strings: bool,
    normalize_case: Option<String>,
}

impl CleanData {
    /// The operator's id.
    pub closed spec fn op_id(&self) -> Seq<char> {
        self.id@
    }

    /// Whether text is trimmed.
    pub closed spec fn trims(&self) -> bool {
        self.trim_strings
    }

    /// The configured case, if any.
    pub closed spec fn case(&self) -> Option<Seq<char>> {
        opt_view(self.normalize_case)
    }

    /// The operator's output schema.
    pub closed spec fn out_schema(&self) -> Seq<FieldView> {
        self.schema@
    }

    /// A cleaning transform. `remove_nulls` is accepted for configuration
    /// compatibility and changes nothing.
    pub fn new(
        id: String,
        schema: Schema,
        remove_nulls: bool,
        trim_strings: bool,
        normalize_case: Option<String>,
    ) -> (r: CleanData)
        ensures
            r.op_id() == id@,
            r.trims() == trim_strings,
            r.case() == opt_view(normalize_case),
            r.out_schema() == schema@,
    {
        CleanData { id, schema, remove_nulls, trim_strings, normalize_case }
    }

    /// The operator's id.
    pub fn name(&self) -> (r: &str)
        ensures
            r@ == self.op_id(),
    {
        self.id.as_str()
    }

    /// The output schema, which is the input schema.
    pub fn schema(&self) -> (r: Schema)
        ensures
            r@ == self.out_schema(),
    {
        self.schema.copy()
    }

    /// Cleans one text value.
    pub fn clean_text(&self, s: &str) -> (r: String)
        ensures
            r@ == cleaned(s@, self.trims(), self.case()),
    {
        let t = if self.trim_strings {
            trim_text(s)
        } else {
            String::from_str(s)
        };
        match &self.normalize_case {
            Some(n) => {
                if *n == String::from_str("lower") {
                    to_lower(t.as_str())
                } else if *n == String::from_str("upper") {
                    to_upper(t.as_str())
                } else if *n == String::from_str("title") {
                    to_title(t.as_str())
                } else {
                    t
                }
            },
            None => t,
        }
    }

    /// Cleans a batch: every text value of a text column is cleaned; the
    /// schema, the other columns and nulls are kept.
    pub fn clean_batch(&self, batch: Batch) -> (r: Batch)
        requires
            batch.wf(),
        ensures
            cleaned_batch(batch, r, self.trims(), self.case()),
    {
        let Batch { schema, rows } = batch;
        let ghost orig = rows@;
        let mut out: Vec<Vec<Cell>> = Vec::new();
        for row in it: rows
            invariant
                it.seq() == orig,
                out@.len() == it.index(),
                schema.wf(),
                forall|i: int| 0 <= i < orig.len() ==> (#[trigger] orig[i])@.len() == schema@.len(),
                forall|i: int| 0 <= i < out@.len() ==> (#[trigger] out@[i])@.len() == schema@.len(),
                forall|i: int, c: int|
                    0 <= i < out@.len() && 0 <= c < schema@.len() ==> (#[trigger] out@[i]@[c])@
                        == clean_cell(orig[i]@[c]@, schema@[c].1, self.trims(), self.case()),
        {
            let ghost k = out@.len() as int;
            let ghost src = row@;
            assert(src == orig[k]@);
            let mut cells: Vec<Cell> = Vec::new();
            let mut c: usize = 0;
            for cell in cit: row
                invariant
                    cit.seq() == src,
                    cells@.len() == cit.index(),
                    src.len() == schema@.len(),
                    forall|j: int|
                        0 <= j < cells@.len() ==> (#[trigger] cells@[j])@ == clean_cell(
                            src[j]@,
                            schema@[j].1,
                            self.trims(),
                            self.case(),
                        ),
            {
                let j = cells.len();
                let is_text = match &schema.fields[j].data_type {
                    DataType::Utf8 => true,
                    _ => false,
                };
                let next = match cell {
                    Cell::Str(s) => if is_text {
                        Cell::Str(self.clean_text(s.as_str()))
                    } else {
                        Cell::Str(s)
                    },
                    other => other,
                };
                cells.push(next);
            }
            out.push(cells);
        }
        Batch { schema, rows: out }
    }

    /// Cleans each batch; forwards other messages.
    pub fn process(&mut self, msg: Message) -> (r: Vec<Message>)
        requires
            msg matches Message::Batch(b) ==> b.wf(),
        ensures
            !(msg is Batch) ==> r@ == seq![msg],
            msg matches Message::Batch(b) ==> (r@.len() == 1 && (r@[0] matches Message::Batch(o)
                && cleaned_batch(b, o, old(self).trims(), old(self).case()))),
    {
        let mut out: Vec<Message> = Vec::new();
        match msg {
            Message::Batch(b) => {
                out.push(Message::Batch(self.clean_batch(b)));
            },
            other => {
                out.push(other);
                assert(out@ =~= seq![other]);
            },
        }
        out
    }
}

/// The schema after observing rows: each row's schema is merged in turn;
/// in strict mode a row with a field whose type cannot meet the schema so
/// far is refused, naming the first such field.
pub open spec fn evolve_rows(
    cur: Seq<FieldView>,
    rows: Seq<Seq<CellView>>,
    schema: Seq<FieldView>,
    strict: bool,
) -> Result<Seq<FieldView>, Seq<char>>
    decreases rows.len(),
{
    if rows.len() == 0 {
        Ok(cur)
    } else {
        match evolve_rows(cur, rows.drop_last(), schema, strict) {
            Err(n) => Err(n),
            Ok(s) => {
                let rs = row_schema(rows.last(), schema);
                if strict && !admits(s, rs, true) {
                    Err(rs[first_refused_from(s, rs, true, 0)].0)
                } else {
                    Ok(merge(s, rs))
                }
            },
        }
    }
}

proof fn lemma_evolve_err(
    cur: Seq<FieldView>,
    rows: Seq<Seq<CellView>>,
    schema: Seq<FieldView>,
    strict: bool,
    k: int,
)
    requires
        0 <= k <= rows.len(),
        evolve_rows(cur, rows.take(k), schema, strict) is Err,
    ensures
        evolve_rows(cur, rows, schema, strict) == evolve_rows(cur, rows.take(k), schema, strict),
    decreases rows.len() - k,
{
    if k == rows.len() {
        assert(rows.take(k) =~= rows);
    } else {
        assert(rows.take(k + 1).drop_last() =~= rows.take(k));
        lemma_evolve_err(cur, rows, schema, strict, k + 1);
    }
}

/// What observing batch `b` does: when not inferring, it succeeds and keeps
/// the schema; when inferring, it succeeds with `evolve_rows` as the new
/// schema, or fails naming the field `evolve_rows` refuses and keeps the
/// schema.
pub open spec fn evolution_step(
    cur: Seq<FieldView>,
    b: Batch,
    infers: bool,
    strict: bool,
    ok: bool,
    refused: Option<Seq<char>>,
    next: Seq<FieldView>,
) -> bool {
    if !infers {
        ok && next == cur
    } else {
        match evolve_rows(cur, b.rows_view(), b.schema@, strict) {
            Ok(s) => ok && next == s,
            Err(n) => !ok && refused == Some(n) && next == cur,
        }
    }
}

/// Tracks the schema of the batches passing through.
pub struct SchemaEvolution {
    id: String,
    schema: Schema,
    auto_infer: bool,
    strict_mode: bool,
    current_schema: Schema,
}

impl SchemaEvolution {
    /// The operator's id.
    pub closed spec fn op_id(&self) -> Seq<char> {
        self.id@
    }

    /// The current schema.
    pub closed spec fn current(&self) -> Seq<FieldView> {
        self.current_schema@
    }

    /// Whether batches are inspected.
    pub closed spec fn infers(&self) -> bool {
        self.auto_infer
    }

    /// Whether incompatible changes are refused.
    pub closed spec fn strict(&self) -> bool {
        self.strict_mode
    }

    /// The current schema has distinct names.
    pub closed spec fn wf(&self) -> bool {
        self.current_schema.wf()
    }

    /// A schema-evolution transform starting from `schema`.
    pub fn new(id: String, schema: Schema, auto_infer: bool, strict_mode: bool) -> (r:
        SchemaEvolution)
        requires
            schema.wf(),
        ensures
            r.wf(),
            r.op_id() == id@,
            r.current() == schema@,
            r.infers() == auto_infer,
            r.strict() == strict_mode,
    {
        let current_schema = schema.copy();
        SchemaEvolution { id, schema, auto_infer, strict_mode, current_schema }
    }

    /// The operator's id.
    pub fn name(&self) -> (r: &str)
        ensures
            r@ == self.op_id(),
    {
        self.id.as_str()
    }

    /// The current schema.
    pub fn schema(&self) -> (r: Schema)
        ensures
            r@ == self.current(),
    {
        self.current_schema.copy()
    }

    /// Observes a batch: when inferring, the current schema becomes
    /// `evolve_rows` of it over the batch's rows, or, in strict mode, the
    /// batch is refused with `SchemaMismatch` and nothing changes.
    pub fn observe(&mut self, batch: &Batch) -> (r: Result<(), RdeError>)
        requires
            old(self).wf(),
            batch.wf(),
        ensures
            final(self).wf(),
            final(self).infers() == old(self).infers(),
            final(self).strict() == old(self).strict(),
            final(self).op_id() == old(self).op_id(),
            !old(self).infers() ==> r is Ok && final(self).current() == old(self).current(),
            old(self).infers() ==> match evolve_rows(
                old(self).current(),
                batch.rows_view(),
                batch.schema@,
                old(self).strict(),
            ) {
                Ok(s) => r is Ok && final(self).current() == s,
                Err(n) => (r matches Err(RdeError::SchemaMismatch(m)) && m@ == n)
                    && final(self).current() == old(self).current(),
            },
    {
        if !self.auto_infer {
            return Ok(());
        }
        let ghost rows = batch.rows_view();
        let mut cur = self.current_schema.copy();
        let mut i: usize = 0;
        while i < batch.rows.len()
            invariant
                i <= batch.rows@.len(),
                batch.wf(),
                rows == batch.rows_view(),
                cur.wf(),
                *self == *old(self),
                self.wf(),
                self.auto_infer,
                evolve_rows(self.current(), rows.take(i as int), batch.schema@, self.strict())
                    == Ok::<Seq<FieldView>, Seq<char>>(cur@),
            decreases batch.rows@.len() - i,
        {
            proof {
                assert(rows.take(i as int + 1).drop_last() =~= rows.take(i as int));
                assert(rows.take(i as int + 1).last() == row_view(batch.rows@[i as int]@));
            }
            let rs = crate::batch::row_schema_of(&batch.rows[i], &batch.schema);
            if self.strict_mode {
                let j = find_refused(&cur, &rs, true);
                if j < rs.fields.len() {
                    proof {
                        assert(rs@[j as int].0 == rs.fields@[j as int].name@);
                        lemma_evolve_err(
                            self.current(),
                            rows,
                            batch.schema@,
                            self.strict(),
                            i as int + 1,
                        );
                    }
                    return Err(RdeError::SchemaMismatch(rs.fields[j].name.clone()));
                }
            }
            proof {
                lemma_merge_wf(cur@, rs@);
            }
            cur = merge_schemas(&cur, &rs);
            i = i + 1;
        }
        assert(rows.take(i as int) =~= rows);
        self.current_schema = cur;
        Ok(())
    }

    /// Observes each batch and forwards every message.
    pub fn process(&mut self, msg: Message) -> (r: Result<Vec<Message>, RdeError>)
        requires
            old(self).wf(),
            msg matches Message::Batch(b) ==> b.wf(),
        ensures
            final(self).wf(),
            final(self).infers() == old(self).infers(),
            final(self).strict() == old(self).strict(),
            final(self).op_id() == old(self).op_id(),
            r matches Ok(out) ==> out@ == seq![msg],
            !(msg is Batch) ==> r is Ok && final(self).current() == old(self).current(),
            msg matches Message::Batch(b) ==> evolution_step(
                old(self).current(),
                b,
                old(self).infers(),
                old(self).strict(),
                r is Ok,
                match r {
                    Err(RdeError::SchemaMismatch(n)) => Some(n@),
                    _ => None,
                },
                final(self).current(),
            ),
    {
        match &msg {
            Message::Batch(b) => {
                match self.observe(b) {
                    Ok(()) => {},
                    Err(e) => {
                        return Err(e);
                    },
                }
            },
            _ => {},
        }
        let mut out: Vec<Message> = Vec::new();
        out.push(msg);
        assert(out@ =~= seq![msg]);
        Ok(out)
    }
}

/// Relies on chrono's `Utc::now` and `format("%Y-%m-%d")`: today's date in
/// UTC as text.
#[verifier::external_body]
fn today_utc() -> (r: String) {
    chrono::Utc::now().format("%Y-%m-%d").to_string()
}

/// The text a cell contributes to a partition key.
pub open spec fn cell_text(c: CellView) -> Seq<char> {
    match c {
        CellView::Null => "null"@,
        CellView::Bool(b) => if b {
            "true"@
        } else {
            "false"@
        },
        CellView::Int(i) => int_text(i as int),
        CellView::Float(t) => t,
        CellView::Str(t) => t,
        CellView::Json(_) => "unknown"@,
    }
}

/// The values of the partition fields in a row; a field the schema lacks
/// gives `unknown`.
pub open spec fn partition_values(row: Seq<CellView>, schema: Seq<FieldView>, by: Seq<Seq<char>>) -> Seq<Seq<char>> {
    by.map_values(
        |n: Seq<char>|
            if has_name(schema, n) {
                cell_text(row[name_index(schema, n)])
            } else {
                "unknown"@
            },
    )
}

/// The values joined with a separator.
pub open spec fn join_with(vals: Seq<Seq<char>>, sep: Seq<char>) -> Seq<char>
    decreases vals.len(),
{
    if vals.len() == 0 {
        Seq::empty()
    } else if vals.len() == 1 {
        vals[0]
    } else {
        join_with(vals.drop_last(), sep) + sep + vals.last()
    }
}

/// `{i}`
pub open spec fn placeholder(i: nat) -> Seq<char> {
    "{"@ + nat_text(i) + "}"@
}

/// The template with `{0}`, `{1}`, ... replaced in turn by the values.
pub open spec fn fill_template(t: Seq<char>, vals: Seq<Seq<char>>) -> Seq<char>
    decreases vals.len(),
{
    if vals.len() == 0 {
        t
    } else {
        replace_all(
            fill_template(t, vals.drop_last()),
            placeholder((vals.len() - 1) as nat),
            vals.last(),
        )
    }
}

/// A row's partition key: the values joined by `/` without a template, or
/// substituted into it.
pub open spec fn partition_key_of(
    row: Seq<CellView>,
    schema: Seq<FieldView>,
    by: Seq<Seq<char>>,
    format: Seq<char>,
) -> Seq<char> {
    let vals = partition_values(row, schema, by);
    if format.len() == 0 {
        join_with(vals, "/"@)
    } else {
        fill_template(format, vals)
    }
}

/// The schema with the two partition columns appended.
pub open spec fn partition_schema(s: Seq<FieldView>) -> Seq<FieldView> {
    s + seq![("partition_key"@, DataType::Utf8, true), ("partition_date"@, DataType::Utf8, true)]
}

/// `out` is `input` with the partition columns appended: each row its key
/// under `by` and `format`, and `date`.
pub open spec fn partitioned(input: Batch, out: Batch, by: Seq<Seq<char>>, format: Seq<char>, date: Seq<char>) -> bool {
    &&& out.wf()
    &&& out.schema@ == partition_schema(input.schema@)
    &&& out.rows@.len() == input.rows@.len()
    &&& forall|i: int|
        0 <= i < input.rows@.len() ==> row_view((#[trigger] out.rows@[i])@) == row_view(
            input.rows@[i]@,
        ) + seq![
            CellView::Str(partition_key_of(row_view(input.rows@[i]@), input.schema@, by, format)),
            CellView::Str(date),
        ]
}

/// `out` is `input` with the partition columns appended for some date.
pub open spec fn partitioned_on_some_date(input: Batch, out: Batch, by: Seq<Seq<char>>, format: Seq<char>) -> bool {
    exists|date: Seq<char>| partitioned(input, out, by, format, date)
}

/// The text of a cell in a partition key.
pub fn cell_to_text(c: &Cell) -> (r: String)
    ensures
        r@ == cell_text(c@),
{
    match c {
        Cell::Null => String::from_str("null"),
        Cell::Bool(b) => if *b {
            String::from_str("true")
        } else {
            String::from_str("false")
        },
        Cell::Int(i) => i64_text(*i),
        Cell::Float(t) => t.clone(),
        Cell::Str(t) => t.clone(),
        Cell::Json(_) => String::from_str("unknown"),
    }
}

fn placeholder_text(i: usize) -> (r: String)
    ensures
        r@ == placeholder(i as nat),
{
    let mut s = String::from_str("{");
    let n = u64_text(i as u64);
    s.append(n.as_str());
    s.append("}");
    s
}

/// Adds partition columns to batches.
pub struct Partition {
    id: String,
    schema: Schema,
    partition_by: Vec<String>,
    partition_format: String,
}

impl Partition {
    /// The operator's id.
    pub closed spec fn op_id(&self) -> Seq<char> {
        self.id@
    }

    /// The partition field names.
    pub closed spec fn by(&self) -> Seq<Seq<char>> {
        self.partition_by@.map_values(|n: String| n@)
    }

    /// The key template.
    pub closed spec fn format(&self) -> Seq<char> {
        self.partition_format@
    }

    /// The input schema.
    pub closed spec fn in_schema(&self) -> Seq<FieldView> {
        self.schema@
    }

    /// A partition transform over the given input schema.
    pub fn new(id: String, schema: Schema, partition_by: Vec<String>, partition_format: String) -> (r:
        Partition)
        ensures
            r.op_id() == id@,
            r.by() == partition_by@.map_values(|n: String| n@),
            r.format() == partition_format@,
            r.in_schema() == schema@,
    {
        Partition { id, schema, partition_by, partition_format }
    }

    /// The operator's id.
    pub fn name(&self) -> (r: &str)
        ensures
            r@ == self.op_id(),
    {
        self.id.as_str()
    }

    /// The output schema: the input schema with `partition_key` and
    /// `partition_date` appended, both nullable text.
    pub fn schema(&self) -> (r: Schema)
        ensures
            r@ == partition_schema(self.in_schema()),
    {
        let mut r = self.schema.copy();
        let ghost before = r@;
        r.fields.push(Field::new(String::from_str("partition_key"), DataType::Utf8, true));
        r.fields.push(Field::new(String::from_str("partition_date"), DataType::Utf8, true));
        assert(r@ =~= partition_schema(before));
        r
    }

    /// The partition key of one row of a batch.
    pub fn generate_partition_key(&self, batch: &Batch, row: usize) -> (r: String)
        requires
            batch.wf(),
            row < batch.rows@.len(),
        ensures
            r@ == partition_key_of(
                row_view(batch.rows@[row as int]@),
                batch.schema@,
                self.by(),
                self.format(),
            ),
    {
        let ghost cells = row_view(batch.rows@[row as int]@);
        let ghost vals = partition_values(cells, batch.schema@, self.by());
        let mut values: Vec<String> = Vec::new();
        let mut i: usize = 0;
        while i < self.partition_by.len()
            invariant
                i <= self.partition_by@.len(),
                batch.wf(),
                row < batch.rows@.len(),
                cells == row_view(batch.rows@[row as int]@),
                vals == partition_values(cells, batch.schema@, self.by()),
                values@.len() == i,
                forall|j: int| 0 <= j < i ==> (#[trigger] values@[j])@ == vals[j],
            decreases self.partition_by@.len() - i,
        {
            let name = &self.partition_by[i];
            let v = match batch.schema.index_of(name) {
                Some(k) => cell_to_text(&batch.rows[row][k]),
                None => String::from_str("unknown"),
            };
            values.push(v);
            i = i + 1;
        }
        let ghost texts = values@.map_values(|v: String| v@);
        assert(texts =~= vals);
        if self.partition_format.as_str().unicode_len() == 0 {
            // Join with `/`.
            let mut out = String::new();
            let mut k: usize = 0;
            while k < values.len()
                invariant
                    k <= values@.len(),
                    texts == values@.map_values(|v: String| v@),
                    out@ == join_with(texts.take(k as int), "/"@),
                decreases values@.len() - k,
            {
                proof {
                    assert(texts.take(k as int + 1).drop_last() =~= texts.take(k as int));
                    assert(texts.take(k as int + 1).last() == values@[k as int]@);
                }
                if k > 0 {
                    out.append("/");
                }
                out.append(values[k].as_str());
                proof {
                    if k == 0 {
                        assert(texts.take(1) =~= seq![texts[0]]);
                    }
                }
                k = k + 1;
            }
            assert(texts.take(values@.len() as int) =~= texts);
            out
        } else {
            let mut out = self.partition_format.clone();
            let mut k: usize = 0;
            while k < values.len()
                invariant
                    k <= values@.len(),
                    texts == values@.map_values(|v: String| v@),
                    out@ == fill_template(self.format(), texts.take(k as int)),
                decreases values@.len() - k,
            {
                proof {
                    assert(texts.take(k as int + 1).drop_last() =~= texts.take(k as int));
                    assert(texts.take(k as int + 1).last() == values@[k as int]@);
                    reveal_strlit("{");
                    reveal_strlit("}");
                }
                let p = placeholder_text(k);
                assert(p@.len() > 0);
                out = replace_text(out.as_str(), p.as_str(), values[k].as_str());
                k = k + 1;
            }
            assert(texts.take(values@.len() as int) =~= texts);
            out
        }
    }

    /// Appends the partition columns to a batch: each row gets its key and
    /// the given date. A batch that already has either column is refused
    /// with `SchemaMismatch` naming it.
    pub fn add_partition_columns(&self, batch: Batch, date: &str) -> (r: Result<Batch, RdeError>)
        requires
            batch.wf(),
        ensures
            has_name(batch.schema@, "partition_key"@) ==> (r matches Err(RdeError::SchemaMismatch(n))
                && n@ == "partition_key"@),
            !has_name(batch.schema@, "partition_key"@) && has_name(batch.schema@, "partition_date"@)
                ==> (r matches Err(RdeError::SchemaMismatch(n)) && n@ == "partition_date"@),
            !has_name(batch.schema@, "partition_key"@) && !has_name(batch.schema@, "partition_date"@)
                ==> (r matches Ok(out) && partitioned(batch, out, self.by(), self.format(), date@)),
    {
        let key_name = String::from_str("partition_key");
        let date_name = String::from_str("partition_date");
        if batch.schema.index_of(&key_name).is_some() {
            return Err(RdeError::SchemaMismatch(key_name));
        }
        if batch.schema.index_of(&date_name).is_some() {
            return Err(RdeError::SchemaMismatch(date_name));
        }
        let mut keys: Vec<String> = Vec::new();
        let mut i: usize = 0;
        while i < batch.rows.len()
            invariant
                i <= batch.rows@.len(),
                batch.wf(),
                keys@.len() == i,
                forall|j: int|
                    0 <= j < i ==> (#[trigger] keys@[j])@ == partition_key_of(
                        row_view(batch.rows@[j]@),
                        batch.schema@,
                        self.by(),
                        self.format(),
                    ),
            decreases batch.rows@.len() - i,
        {
            keys.push(self.generate_partition_key(&batch, i));
            i = i + 1;
        }
        let ghost in_schema = batch.schema@;
        let ghost orig = batch.rows@;
        let Batch { schema, rows } = batch;
        let mut out_schema = schema;
        out_schema.fields.push(Field::new(key_name, DataType::Utf8, true));
        out_schema.fields.push(Field::new(date_name, DataType::Utf8, true));
        assert(out_schema@ =~= partition_schema(in_schema));
        proof {
            let s = out_schema@;
            assert forall|a: int, b: int| 0 <= a < b < s.len() implies s[a].0 != s[b].0 by {
                if b >= in_schema.len() && a < in_schema.len() {
                    assert(s[a] == in_schema[a]);
                    reveal_strlit("partition_key");
                    reveal_strlit("partition_date");
                    if s[a].0 == s[b].0 {
                        assert(has_name(in_schema, s[b].0));
                    }
                }
                if a == in_schema.len() && b == in_schema.len() + 1 {
                    reveal_strlit("partition_key");
                    reveal_strlit("partition_date");
                    assert(s[a].0[10] != s[b].0[10]);
                }
            }
        }
        let mut out: Vec<Vec<Cell>> = Vec::new();
        for row in it: rows
            invariant
                it.seq() == orig,
                out@.len() == it.index(),
                keys@.len() == orig.len(),
                forall|i: int| 0 <= i < orig.len() ==> (#[trigger] orig[i])@.len() == in_schema.len(),
                forall|j: int|
                    0 <= j < orig.len() ==> (#[trigger] keys@[j])@ == partition_key_of(
                        row_view(orig[j]@),
                        in_schema,
                        self.by(),
                        self.format(),
                    ),
                forall|i: int|
                    0 <= i < out@.len() ==> row_view((#[trigger] out@[i])@) == row_view(orig[i]@)
                        + seq![
                        CellView::Str(
                            partition_key_of(row_view(orig[i]@), in_schema, self.by(), self.format()),
                        ),
                        CellView::Str(date@),
                    ],
        {
            let k = out.len();
            let mut cells = row;
            let ghost before = cells@;
            cells.push(Cell::Str(keys[k].clone()));
            cells.push(Cell::Str(String::from_str(date)));
            assert(row_view(cells@) =~= row_view(before) + seq![
                CellView::Str(keys@[k as int]@),
                CellView::Str(date@),
            ]);
            out.push(cells);
        }
        let r = Batch { schema: out_schema, rows: out };
        assert forall|i: int| 0 <= i < r.rows@.len() implies (#[trigger] r.rows@[i])@.len() == r.schema@.len() by {
            assert(row_view(r.rows@[i]@).len() == r.rows@[i]@.len());
            assert(row_view(orig[i]@).len() == orig[i]@.len());
        }
        Ok(r)
    }

    /// Adds the partition columns to each batch, dated today; forwards other
    /// messages.
    pub fn process(&mut self, msg: Message) -> (r: Result<Vec<Message>, RdeError>)
        requires
            msg matches Message::Batch(b) ==> b.wf(),
        ensures
            !(msg is Batch) ==> (r matches Ok(out) && out@ == seq![msg]),
            msg matches Message::Batch(b) ==> {
                &&& has_name(b.schema@, "partition_key"@) || has_name(b.schema@, "partition_date"@)
                    <==> r is Err
                &&& r is Err ==> r->Err_0 is SchemaMismatch
                &&& r matches Ok(out) ==> (out@.len() == 1 && (out@[0] matches Message::Batch(o)
                    && partitioned_on_some_date(b, o, old(self).by(), old(self).format())))
            },
    {
        let mut out: Vec<Message> = Vec::new();
        match msg {
            Message::Batch(b) => {
                let date = today_utc();
                let ghost input = b;
                match self.add_partition_columns(b, date.as_str()) {
                    Ok(added) => {
                        assert(partitioned(input, added, self.by(), self.format(), date@));
                        assert(partitioned_on_some_date(input, added, self.by(), self.format()));
                        out.push(Message::Batch(added));
                    },
                    Err(e) => {
                        return Err(e);
                    },
                }
            },
            other => {
                out.push(other);
                assert(out@ =~= seq![other]);
            },
        }
        Ok(out)
    }
}

} // verus!
