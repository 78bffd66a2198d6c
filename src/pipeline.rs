//! Building a pipeline from its document: the one source and one sink
//! rule, the transforms with the schema threaded through them, the
//! channels between operators, and the initial schema of a mapped table.

use crate::batch::Message;
use crate::config::{PipelineSpec, TransformSpec};
use crate::error::RdeError;
use crate::flatten::JsonFlatten;
use crate::flatten::flattened;
use crate::ops::{
    cleaned_batch, evolution_step, partitioned_on_some_date, partition_schema, CleanData, Partition, Passthrough, SchemaEvolution, SqlTransform,
};
use crate::schema::{has_name, names_unique, FieldView, Schema};
use crate::table::{from_table_schema, schema_of_table, TableMetadata, TableSchema};
use vstd::prelude::*;

verus! {

/// One transform, of any kind.
pub enum TransformOp {
    Passthrough(Passthrough),
    SchemaEvolution(SchemaEvolution),
    JsonFlatten(JsonFlatten),
    Partition(Partition),
    SqlTransform(SqlTransform),
    CleanData(CleanData),
}

/// The schema a transform declares for its input schema: the partition
/// transform appends its two columns; the others declare their input.
pub open spec fn transform_output(spec: TransformSpec, input: Seq<FieldView>) -> Seq<FieldView> {
    match spec {
        TransformSpec::Partition { .. } => partition_schema(input),
        _ => input,
    }
}

/// Whether a transform can be built over an input schema: the partition
/// transform needs its two column names free, and the flattening depth must
/// leave room to count past it.
pub open spec fn transform_ok(spec: TransformSpec, input: Seq<FieldView>) -> bool {
    match spec {
        TransformSpec::Partition { .. } => !has_name(input, "partition_key"@) && !has_name(
            input,
            "partition_date"@,
        ),
        TransformSpec::JsonFlatten { max_depth, .. } => max_depth < usize::MAX - 2,
        _ => true,
    }
}

/// The schema after the first `n` transforms.
pub open spec fn threaded(specs: Seq<TransformSpec>, initial: Seq<FieldView>, n: int) -> Seq<FieldView>
    decreases n,
{
    if n <= 0 {
        initial
    } else {
        transform_output(specs[n - 1], threaded(specs, initial, n - 1))
    }
}

impl TransformOp {
    /// The schema the transform declares.
    pub open spec fn output(&self) -> Seq<FieldView> {
        match self {
            TransformOp::Passthrough(t) => t.out_schema(),
            TransformOp::SchemaEvolution(t) => t.current(),
            TransformOp::JsonFlatten(t) => t.in_schema(),
            TransformOp::Partition(t) => partition_schema(t.in_schema()),
            TransformOp::SqlTransform(t) => t.out_schema(),
            TransformOp::CleanData(t) => t.out_schema(),
        }
    }

    /// The transform's own invariants.
    pub open spec fn wf(&self) -> bool {
        match self {
            TransformOp::SchemaEvolution(t) => t.wf(),
            TransformOp::JsonFlatten(t) => t.depth_limit() < usize::MAX - 2,
            _ => true,
        }
    }

    /// The transform is of the kind the spec names, with its id and settings.
    pub open spec fn built_from(&self, spec: TransformSpec) -> bool {
        match (self, spec) {
            (TransformOp::Passthrough(t), TransformSpec::Passthrough { id }) => t.op_id() == id@,
            (
                TransformOp::SchemaEvolution(t),
                TransformSpec::SchemaEvolution { id, auto_infer, strict_mode },
            ) => t.op_id() == id@ && t.infers() == auto_infer && t.strict() == strict_mode,
            (TransformOp::JsonFlatten(t), TransformSpec::JsonFlatten { id, separator, max_depth }) =>
                t.op_id() == id@ && t.sep() == separator@ && t.depth_limit() == max_depth,
            (
                TransformOp::Partition(t),
                TransformSpec::Partition { id, partition_by, partition_format },
            ) => t.op_id() == id@ && t.by() == partition_by@.map_values(|n: String| n@)
                && t.format() == partition_format@,
            (TransformOp::SqlTransform(t), TransformSpec::SqlTransform { id, query, window_size }) =>
                t.op_id() == id@ && t.query_text() == query@ && t.window() == window_size
                && t.buffered().len() == 0,
            (
                TransformOp::CleanData(t),
                TransformSpec::CleanData { id, trim_strings, normalize_case, .. },
            ) => t.op_id() == id@ && t.trims() == trim_strings && t.case()
                == crate::ops::opt_view(normalize_case),
            _ => false,
        }
    }

    /// The transform's id.
    pub open spec fn id_of(&self) -> Seq<char> {
        match self {
            TransformOp::Passthrough(t) => t.op_id(),
            TransformOp::SchemaEvolution(t) => t.op_id(),
            TransformOp::JsonFlatten(t) => t.op_id(),
            TransformOp::Partition(t) => t.op_id(),
            TransformOp::SqlTransform(t) => t.op_id(),
            TransformOp::CleanData(t) => t.op_id(),
        }
    }

    /// The schema the transform declares.
    pub fn schema(&self) -> (r: Schema)
        ensures
            r@ == self.output(),
    {
        match self {
            TransformOp::Passthrough(t) => t.schema(),
            TransformOp::SchemaEvolution(t) => t.schema(),
            TransformOp::JsonFlatten(t) => t.schema(),
            TransformOp::Partition(t) => t.schema(),
            TransformOp::SqlTransform(t) => t.schema(),
            TransformOp::CleanData(t) => t.schema(),
        }
    }

    /// The transform's id.
    pub fn name(&self) -> (r: &str)
        ensures
            r@ == self.id_of(),
    {
        match self {
            TransformOp::Passthrough(t) => t.name(),
            TransformOp::SchemaEvolution(t) => t.name(),
            TransformOp::JsonFlatten(t) => t.name(),
            TransformOp::Partition(t) => t.name(),
            TransformOp::SqlTransform(t) => t.name(),
            TransformOp::CleanData(t) => t.name(),
        }
    }

    /// Handles one message for every kind but the SQL transform, whose
    /// caller runs the engine (see `SqlTransform::on_message`). Watermarks
    /// and the end of stream are forwarded as they are.
    pub fn process(&mut self, msg: Message) -> (r: Result<Vec<Message>, RdeError>)
        requires
            old(self).wf(),
            !(*old(self) is SqlTransform),
            msg matches Message::Batch(b) ==> b.wf(),
        ensures
            final(self).wf(),
            !(msg is Batch) ==> (r matches Ok(out) && out@ == seq![msg]),
            msg is Batch ==> (r matches Ok(out) ==> out@.len() == 1 && out@[0] is Batch),
            r matches Ok(out) ==> step_forwards(msg, out@),
            msg matches Message::Batch(b) ==> match *old(self) {
                TransformOp::Passthrough(_) => r matches Ok(out) && out@ == seq![msg],
                TransformOp::CleanData(t) => r matches Ok(out) && out@.len() == 1 && (
                out@[0] matches Message::Batch(o) && cleaned_batch(b, o, t.trims(), t.case())),
                TransformOp::JsonFlatten(t) => r matches Ok(out) && out@.len() == 1 && (
                out@[0] matches Message::Batch(o) && flattened(
                    b,
                    o,
                    t.depth_limit() as int,
                    t.sep(),
                )),
                TransformOp::Partition(t) => {
                    &&& (r is Ok <==> !has_name(b.schema@, "partition_key"@) && !has_name(
                        b.schema@,
                        "partition_date"@,
                    ))
                    &&& r is Err ==> r->Err_0 is SchemaMismatch
                    &&& r matches Ok(out) ==> (out@.len() == 1 && (out@[0] matches Message::Batch(o)
                        && partitioned_on_some_date(b, o, t.by(), t.format())))
                },
                TransformOp::SchemaEvolution(t) => *final(self) matches TransformOp::SchemaEvolution(
                    t2,
                ) && evolution_step(
                    t.current(),
                    b,
                    t.infers(),
                    t.strict(),
                    r is Ok,
                    match r {
                        Err(RdeError::SchemaMismatch(n)) => Some(n@),
                        _ => None,
                    },
                    t2.current(),
                ),
                TransformOp::SqlTransform(_) => true,
            },
    {
        match self {
            TransformOp::Passthrough(t) => Ok(t.process(msg)),
            TransformOp::SchemaEvolution(t) => t.process(msg),
            TransformOp::JsonFlatten(t) => Ok(t.process(msg)),
            TransformOp::Partition(t) => t.process(msg),
            TransformOp::SqlTransform(_) => Ok(Vec::new()),
            TransformOp::CleanData(t) => Ok(t.process(msg)),
        }
    }
}

/// Builds the transform a spec names over the given input schema; see
/// `transform_ok` for when that fails: a taken partition column name is a
/// `SchemaMismatch` naming it, a flattening depth with no room is
/// `Overflow`.
pub fn create_transform(spec: &TransformSpec, input_schema: Schema) -> (r: Result<
    TransformOp,
    RdeError,
>)
    requires
        input_schema.wf(),
    ensures
        r is Ok <==> transform_ok(*spec, input_schema@),
        r matches Ok(op) ==> op.wf() && op.built_from(*spec) && op.output() == transform_output(
            *spec,
            input_schema@,
        ),
{
    match spec {
        TransformSpec::Passthrough { id } => Ok(
            TransformOp::Passthrough(Passthrough::new(id.clone(), input_schema)),
        ),
        TransformSpec::SchemaEvolution { id, auto_infer, strict_mode } => Ok(
            TransformOp::SchemaEvolution(
                SchemaEvolution::new(id.clone(), input_schema, *auto_infer, *strict_mode),
            ),
        ),
        TransformSpec::JsonFlatten { id, separator, max_depth } => {
            if *max_depth >= usize::MAX - 2 {
                return Err(RdeError::Overflow);
            }
            Ok(
                TransformOp::JsonFlatten(
                    JsonFlatten::new(id.clone(), input_schema, separator.clone(), *max_depth),
                ),
            )
        },
        TransformSpec::Partition { id, partition_by, partition_format } => {
            let key_name = String::from_str("partition_key");
            let date_name = String::from_str("partition_date");
            if input_schema.index_of(&key_name).is_some() {
                return Err(RdeError::SchemaMismatch(key_name));
            }
            if input_schema.index_of(&date_name).is_some() {
                return Err(RdeError::SchemaMismatch(date_name));
            }
            Ok(
                TransformOp::Partition(
                    Partition::new(
                        id.clone(),
                        input_schema,
                        partition_by.clone(),
                        partition_format.clone(),
                    ),
                ),
            )
        },
        TransformSpec::SqlTransform { id, query, window_size } => {
            match SqlTransform::new(id.clone(), input_schema, query.clone(), *window_size) {
                Ok(t) => Ok(TransformOp::SqlTransform(t)),
                Err(e) => Err(e),
            }
        },
        TransformSpec::CleanData { id, remove_nulls, trim_strings, normalize_case } => Ok(
            TransformOp::CleanData(
                CleanData::new(
                    id.clone(),
                    input_schema,
                    *remove_nulls,
                    *trim_strings,
                    normalize_case.clone(),
                ),
            ),
        ),
    }
}

/// Checks the document's shape: exactly one source and exactly one sink.
pub fn validate_spec(spec: &PipelineSpec) -> (r: Result<(), RdeError>)
    ensures
        spec.sources@.len() != 1 ==> r == Err::<(), RdeError>(RdeError::SourceCount(spec.sources@.len() as usize)),
        spec.sources@.len() == 1 && spec.sinks@.len() != 1 ==> r == Err::<(), RdeError>(
            RdeError::SinkCount(spec.sinks@.len() as usize),
        ),
        spec.sources@.len() == 1 && spec.sinks@.len() == 1 ==> r is Ok,
{
    if spec.sources.len() != 1 {
        return Err(RdeError::SourceCount(spec.sources.len()));
    }
    if spec.sinks.len() != 1 {
        return Err(RdeError::SinkCount(spec.sinks.len()));
    }
    Ok(())
}

/// The number of channels a chain of `n` transforms needs: one into each
/// transform and one into the sink, so one with no transforms.
pub fn channel_count(n_transforms: usize) -> (r: usize)
    requires
        n_transforms < usize::MAX,
    ensures
        r == n_transforms + 1,
{
    n_transforms + 1
}

/// Builds the transforms in order, each over the schema the previous one
/// declares, and returns them with the final schema, which the sink gets.
/// Fails with the first transform that cannot be built.
pub fn build_transforms(specs: &Vec<TransformSpec>, initial: Schema) -> (r: Result<
    (Vec<TransformOp>, Schema),
    RdeError,
>)
    requires
        initial.wf(),
    ensures
        r is Ok <==> forall|k: int|
            0 <= k < specs@.len() ==> transform_ok(#[trigger] specs@[k], threaded(specs@, initial@, k)),
        r matches Ok((ops, s)) ==> {
            &&& ops@.len() == specs@.len()
            &&& s@ == threaded(specs@, initial@, specs@.len() as int)
            &&& s.wf()
            &&& forall|k: int|
                0 <= k < ops@.len() ==> (#[trigger] ops@[k]).wf() && ops@[k].built_from(specs@[k])
                    && ops@[k].output() == threaded(specs@, initial@, k + 1)
        },
{
    let mut ops: Vec<TransformOp> = Vec::new();
    let mut current = initial;
    let ghost init = current@;
    let mut i: usize = 0;
    while i < specs.len()
        invariant
            i <= specs@.len(),
            ops@.len() == i,
            init == initial@,
            current.wf(),
            current@ == threaded(specs@, init, i as int),
            forall|k: int| 0 <= k < i ==> transform_ok(#[trigger] specs@[k], threaded(specs@, init, k)),
            forall|k: int|
                0 <= k < ops@.len() ==> (#[trigger] ops@[k]).wf() && ops@[k].built_from(specs@[k])
                    && ops@[k].output() == threaded(specs@, init, k + 1),
        decreases specs@.len() - i,
    {
        let input = current.copy();
        let op = match create_transform(&specs[i], input) {
            Ok(op) => op,
            Err(e) => {
                assert(!transform_ok(specs@[i as int], threaded(specs@, init, i as int)));
                return Err(e);
            },
        };
        current = op.schema();
        proof {
            lemma_output_wf(specs@[i as int], threaded(specs@, init, i as int));
        }
        ops.push(op);
        i = i + 1;
    }
    Ok((ops, current))
}

proof fn lemma_output_wf(spec: TransformSpec, input: Seq<FieldView>)
    requires
        names_unique(input),
        transform_ok(spec, input),
    ensures
        names_unique(transform_output(spec, input)),
{
    if spec is Partition {
        let s = partition_schema(input);
        assert forall|a: int, b: int| 0 <= a < b < s.len() implies s[a].0 != s[b].0 by {
            reveal_strlit("partition_key");
            reveal_strlit("partition_date");
            if b >= input.len() && a < input.len() {
                assert(s[a] == input[a]);
                if s[a].0 == s[b].0 {
                    assert(has_name(input, s[b].0));
                }
            }
            if a == input.len() && b == input.len() + 1 {
                assert(s[a].0[10] != s[b].0[10]);
            }
        }
    }
}

/// The index of the first stored schema with the given id, or the count.
pub open spec fn first_with_id(schemas: Seq<TableSchema>, id: i32, i: int) -> int
    decreases schemas.len() - i,
{
    if i >= schemas.len() {
        schemas.len() as int
    } else if schemas[i].schema_id == id {
        i
    } else {
        first_with_id(schemas, id, i + 1)
    }
}

pub proof fn lemma_first_with_id(schemas: Seq<TableSchema>, id: i32, j: int, i: int)
    requires
        0 <= i <= j <= schemas.len(),
        forall|k: int| i <= k < j ==> schemas[k].schema_id != id,
        j == schemas.len() || schemas[j].schema_id == id,
    ensures
        first_with_id(schemas, id, i) == j,
    decreases j - i,
{
    if i < j {
        lemma_first_with_id(schemas, id, j, i + 1);
    }
}

/// The schema a mapped table starts a topic pipeline with: the stored
/// schema with the current schema id (the first, if several), read back;
/// the empty schema when there is none or its names repeat.
pub fn schema_from_table(md: &TableMetadata) -> (r: Schema)
    ensures
        r.wf(),
        ({
            let k = first_with_id(md.schemas@, md.current_schema_id, 0);
            if k < md.schemas@.len() && names_unique(schema_of_table(md.schemas@[k].fields_view())) {
                r@ == schema_of_table(md.schemas@[k].fields_view())
            } else {
                r@ == Seq::<FieldView>::empty()
            }
        }),
{
    let mut i: usize = 0;
    while i < md.schemas.len() && md.schemas[i].schema_id != md.current_schema_id
        invariant
            i <= md.schemas@.len(),
            forall|k: int| 0 <= k < i ==> md.schemas@[k].schema_id != md.current_schema_id,
        decreases md.schemas@.len() - i,
    {
        i = i + 1;
    }
    proof {
        lemma_first_with_id(md.schemas@, md.current_schema_id, i as int, 0);
    }
    if i == md.schemas.len() {
        return Schema::empty();
    }
    match from_table_schema(&md.schemas[i]) {
        Some(s) => s,
        None => Schema::empty(),
    }
}

/// One step of a transform: a non-batch message is forwarded as it is; a
/// batch yields batches only.
pub open spec fn step_forwards(msg: Message, out: Seq<Message>) -> bool {
    &&& !(msg is Batch) ==> out == seq![msg]
    &&& msg is Batch ==> forall|i: int| 0 <= i < out.len() ==> (#[trigger] out[i]) is Batch
}

/// The outputs of successive steps, in order.
pub open spec fn concat_outputs(outs: Seq<Seq<Message>>) -> Seq<Message>
    decreases outs.len(),
{
    if outs.len() == 0 {
        Seq::empty()
    } else {
        concat_outputs(outs.drop_last()) + outs.last()
    }
}

/// The number of end-of-stream messages.
pub open spec fn eos_count(s: Seq<Message>) -> nat
    decreases s.len(),
{
    if s.len() == 0 {
        0
    } else {
        eos_count(s.drop_last()) + if s.last() is Eos {
            1nat
        } else {
            0nat
        }
    }
}

proof fn lemma_eos_count_concat(a: Seq<Message>, b: Seq<Message>)
    ensures
        eos_count(a + b) == eos_count(a) + eos_count(b),
    decreases b.len(),
{
    if b.len() > 0 {
        assert((a + b).drop_last() =~= a + b.drop_last());
        lemma_eos_count_concat(a, b.drop_last());
    } else {
        assert(a + b =~= a);
    }
}

proof fn lemma_step_eos(msg: Message, out: Seq<Message>)
    requires
        step_forwards(msg, out),
    ensures
        eos_count(out) == if msg is Eos {
            1nat
        } else {
            0nat
        },
    decreases out.len(),
{
    if msg is Batch {
        lemma_batches_no_eos(out);
    } else {
        assert(out == seq![msg]);
        assert(out.len() == 1);
        assert(out.drop_last() =~= Seq::<Message>::empty());
        assert(eos_count(out.drop_last()) == 0);
        assert(out.last() == msg);
    }
}

proof fn lemma_batches_no_eos(out: Seq<Message>)
    requires
        forall|i: int| 0 <= i < out.len() ==> (#[trigger] out[i]) is Batch,
    ensures
        eos_count(out) == 0,
    decreases out.len(),
{
    if out.len() > 0 {
        assert(out[out.len() - 1] is Batch);
        lemma_batches_no_eos(out.drop_last());
    }
}

proof fn lemma_concat_eos(ins: Seq<Message>, outs: Seq<Seq<Message>>)
    requires
        ins.len() == outs.len(),
        forall|i: int| 0 <= i < ins.len() ==> step_forwards(#[trigger] ins[i], outs[i]),
    ensures
        eos_count(concat_outputs(outs)) == eos_count(ins),
    decreases ins.len(),
{
    if ins.len() > 0 {
        let n = ins.len() - 1;
        assert forall|i: int| 0 <= i < n implies step_forwards(#[trigger] ins.drop_last()[i], outs.drop_last()[i]) by {
            assert(ins.drop_last()[i] == ins[i]);
            assert(outs.drop_last()[i] == outs[i]);
        }
        lemma_concat_eos(ins.drop_last(), outs.drop_last());
        lemma_eos_count_concat(concat_outputs(outs.drop_last()), outs.last());
        assert(step_forwards(ins[n], outs[n]));
        lemma_step_eos(ins[n], outs[n]);
    }
}

/// A transform sends exactly one end of stream, as its last message, when
/// its input ends with its only end of stream and each step forwards
/// non-batch messages as they are and turns batches into batches, as
/// `TransformOp::process` ensures.
pub proof fn lemma_single_eos(ins: Seq<Message>, outs: Seq<Seq<Message>>)
    requires
        ins.len() == outs.len(),
        ins.len() > 0,
        ins.last() is Eos,
        eos_count(ins) == 1,
        forall|i: int| 0 <= i < ins.len() ==> step_forwards(#[trigger] ins[i], outs[i]),
    ensures
        eos_count(concat_outputs(outs)) == 1,
        concat_outputs(outs).len() > 0,
        concat_outputs(outs).last() is Eos,
{
    lemma_concat_eos(ins, outs);
    let n = ins.len() - 1;
    assert(step_forwards(ins[n], outs[n]));
    assert(outs.last() == seq![Message::Eos]);
    assert(concat_outputs(outs).last() == outs.last().last());
}

} // verus!
