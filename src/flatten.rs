//! Flattening of nested records: nested keys joined by a separator down to
//! a maximum depth, arrays followed through their first element.

use crate::batch::{
    coerce, lemma_member_absent, lemma_member_found, member_of, record_to_row, row_view, Batch,
    Cell, CellView, Message,
};
use crate::json::JsonValue;
use crate::schema::{infer_type, lemma_merge_wf, merge, merge_schemas, FieldView, Schema};
use vstd::prelude::*;

verus! {

/// A nested key: the key alone at the top, else prefix, separator, key.
pub open spec fn key_join(prefix: Seq<char>, key: Seq<char>, sep: Seq<char>) -> Seq<char> {
    if prefix.len() == 0 {
        key
    } else {
        prefix + sep + key
    }
}

/// The assignments flattening a value at `depth` produces, in order: none
/// past `max`; an object's members under their joined keys one level
/// deeper; a non-empty array's first element one level deeper under the
/// same key; anything else, the empty array included, as itself.
pub open spec fn flat(v: JsonValue, prefix: Seq<char>, depth: int, max: int, sep: Seq<char>) -> Seq<
    (Seq<char>, JsonValue),
>
    decreases max + 2 - depth, 0int,
{
    if depth > max {
        Seq::empty()
    } else {
        match v {
            JsonValue::Object(entries) => flat_entries(
                entries@,
                entries@.len() as int,
                prefix,
                depth + 1,
                max,
                sep,
            ),
            JsonValue::Array(items) => if items@.len() == 0 {
                seq![(prefix, v)]
            } else {
                flat(items@[0], prefix, depth + 1, max, sep)
            },
            _ => seq![(prefix, v)],
        }
    }
}

/// The assignments of the first `n` members of an object at `depth`.
pub open spec fn flat_entries(
    es: Seq<(String, JsonValue)>,
    n: int,
    prefix: Seq<char>,
    depth: int,
    max: int,
    sep: Seq<char>,
) -> Seq<(Seq<char>, JsonValue)>
    decreases max + 2 - depth, n,
{
    if n <= 0 || n > es.len() || depth > max + 1 {
        Seq::empty()
    } else {
        flat_entries(es, n - 1, prefix, depth, max, sep) + flat(
            es[n - 1].1,
            key_join(prefix, es[n - 1].0@, sep),
            depth,
            max,
            sep,
        )
    }
}

/// The position of a key among assignments, if any.
pub open spec fn key_pos(acc: Seq<(Seq<char>, JsonValue)>, key: Seq<char>) -> int {
    choose|i: int| 0 <= i < acc.len() && acc[i].0 == key
}

/// Applies assignments in order: an assigned key keeps its first position
/// and takes the latest value.
pub open spec fn assign(acc: Seq<(Seq<char>, JsonValue)>, xs: Seq<(Seq<char>, JsonValue)>) -> Seq<
    (Seq<char>, JsonValue),
>
    decreases xs.len(),
{
    if xs.len() == 0 {
        acc
    } else {
        let a = assign(acc, xs.drop_last());
        let x = xs.last();
        if exists|i: int| 0 <= i < a.len() && a[i].0 == x.0 {
            a.update(key_pos(a, x.0), x)
        } else {
            a.push(x)
        }
    }
}

/// The record a row stands for: its columns' names with the cells' values.
pub open spec fn row_entries(schema: Seq<crate::schema::Field>, row: Seq<Cell>) -> Seq<(String, JsonValue)> {
    Seq::new(schema.len(), |i: int| (schema[i].name, cell_value(row[i])))
}

/// The JSON value a cell stands for.
pub open spec fn cell_value(c: Cell) -> JsonValue {
    match c {
        Cell::Null => JsonValue::Null,
        Cell::Bool(b) => JsonValue::Bool(b),
        Cell::Int(i) => JsonValue::Int(i),
        Cell::Float(t) => JsonValue::Float(t),
        Cell::Str(t) => JsonValue::Str(t),
        Cell::Json(v) => v,
    }
}

/// A row flattened: the assignments of its record, applied.
pub open spec fn flat_row(schema: Seq<crate::schema::Field>, row: Seq<Cell>, max: int, sep: Seq<char>) -> Seq<
    (Seq<char>, JsonValue),
> {
    let es = row_entries(schema, row);
    assign(Seq::empty(), flat_entries(es, es.len() as int, Seq::empty(), 1, max, sep))
}

/// The schema inferred from flattened assignments.
pub open spec fn flat_schema(a: Seq<(Seq<char>, JsonValue)>) -> Seq<FieldView> {
    a.map_values(|e: (Seq<char>, JsonValue)| (e.0, infer_type(e.1), true))
}

/// The union of the flattened rows' schemas, merged in row order.
pub open spec fn union_schema(rows: Seq<Seq<(Seq<char>, JsonValue)>>) -> Seq<FieldView>
    decreases rows.len(),
{
    if rows.len() == 0 {
        Seq::empty()
    } else {
        merge(union_schema(rows.drop_last()), flat_schema(rows.last()))
    }
}

/// The value under a key among assignments.
pub open spec fn value_at(a: Seq<(Seq<char>, JsonValue)>, key: Seq<char>) -> Option<JsonValue> {
    if exists|i: int| 0 <= i < a.len() && a[i].0 == key {
        Some(a[key_pos(a, key)].1)
    } else {
        None
    }
}

/// The row flattened assignments give under a schema.
pub open spec fn assigned_row(a: Seq<(Seq<char>, JsonValue)>, schema: Seq<FieldView>) -> Seq<CellView> {
    schema.map_values(|f: FieldView| coerce(value_at(a, f.0), f.1))
}

/// Keys of assignments are distinct.
pub open spec fn assign_keys_unique(a: Seq<(Seq<char>, JsonValue)>) -> bool {
    forall|i: int, j: int| 0 <= i < j < a.len() ==> a[i].0 != a[j].0
}

/// The flattened rows of a batch.
pub open spec fn flat_rows(input: Batch, max: int, sep: Seq<char>) -> Seq<Seq<(Seq<char>, JsonValue)>> {
    Seq::new(input.rows@.len(), |i: int| flat_row(input.schema.fields@, input.rows@[i]@, max, sep))
}

/// `out` is `input` flattened: the union schema of its flattened rows, and
/// each row's assigned values under it.
pub open spec fn flattened(input: Batch, out: Batch, max: int, sep: Seq<char>) -> bool {
    let rows = flat_rows(input, max, sep);
    &&& out.wf()
    &&& out.schema@ == union_schema(rows)
    &&& out.rows@.len() == input.rows@.len()
    &&& forall|i: int|
        0 <= i < input.rows@.len() ==> row_view((#[trigger] out.rows@[i])@) == assigned_row(
            rows[i],
            union_schema(rows),
        )
}

/// The JSON value a cell stands for, taking the cell.
pub fn cell_to_value(c: Cell) -> (r: JsonValue)
    ensures
        r == cell_value(c),
{
    match c {
        Cell::Null => JsonValue::Null,
        Cell::Bool(b) => JsonValue::Bool(b),
        Cell::Int(i) => JsonValue::Int(i),
        Cell::Float(t) => JsonValue::Float(t),
        Cell::Str(t) => JsonValue::Str(t),
        Cell::Json(v) => v,
    }
}

fn join_key(prefix: &String, key: &String, sep: &String) -> (r: String)
    ensures
        r@ == key_join(prefix@, key@, sep@),
{
    if prefix.as_str().unicode_len() == 0 {
        key.clone()
    } else {
        let mut s = prefix.clone();
        s.append(sep.as_str());
        s.append(key.as_str());
        s
    }
}

/// Flattens a value, appending its assignments to `out`.
fn flatten_into(
    v: JsonValue,
    prefix: String,
    depth: usize,
    max: usize,
    sep: &String,
    out: &mut Vec<(String, JsonValue)>,
)
    requires
        depth <= max + 1,
        max < usize::MAX - 2,
    ensures
        final(out)@.map_values(|e: (String, JsonValue)| (e.0@, e.1)) == old(out)@.map_values(
            |e: (String, JsonValue)| (e.0@, e.1),
        ) + flat(v, prefix@, depth as int, max as int, sep@),
    decreases max + 2 - depth, 0int,
{
    let ghost start = out@.map_values(|e: (String, JsonValue)| (e.0@, e.1));
    if depth > max {
        assert(out@.map_values(|e: (String, JsonValue)| (e.0@, e.1)) =~= start + flat(
            v,
            prefix@,
            depth as int,
            max as int,
            sep@,
        ));
        return;
    }
    let ghost v0 = v;
    match v {
        JsonValue::Object(entries) => {
            flatten_entries(entries, &prefix, depth + 1, max, sep, out);
        },
        JsonValue::Array(mut items) => {
            if items.len() == 0 {
                out.push((prefix, JsonValue::Array(items)));
                assert(out@.map_values(|e: (String, JsonValue)| (e.0@, e.1)) =~= start + flat(
                    v0,
                    prefix@,
                    depth as int,
                    max as int,
                    sep@,
                ));
            } else {
                let first = items.remove(0);
                flatten_into(first, prefix, depth + 1, max, sep, out);
            }
        },
        other => {
            out.push((prefix, other));
            assert(out@.map_values(|e: (String, JsonValue)| (e.0@, e.1)) =~= start + flat(
                v0,
                prefix@,
                depth as int,
                max as int,
                sep@,
            ));
        },
    }
}

/// Flattens the members of an object at `depth`, appending to `out`.
fn flatten_entries(
    entries: Vec<(String, JsonValue)>,
    prefix: &String,
    depth: usize,
    max: usize,
    sep: &String,
    out: &mut Vec<(String, JsonValue)>,
)
    requires
        depth <= max + 1,
        max < usize::MAX - 2,
    ensures
        final(out)@.map_values(|e: (String, JsonValue)| (e.0@, e.1)) == old(out)@.map_values(
            |e: (String, JsonValue)| (e.0@, e.1),
        ) + flat_entries(entries@, entries@.len() as int, prefix@, depth as int, max as int, sep@),
    decreases max + 2 - depth, entries@.len(),
{
    let ghost es = entries@;
    let ghost start = out@.map_values(|e: (String, JsonValue)| (e.0@, e.1));
    let ghost mut n: int = 0;
    for e in it: entries
        invariant
            it.seq() == es,
            n == it.index(),
            0 <= n <= es.len(),
            depth <= max + 1,
            max < usize::MAX - 2,
            out@.map_values(|e: (String, JsonValue)| (e.0@, e.1)) == start + flat_entries(
                es,
                n,
                prefix@,
                depth as int,
                max as int,
                sep@,
            ),
    {
        let ghost before = out@.map_values(|e: (String, JsonValue)| (e.0@, e.1));
        let (key, value) = e;
        let k = join_key(prefix, &key, sep);
        flatten_into(value, k, depth, max, sep, out);
        proof {
            assert(es[n] == (key, value));
            assert(start + flat_entries(es, n + 1, prefix@, depth as int, max as int, sep@)
                =~= before + flat(value, key_join(prefix@, key@, sep@), depth as int, max as int, sep@));
            n = n + 1;
        }
    }
}

/// The view of key-value pairs with string keys.
pub open spec fn pairs_view(v: Seq<(String, JsonValue)>) -> Seq<(Seq<char>, JsonValue)> {
    v.map_values(|e: (String, JsonValue)| (e.0@, e.1))
}

/// Applies assignments in order; see `assign`.
pub fn assign_all(xs: Vec<(String, JsonValue)>) -> (r: Vec<(String, JsonValue)>)
    ensures
        pairs_view(r@) == assign(Seq::empty(), pairs_view(xs@)),
        assign_keys_unique(pairs_view(r@)),
{
    let ghost all = pairs_view(xs@);
    let ghost src = xs@;
    let mut acc: Vec<(String, JsonValue)> = Vec::new();
    let ghost mut n: int = 0;
    for x in it: xs
        invariant
            it.seq() == src,
            all == pairs_view(src),
            n == it.index(),
            0 <= n <= src.len(),
            pairs_view(acc@) == assign(Seq::empty(), all.take(n)),
            assign_keys_unique(pairs_view(acc@)),
    {
        proof {
            assert(all.take(n + 1).drop_last() =~= all.take(n));
            assert(all.take(n + 1).last() == (x.0@, x.1));
        }
        let ghost a = pairs_view(acc@);
        let mut i: usize = 0;
        while i < acc.len() && acc[i].0 != x.0
            invariant
                i <= acc@.len(),
                a == pairs_view(acc@),
                forall|k: int| 0 <= k < i ==> acc@[k].0@ != x.0@,
            decreases acc@.len() - i,
        {
            i = i + 1;
        }
        if i < acc.len() {
            proof {
                assert(a[i as int].0 == x.0@);
                let k = key_pos(a, x.0@);
                assert(a[k].0 == x.0@);
                assert(k == i);
            }
            acc.set(i, x);
            assert(pairs_view(acc@) =~= a.update(i as int, (x.0@, x.1)));
        } else {
            proof {
                assert forall|k: int| 0 <= k < a.len() implies a[k].0 != x.0@ by {
                    assert(a[k].0 == acc@[k].0@);
                }
            }
            acc.push(x);
            assert(pairs_view(acc@) =~= a.push((x.0@, x.1)));
        }
        proof {
            n = n + 1;
        }
    }
    assert(all.take(n) =~= all);
    acc
}

proof fn lemma_value_at_member(es: Seq<(String, JsonValue)>, key: Seq<char>)
    requires
        assign_keys_unique(pairs_view(es)),
    ensures
        member_of(es, key) == value_at(pairs_view(es), key),
{
    let a = pairs_view(es);
    if exists|i: int| 0 <= i < a.len() && a[i].0 == key {
        let k = key_pos(a, key);
        assert(a[k].0 == key);
        assert forall|j: int| 0 <= j < k implies es[j].0@ != key by {
            assert(a[j].0 == es[j].0@);
        }
        lemma_member_found(es, key, k);
    } else {
        assert forall|j: int| 0 <= j < es.len() implies es[j].0@ != key by {
            assert(a[j].0 == es[j].0@);
        }
        lemma_member_absent(es, key);
    }
}

/// Flattens the rows of batches.
pub struct JsonFlatten {
    id: String,
    schema: Schema,
    separator: String,
    max_depth: usize,
}

impl JsonFlatten {
    /// The operator's id.
    pub closed spec fn op_id(&self) -> Seq<char> {
        self.id@
    }

    /// The separator.
    pub closed spec fn sep(&self) -> Seq<char> {
        self.separator@
    }

    /// The maximum depth.
    pub closed spec fn depth_limit(&self) -> usize {
        self.max_depth
    }

    /// The declared schema.
    pub closed spec fn in_schema(&self) -> Seq<FieldView> {
        self.schema@
    }

    /// A flattening transform.
    pub fn new(id: String, schema: Schema, separator: String, max_depth: usize) -> (r: JsonFlatten)
        ensures
            r.op_id() == id@,
            r.sep() == separator@,
            r.depth_limit() == max_depth,
            r.in_schema() == schema@,
    {
        JsonFlatten { id, schema, separator, max_depth }
    }

    /// The operator's id.
    pub fn name(&self) -> (r: &str)
        ensures
            r@ == self.op_id(),
    {
        self.id.as_str()
    }

    /// The declared schema; the batches it emits carry their own.
    pub fn schema(&self) -> (r: Schema)
        ensures
            r@ == self.in_schema(),
    {
        self.schema.copy()
    }

    /// Flattens a batch: each row, read as a record, is flattened into
    /// assignments (`flat_row`); the result's schema is the union of the
    /// schemas inferred from them, in row order, and each row holds its
    /// assigned values under that schema, null where it has none.
    pub fn flatten_batch(&self, batch: Batch) -> (r: Batch)
        requires
            batch.wf(),
            self.depth_limit() < usize::MAX - 2,
        ensures
            flattened(batch, r, self.depth_limit() as int, self.sep()),
    {
        let Batch { schema, rows } = batch;
        let ghost orig = rows@;
        let ghost flats = Seq::new(
            orig.len(),
            |i: int| flat_row(schema.fields@, orig[i]@, self.max_depth as int, self.separator@),
        );
        let mut records: Vec<Vec<(String, JsonValue)>> = Vec::new();
        for row in it: rows
            invariant
                it.seq() == orig,
                records@.len() == it.index(),
                it.index() <= orig.len(),
                self.max_depth < usize::MAX - 2,
                forall|i: int| 0 <= i < orig.len() ==> (#[trigger] orig[i])@.len() == schema@.len(),
                flats == Seq::new(
                    orig.len(),
                    |i: int| flat_row(schema.fields@, orig[i]@, self.max_depth as int, self.separator@),
                ),
                forall|i: int|
                    0 <= i < records@.len() ==> pairs_view((#[trigger] records@[i])@) == flats[i],
                forall|i: int|
                    0 <= i < records@.len() ==> assign_keys_unique(pairs_view((#[trigger] records@[i])@)),
        {
            let ghost k = records@.len() as int;
            let ghost cells = row@;
            assert(cells == orig[k]@);
            let mut entries: Vec<(String, JsonValue)> = Vec::new();
            for cell in cit: row
                invariant
                    cit.seq() == cells,
                    entries@.len() == cit.index(),
                    cells.len() == schema@.len(),
                    schema@.len() == schema.fields@.len(),
                    forall|j: int| 0 <= j < entries@.len() ==> #[trigger] entries@[j] == row_entries(schema.fields@, cells)[j],
            {
                let j = entries.len();
                entries.push((schema.fields[j].name.clone(), cell_to_value(cell)));
            }
            assert(entries@ =~= row_entries(schema.fields@, cells));
            let mut raw: Vec<(String, JsonValue)> = Vec::new();
            let ghost es = entries@;
            flatten_entries(entries, &String::new(), 1, self.max_depth, &self.separator, &mut raw);
            assert(pairs_view(raw@) =~= flat_entries(es, es.len() as int, Seq::empty(), 1, self.max_depth as int, self.separator@));
            let assigned = assign_all(raw);
            proof {
                assert(es == row_entries(schema.fields@, orig[k]@));
                assert(flats[k] == flat_row(schema.fields@, orig[k]@, self.max_depth as int, self.separator@));
                assert(pairs_view(assigned@) == flats[k]);
            }
            let ghost before = records@;
            records.push(assigned);
            proof {
                assert forall|i: int| 0 <= i < records@.len() implies pairs_view((#[trigger] records@[i])@) == flats[i]
                    && assign_keys_unique(pairs_view(records@[i]@)) by {
                    if i < k {
                        assert(records@[i] == before[i]);
                    } else {
                        assert(records@[i] == assigned);
                    }
                }
            }
        }
        assert forall|k: int| 0 <= k < records@.len() implies pairs_view((#[trigger] records@[k])@) == flats[k]
            && assign_keys_unique(flats[k]) by {
        }
        let mut union = Schema::empty();
        let mut i: usize = 0;
        while i < records.len()
            invariant
                i <= records@.len(),
                records@.len() == flats.len(),
                union.wf(),
                union@ == union_schema(flats.take(i as int)),
                forall|k: int|
                    0 <= k < records@.len() ==> pairs_view((#[trigger] records@[k])@) == flats[k]
                        && assign_keys_unique(flats[k]),
            decreases records@.len() - i,
        {
            proof {
                assert(flats.take(i as int + 1).drop_last() =~= flats.take(i as int));
            }
            let rec = &records[i];
            let mut fields: Vec<crate::schema::Field> = Vec::new();
            let mut j: usize = 0;
            while j < rec.len()
                invariant
                    j <= rec@.len(),
                    fields@.len() == j,
                    forall|q: int| 0 <= q < j ==> (#[trigger] fields@[q])@ == flat_schema(pairs_view(rec@))[q],
                decreases rec@.len() - j,
            {
                let t = crate::schema::infer_value_type(&rec[j].1);
                fields.push(crate::schema::Field::new(rec[j].0.clone(), t, true));
                j = j + 1;
            }
            let s = Schema { fields };
            assert(s@ =~= flat_schema(flats[i as int]));
            proof {
                lemma_merge_wf(union@, s@);
            }
            union = merge_schemas(&union, &s);
            i = i + 1;
        }
        assert(flats.take(records@.len() as int) =~= flats);
        let ghost recs = records@;
        let mut out: Vec<Vec<Cell>> = Vec::new();
        for rec in rit: records
            invariant
                rit.seq() == recs,
                out@.len() == rit.index(),
                recs.len() == flats.len(),
                union.wf(),
                union@ == union_schema(flats),
                forall|k: int|
                    0 <= k < recs.len() ==> pairs_view((#[trigger] recs[k])@) == flats[k]
                        && assign_keys_unique(flats[k]),
                forall|k: int|
                    0 <= k < out@.len() ==> row_view((#[trigger] out@[k])@) == assigned_row(
                        flats[k],
                        union@,
                    ),
                forall|k: int| 0 <= k < out@.len() ==> (#[trigger] out@[k])@.len() == union@.len(),
        {
            let ghost k = out@.len() as int;
            let ghost es = rec@;
            assert(pairs_view(es) == flats[k]);
            let row = record_to_row(JsonValue::Object(rec), &union);
            proof {
                assert forall|c: int| 0 <= c < union@.len() implies member_of(es, #[trigger] union@[c].0)
                    == value_at(flats[k], union@[c].0) by {
                    lemma_value_at_member(es, union@[c].0);
                }
                assert(row_view(row@) =~= assigned_row(flats[k], union@));
                assert(row@.len() == row_view(row@).len());
            }
            out.push(row);
        }
        let r = Batch { schema: union, rows: out };
        r
    }

    /// Flattens each batch; forwards other messages.
    pub fn process(&mut self, msg: Message) -> (r: Vec<Message>)
        requires
            msg matches Message::Batch(b) ==> b.wf(),
            old(self).depth_limit() < usize::MAX - 2,
        ensures
            final(self).depth_limit() == old(self).depth_limit(),
            !(msg is Batch) ==> r@ == seq![msg],
            msg matches Message::Batch(b) ==> (r@.len() == 1 && (r@[0] matches Message::Batch(o)
                && flattened(b, o, old(self).depth_limit() as int, old(self).sep()))),
    {
        let mut out: Vec<Message> = Vec::new();
        match msg {
            Message::Batch(b) => {
                out.push(Message::Batch(self.flatten_batch(b)));
            },
            other => {
                out.push(other);
                assert(out@ =~= seq![other]);
            },
        }
        out
    }
}

} // verus!
