//! The dynamic schema manager: keeps a published schema that only widens as
//! records arrive, optionally seeded by a configured schema.

use crate::config::SchemaConfig;
use crate::json::JsonValue;
use crate::schema::{
    infer_record, infer_schema, lemma_merge_wf, lemma_merge_widens, merge, merge_schemas,
    names_unique, schema_widens, DataType, Field, FieldView, Schema,
};
use vstd::prelude::*;

verus! {

/// The column type a configured type name stands for; unknown names are text.
pub open spec fn config_type(name: Seq<char>) -> DataType {
    if name == "int64"@ {
        DataType::Int64
    } else if name == "float64"@ {
        DataType::Float64
    } else if name == "string"@ {
        DataType::Utf8
    } else if name == "boolean"@ {
        DataType::Boolean
    } else {
        DataType::Utf8
    }
}

/// The fields a configuration lists, in order.
pub open spec fn config_fields(fields: Seq<crate::config::FieldConfig>) -> Seq<FieldView> {
    fields.map_values(
        |f: crate::config::FieldConfig| (f.name@, config_type(f.data_type@), f.nullable),
    )
}

/// The configured schema: the listed fields merged in order, so a repeated
/// name is folded into its first occurrence.
pub open spec fn configured_view(fields: Seq<crate::config::FieldConfig>) -> Seq<FieldView> {
    merge(Seq::empty(), config_fields(fields))
}

/// Maps a configured type name to a column type.
pub fn config_data_type(name: &String) -> (r: DataType)
    ensures
        r == config_type(name@),
{
    if *name == String::from_str("int64") {
        DataType::Int64
    } else if *name == String::from_str("float64") {
        DataType::Float64
    } else if *name == String::from_str("string") {
        DataType::Utf8
    } else if *name == String::from_str("boolean") {
        DataType::Boolean
    } else {
        DataType::Utf8
    }
}

/// Builds the configured schema from a list of field configurations.
pub fn configured_schema(fields: &Vec<crate::config::FieldConfig>) -> (r: Schema)
    ensures
        r@ == configured_view(fields@),
        r.wf(),
{
    let mut listed: Vec<Field> = Vec::new();
    let mut i: usize = 0;
    while i < fields.len()
        invariant
            i <= fields@.len(),
            listed@.len() == i,
            forall|j: int|
                0 <= j < i ==> (#[trigger] listed@[j])@ == config_fields(fields@)[j],
        decreases fields@.len() - i,
    {
        let f = &fields[i];
        listed.push(Field::new(f.name.clone(), config_data_type(&f.data_type), f.nullable));
        i = i + 1;
    }
    let listed = Schema { fields: listed };
    assert(listed@ =~= config_fields(fields@));
    let empty = Schema::empty();
    proof {
        lemma_merge_wf(empty@, listed@);
    }
    merge_schemas(&empty, &listed)
}

/// Whether two schemas hold the same fields in the same order.
pub fn same_schema(a: &Schema, b: &Schema) -> (r: bool)
    ensures
        r == (a@ == b@),
{
    if a.fields.len() != b.fields.len() {
        assert(a@.len() != b@.len());
        return false;
    }
    let mut i: usize = 0;
    while i < a.fields.len()
        invariant
            a@.len() == b@.len(),
            i <= a@.len(),
            forall|j: int| 0 <= j < i ==> a@[j] == b@[j],
        decreases a@.len() - i,
    {
        let x = &a.fields[i];
        let y = &b.fields[i];
        if !(x.name == y.name && x.data_type.same(&y.data_type) && x.nullable == y.nullable) {
            assert(a@[i as int] != b@[i as int]);
            return false;
        }
        i = i + 1;
    }
    assert(a@ =~= b@);
    true
}

fn copy_option(s: &Option<Schema>) -> (r: Option<Schema>)
    ensures
        view_of(r) == view_of(*s),
{
    match s {
        Some(x) => Some(x.copy()),
        None => None,
    }
}

/// The view of an optional schema.
pub open spec fn view_of(s: Option<Schema>) -> Option<Seq<FieldView>> {
    match s {
        Some(x) => Some(x@),
        None => None,
    }
}

/// Keeps the current schema of a stream of records.
pub struct DynamicSchemaManager {
    current_schema: Option<Schema>,
    configured_schema: Option<Schema>,
    auto_infer: bool,
}

impl DynamicSchemaManager {
    /// The last published schema, if any.
    pub closed spec fn current(&self) -> Option<Seq<FieldView>> {
        view_of(self.current_schema)
    }

    /// The configured schema, if any.
    pub closed spec fn configured(&self) -> Option<Seq<FieldView>> {
        view_of(self.configured_schema)
    }

    /// Whether records drive the schema.
    pub closed spec fn infers(&self) -> bool {
        self.auto_infer
    }

    /// Both schemas have distinct field names.
    pub closed spec fn wf(&self) -> bool {
        &&& (self.current_schema matches Some(s) ==> s.wf())
        &&& (self.configured_schema matches Some(s) ==> s.wf())
    }

    /// A schema the manager hands out has distinct names.
    pub proof fn lemma_published_wf(&self)
        requires
            self.wf(),
        ensures
            self.current() matches Some(s) ==> names_unique(s),
            self.configured() matches Some(s) ==> names_unique(s),
    {
    }

    /// The schema a probe merges into: the current one, else the configured
    /// one, else the empty schema.
    pub open spec fn base(&self) -> Seq<FieldView> {
        match self.current() {
            Some(s) => s,
            None => match self.configured() {
                Some(c) => c,
                None => Seq::empty(),
            },
        }
    }

    /// A manager with no schema that infers from records.
    pub fn new() -> (r: DynamicSchemaManager)
        ensures
            r.wf(),
            r.current() is None,
            r.configured() is None,
            r.infers(),
    {
        DynamicSchemaManager { current_schema: None, configured_schema: None, auto_infer: true }
    }

    /// Applies a schema configuration: it sets whether records drive the
    /// schema and, when it lists fields, the configured schema.
    pub fn with_config(self, config: &Option<SchemaConfig>) -> (r: DynamicSchemaManager)
        requires
            self.wf(),
        ensures
            r.wf(),
            r.current() == self.current(),
            r.infers() == match config {
                Some(c) => c.auto_infer,
                None => self.infers(),
            },
            r.configured() == match config {
                Some(c) => if c.fields@.len() > 0 {
                    Some(configured_view(c.fields@))
                } else {
                    self.configured()
                },
                None => self.configured(),
            },
    {
        let mut m = self;
        match config {
            Some(c) => {
                m.auto_infer = c.auto_infer;
                if c.fields.len() > 0 {
                    m.configured_schema = Some(configured_schema(&c.fields));
                }
            },
            None => {},
        }
        m
    }

    /// Infers the schema of one record.
    pub fn infer_schema(&self, value: &JsonValue) -> (r: Schema)
        requires
            value.wf(),
        ensures
            r@ == infer_record(*value),
            r.wf(),
    {
        infer_schema(value)
    }

    /// Consults the manager with one record and publishes a new schema when
    /// it changes. Inferring: with no current schema the configured one (or
    /// the empty one) merged with the record's schema is adopted; otherwise
    /// the merge of the current schema with the record's schema replaces it
    /// when it differs. Not inferring: the configured schema is adopted once.
    /// Returns whether a schema was published.
    pub fn update_schema_if_needed(&mut self, value: &JsonValue) -> (changed: bool)
        requires
            old(self).wf(),
            value.wf(),
        ensures
            final(self).wf(),
            final(self).configured() == old(self).configured(),
            final(self).infers() == old(self).infers(),
            old(self).infers() ==> final(self).current() == Some(
                merge(old(self).base(), infer_record(*value)),
            ),
            old(self).infers() ==> changed == (old(self).current() != final(self).current()),
            !old(self).infers() ==> final(self).current() == if old(self).current() is None {
                old(self).configured()
            } else {
                old(self).current()
            },
            !old(self).infers() ==> changed == (old(self).current() is None
                && old(self).configured() is Some),
            old(self).current() matches Some(s) ==> final(self).current() matches Some(t)
                && schema_widens(s, t),
    {
        if !self.auto_infer {
            if self.current_schema.is_none() && self.configured_schema.is_some() {
                self.current_schema = copy_option(&self.configured_schema);
                return true;
            }
            return false;
        }
        let inferred = infer_schema(value);
        match &self.current_schema {
            Some(cur) => {
                proof {
                    lemma_merge_widens(cur@, inferred@);
                }
                let merged = merge_schemas(cur, &inferred);
                if same_schema(&merged, cur) {
                    false
                } else {
                    self.current_schema = Some(merged);
                    true
                }
            },
            None => {
                let base = match &self.configured_schema {
                    Some(c) => c.copy(),
                    None => Schema::empty(),
                };
                let merged = merge_schemas(&base, &inferred);
                self.current_schema = Some(merged);
                true
            },
        }
    }

    /// The last published schema, or else the configured one.
    pub fn get_current_schema(&self) -> (r: Option<Schema>)
        ensures
            self.wf() ==> (r matches Some(s) ==> s.wf()),
            view_of(r) == match self.current() {
                Some(s) => Some(s),
                None => self.configured(),
            },
    {
        match &self.current_schema {
            Some(s) => Some(s.copy()),
            None => copy_option(&self.configured_schema),
        }
    }

    /// The schema a record would lead to, without publishing it: the merge
    /// of `base()` with the record's schema.
    pub fn merge_schemas(&self, value: &JsonValue) -> (r: Schema)
        requires
            self.wf(),
            value.wf(),
        ensures
            r@ == merge(self.base(), infer_record(*value)),
            r.wf(),
    {
        let inferred = infer_schema(value);
        let base = match &self.current_schema {
            Some(s) => s.copy(),
            None => match &self.configured_schema {
                Some(c) => c.copy(),
                None => Schema::empty(),
            },
        };
        merge_schemas(&base, &inferred)
    }
}

} // verus!
