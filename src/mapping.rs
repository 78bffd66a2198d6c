//! The topic-to-table mapping: the table a topic feeds, the schema known
//! for it, and the metadata changes schema evolution makes. Reading and
//! writing the metadata document is left to the caller.

use crate::config::TopicMapping;
use crate::error::RdeError;
use crate::manager::{same_schema, view_of};
use crate::pipeline::{first_with_id, schema_from_table};
use crate::schema::{lemma_merge_wf, merge, merge_schemas, names_unique, FieldView, Schema};
use crate::sink::{location_of, metadata_path_of};
use crate::table::{
    add_schema_version, initial_metadata, is_initial_metadata, schema_version_added, max_or, schema_of_table,
    table_fields, TableMetadata,
};
use vstd::prelude::*;

verus! {

/// Tracks the schema of the table a topic maps to.
pub struct TopicMappingManager {
    mapping: TopicMapping,
    current_schema: Option<Schema>,
}

impl TopicMappingManager {
    /// The schema known for the table, if any.
    pub closed spec fn current(&self) -> Option<Seq<FieldView>> {
        view_of(self.current_schema)
    }

    /// The mapping's settings.
    pub closed spec fn settings(&self) -> TopicMapping {
        self.mapping
    }

    /// The known schema has distinct names.
    pub closed spec fn wf(&self) -> bool {
        self.current_schema matches Some(s) ==> s.wf()
    }

    /// A manager that knows no schema yet.
    pub fn new(mapping: TopicMapping) -> (r: TopicMappingManager)
        ensures
            r.wf(),
            r.current() is None,
            r.settings() == mapping,
    {
        TopicMappingManager { mapping, current_schema: None }
    }

    /// The table name.
    pub fn get_table_name(&self) -> (r: &str)
        ensures
            r@ == self.settings().iceberg_table@,
    {
        self.mapping.iceberg_table.as_str()
    }

    /// The schema known for the table.
    pub fn get_current_schema(&self) -> (r: Option<Schema>)
        ensures
            view_of(r) == self.current(),
    {
        match &self.current_schema {
            Some(s) => Some(s.copy()),
            None => None,
        }
    }

    /// The key of the table's metadata document.
    pub fn metadata_path(&self) -> (r: String)
        ensures
            r@ == metadata_path_of(self.settings().iceberg_table@),
    {
        let mut s = self.mapping.iceberg_table.clone();
        s.append("/metadata/metadata.json");
        s
    }

    /// Adopts the current schema of the table's stored metadata, when a
    /// stored schema has the current schema id and distinct names.
    pub fn load_existing_schema(&mut self, md: &TableMetadata)
        requires
            old(self).wf(),
        ensures
            final(self).wf(),
            final(self).settings() == old(self).settings(),
            ({
                let k = first_with_id(md.schemas@, md.current_schema_id, 0);
                if k < md.schemas@.len() && names_unique(schema_of_table(md.schemas@[k].fields_view())) {
                    final(self).current() == Some(schema_of_table(md.schemas@[k].fields_view()))
                } else {
                    final(self).current() == old(self).current()
                }
            }),
    {
        if k_found(md) {
            self.current_schema = Some(schema_from_table(md));
        }
    }

    /// With automatic evolution on, widens the known schema by `new_schema`
    /// (the merge of the known schema, or the empty one, with it) and says
    /// whether that changed it; with it off, changes nothing.
    pub fn evolve_schema_if_needed(&mut self, new_schema: &Schema) -> (changed: bool)
        requires
            old(self).wf(),
        ensures
            final(self).wf(),
            final(self).settings() == old(self).settings(),
            !old(self).settings().auto_schema_evolution ==> !changed && final(self).current()
                == old(self).current(),
            old(self).settings().auto_schema_evolution ==> {
                let base = match old(self).current() {
                    Some(s) => s,
                    None => Seq::empty(),
                };
                &&& final(self).current() == Some(merge(base, new_schema@))
                &&& changed == (old(self).current() != final(self).current())
            },
    {
        if !self.mapping.auto_schema_evolution {
            return false;
        }
        let base = match &self.current_schema {
            Some(s) => s.copy(),
            None => Schema::empty(),
        };
        proof {
            lemma_merge_wf(base@, new_schema@);
        }
        let merged = merge_schemas(&base, new_schema);
        let changed = match &self.current_schema {
            Some(s) => !same_schema(s, &merged),
            None => true,
        };
        self.current_schema = Some(merged);
        changed
    }

    /// The metadata of a new table for the mapping: see `initial_metadata`,
    /// with location `{bucket}/{table}`.
    pub fn create_initial_metadata(&self, schema: &Schema, table_uuid: String, now_ms: i64) -> (r:
        TableMetadata)
        requires
            schema@.len() < i32::MAX,
        ensures
            is_initial_metadata(
                r,
                table_uuid@,
                location_of(self.settings().bucket@, self.settings().iceberg_table@),
                schema@,
                now_ms,
            ),
    {
        let mut location = self.mapping.bucket.clone();
        location.append("/");
        location.append(self.mapping.iceberg_table.as_str());
        initial_metadata(table_uuid, location, schema, now_ms)
    }

    /// Records `new_schema` as the table's new current schema version; see
    /// `add_schema_version`. Stored metadata that breaks the layout's
    /// invariants is `InvalidMetadata`.
    pub fn update_table_schema(&self, md: TableMetadata, new_schema: &Schema, now_ms: i64) -> (r:
        Result<TableMetadata, RdeError>)
        requires
            new_schema@.len() < i32::MAX,
        ensures
            !md.wf() ==> r == Err::<TableMetadata, RdeError>(RdeError::InvalidMetadata),
            md.wf() && max_or(md.schema_ids(), i32::MIN as int) == i32::MAX ==> r == Err::<
                TableMetadata,
                RdeError,
            >(RdeError::Overflow),
            md.wf() && max_or(md.schema_ids(), i32::MIN as int) < i32::MAX ==> (r matches Ok(m)
                && schema_version_added(md, m, new_schema@, now_ms)),
    {
        if !md.check() {
            return Err(RdeError::InvalidMetadata);
        }
        proof {
            crate::table::lemma_max_or_bounds(md.schema_ids(), i32::MIN as int);
        }
        add_schema_version(md, new_schema, now_ms)
    }
}

/// Whether a stored schema has the current schema id and distinct names.
fn k_found(md: &TableMetadata) -> (r: bool)
    ensures
        r == ({
            let k = first_with_id(md.schemas@, md.current_schema_id, 0);
            k < md.schemas@.len() && names_unique(schema_of_table(md.schemas@[k].fields_view()))
        }),
{
    let mut i: usize = 0;
    while i < md.schemas.len() && md.schemas[i].schema_id != md.current_schema_id
        invariant
            i <= md.schemas@.len(),
            forall|k: int| 0 <= k < i ==> md.schemas@[k].schema_id != md.current_schema_id,
        decreases md.schemas@.len() - i,
    {
        i = i + 1;
    }
    proof {
        crate::pipeline::lemma_first_with_id(md.schemas@, md.current_schema_id, i as int, 0);
    }
    if i == md.schemas.len() {
        return false;
    }
    crate::table::from_table_schema(&md.schemas[i]).is_some()
}

} // verus!
