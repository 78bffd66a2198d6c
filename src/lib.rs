//! A streaming data pipeline library: records flow from a source through a
//! linear chain of transforms into a sink, as batches of rows under a
//! schema that widens but never narrows.
//!
//! - `json`, `schema`, `manager`: the record model, column types with their
//!   promotion rules, inference, the order-preserving merge, and the
//!   manager that publishes a monotonically widening schema.
//! - `batch`: rows of typed cells, the messages between operators, and the
//!   row a record gives under a schema.
//! - `ops`, `flatten`: the transforms and what each does per message.
//! - `operators`: the sources and the simple sinks.
//! - `table`, `sink`, `mapping`: the table-format metadata, the sink's
//!   admission and commit protocol, and the topic-to-table mapping.
//! - `pipeline`, `config`: the pipeline document and how a graph is built
//!   from it.
//! - `text`, `error`: text rendering and cleaning helpers, and errors.
//!
//! Reading and writing files, the message bus, the object store and the
//! SQL engine are left to the caller, which hands this library plain values.

pub mod batch;
pub mod config;
pub mod error;
pub mod flatten;
pub mod json;
pub mod manager;
pub mod mapping;
pub mod operators;
pub mod ops;
pub mod pipeline;
pub mod schema;
pub mod sink;
pub mod table;
pub mod text;
