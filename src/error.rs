//! The library's errors.

use vstd::prelude::*;

verus! {

/// What can go wrong in a pipeline's logic.
#[derive(Debug, Clone, PartialEq, Eq)]
pub enum RdeError {
    /// A channel between operators closed before end of stream.
    ChannelClosed(String),
    /// The pipeline document does not have exactly one source; holds the count.
    SourceCount(usize),
    /// The pipeline document does not have exactly one sink; holds the count.
    SinkCount(usize),
    /// A file pattern matched no file; holds the pattern.
    NoFilesMatched(String),
    /// A batch's field cannot be admitted by the schema it meets; holds its name.
    SchemaMismatch(String),
    /// Stored table metadata breaks the table layout's invariants.
    InvalidMetadata,
    /// A record arrived while no schema was known or configured.
    NoSchema,
    /// A count, size or identifier does not fit its integer type.
    Overflow,
}

} // verus!
