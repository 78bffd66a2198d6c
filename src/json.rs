//! A plain model of semi-structured records: the values a JSON document
//! holds, with object members kept in document order.

use vstd::prelude::*;

verus! {

/// One JSON value. Numbers keep the distinction the schema rules read:
/// integers that fit `i64`, larger unsigned integers, and other numbers, the
/// last held as their decimal text.
#[derive(Debug, PartialEq, Eq)]
pub enum JsonValue {
    Null,
    Bool(bool),
    Int(i64),
    UInt(u64),
    Float(String),
    Str(String),
    Array(Vec<JsonValue>),
    Object(Vec<(String, JsonValue)>),
}

/// The member keys of an object's entries, in order.
pub open spec fn entry_keys(entries: Seq<(String, JsonValue)>) -> Seq<Seq<char>> {
    entries.map_values(|e: (String, JsonValue)| e.0@)
}

/// No key occurs twice.
pub open spec fn keys_unique(keys: Seq<Seq<char>>) -> bool {
    forall|i: int, j: int| 0 <= i < j < keys.len() ==> keys[i] != keys[j]
}

impl JsonValue {
    /// A record is well formed when, if it is an object, its keys are
    /// distinct, as they are in any parsed JSON object.
    pub open spec fn wf(&self) -> bool {
        match self {
            JsonValue::Object(entries) => keys_unique(entry_keys(entries@)),
            _ => true,
        }
    }

    /// The `Null` test, usable in executable code.
    pub fn is_null(&self) -> (r: bool)
        ensures
            r == (*self is Null),
    {
        match self {
            JsonValue::Null => true,
            _ => false,
        }
    }
}

} // verus!
