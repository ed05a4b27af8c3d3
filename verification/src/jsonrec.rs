//! The filter's model of one already-serialized record: a mapping from
//! field names to plain JSON values.
//!
//! A number is carried as the raw bits of the `f64` nearest to it, which is
//! what the filter compares; arrays and objects are opaque (`Other`), the
//! filter never matches them.  Callers that read real JSON build this type
//! at the input edge.

use crate::value::NamedMap;
use vstd::prelude::*;

verus! {

/// The mathematical model of a plain JSON value.
pub enum SpecJson {
    Null,
    Bool(bool),
    Num(u64),
    Str(Seq<char>),
    Other,
}

/// A plain JSON value as the filter sees it.  `Num` holds the IEEE 754 bits
/// of the number as a double.
#[derive(Debug, Clone, PartialEq)]
pub enum JsonValue {
    Null,
    Bool(bool),
    Num(u64),
    Str(String),
    Other,
}

impl View for JsonValue {
    type V = SpecJson;

    open spec fn view(&self) -> SpecJson {
        match self {
            JsonValue::Null => SpecJson::Null,
            JsonValue::Bool(b) => SpecJson::Bool(*b),
            JsonValue::Num(n) => SpecJson::Num(*n),
            JsonValue::Str(s) => SpecJson::Str(s@),
            JsonValue::Other => SpecJson::Other,
        }
    }
}

/// One record of the filter's input: field names bound to plain JSON
/// values.
pub type JsonRecord = NamedMap<JsonValue>;

} // verus!
