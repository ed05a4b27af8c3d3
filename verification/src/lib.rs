//! Verified core of a log-processing pipeline for line-oriented logs of a
//! storage-cluster daemon.
//!
//! The library recognizes one of several line layouts, extracts fixed
//! positional fields and an open-ended set of embedded `key=value` pairs,
//! coerces value types deterministically, and unifies every emitted record to
//! a single per-run schema so that downstream tabular tools can query the
//! output uniformly.  A companion filter applies date ranges, time-of-day
//! ranges and exact field matches to the emitted records.
//!
//! Schema discovery samples a bounded prefix of the input, a deliberate
//! accuracy/throughput trade-off: a dynamic field that first appears after
//! the sampled prefix (or one that discovery skips, such as a
//! `complex_`-renamed key) stays outside the universe, and only the records
//! that carry it expose it — the unifier pads but never removes.  Key-set
//! uniformity across a run therefore holds exactly when the lines agree on
//! which keys escape the universe; `laws` states and proves that law.

pub mod chars;
pub mod filter;
pub mod ieee;
pub mod jsonrec;
pub mod kv;
pub mod laws;
pub mod matcher;
pub mod numbers;
pub mod parallel;
pub mod parser;
pub mod record;
pub mod schema;
pub mod strings;
pub mod timestamp;
pub mod tokens;
pub mod value;

pub use chars::CharClass;
pub use filter::{FieldFilter, FilterError, SolidFireFilter, TimeFilter};
pub use jsonrec::{JsonRecord, JsonValue};
pub use parser::SolidFireParser;
pub use record::LogRecord;
pub use schema::FieldSet;
pub use value::{FieldMap, FieldValue};
