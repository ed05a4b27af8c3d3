//! One parsed log line: fixed positional attributes plus the open-ended
//! dynamic field mapping.

use crate::value::{FieldMap, SpecValue};
use vstd::prelude::*;

verus! {

/// The mathematical model of a record.
pub struct RecView {
    pub line_num: u32,
    pub date: Seq<char>,
    pub time: Seq<char>,
    pub timestamp: Seq<char>,
    pub hostname: Option<Seq<char>>,
    pub process: Option<Seq<char>>,
    pub pid: Option<u32>,
    pub level: Option<Seq<char>>,
    pub component: Option<Seq<char>>,
    pub thread: Option<u32>,
    pub class: Option<Seq<char>>,
    pub source: Option<Seq<char>>,
    pub content: Option<Seq<char>>,
    pub raw_line: Seq<char>,
    pub parse_error: Option<Seq<char>>,
    pub fields: Map<Seq<char>, SpecValue>,
}

/// One parsed line.  Every line yields exactly one record, however
/// malformed: a structural mismatch only degrades the record and sets
/// `parse_error`.
#[derive(Debug, Clone)]
pub struct LogRecord {
    /// 1-based position of the line in the input, in original order.
    pub line_num: u32,
    /// `YYYY-MM-DD`, or empty when the timestamp did not parse.
    pub date: String,
    /// `HH:MM:SS` with six fractional digits, or empty.
    pub time: String,
    /// The raw timestamp text, or empty when none was recognized.
    pub timestamp: String,
    pub hostname: Option<String>,
    pub process: Option<String>,
    pub pid: Option<u32>,
    pub level: Option<String>,
    pub component: Option<String>,
    pub thread: Option<u32>,
    pub class: Option<String>,
    pub source: Option<String>,
    pub content: Option<String>,
    /// The original line, verbatim.
    pub raw_line: String,
    /// Set only on fallback paths.
    pub parse_error: Option<String>,
    /// The typed dynamic fields.
    pub dynamic_fields: FieldMap,
}

impl View for LogRecord {
    type V = RecView;

    open spec fn view(&self) -> RecView {
        RecView {
            line_num: self.line_num,
            date: self.date@,
            time: self.time@,
            timestamp: self.timestamp@,
            hostname: self.hostname.deep_view(),
            process: self.process.deep_view(),
            pid: self.pid,
            level: self.level.deep_view(),
            component: self.component.deep_view(),
            thread: self.thread,
            class: self.class.deep_view(),
            source: self.source.deep_view(),
            content: self.content.deep_view(),
            raw_line: self.raw_line@,
            parse_error: self.parse_error.deep_view(),
            fields: self.dynamic_fields@,
        }
    }
}

impl LogRecord {
    /// The dynamic field list is a well-formed mapping.
    pub open spec fn wf(&self) -> bool {
        self.dynamic_fields.wf()
    }
}

} // verus!
