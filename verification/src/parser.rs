//! The parser: one record per line, schema discovery over a bounded prefix,
//! unification of every record to the discovered universe, and the chunked
//! pipeline that drives them in original line order.

use crate::kv::kv_pairs_of;
use crate::matcher::{parse_line_impl, spec_parse_line};
use crate::record::{LogRecord, RecView};
use crate::schema::{
    discover_schema_impl, extract_field_names_impl, line_field_names, spec_universe, unify_fields,
    unify_map, FieldSet,
};
use crate::strings::chars_of;
use crate::timestamp::{norm_timestamp, normalize_timestamp};
use crate::value::FieldMap;
use vstd::prelude::*;

verus! {

/// The multi-format line parser with dynamic schema unification.
pub struct SolidFireParser {}

/// One line parsed and unified against the universe `u`.
pub open spec fn spec_parse_unified(line: Seq<char>, num: u32, u: Set<Seq<char>>) -> RecView {
    let rv = spec_parse_line(line, num);
    RecView { fields: unify_fields(rv.fields, u), ..rv }
}

/// What one run emits: for every input line, in input order, the record of
/// that line unified against the universe sampled from the input's prefix.
/// No chunking parameter appears here: the output is a function of the
/// lines alone.
pub open spec fn spec_parse_run(lines: Seq<Seq<char>>) -> Seq<RecView> {
    Seq::new(
        lines.len(),
        |i: int| spec_parse_unified(lines[i], (i + 1) as u32, spec_universe(lines)),
    )
}

/// Whatever the line, the record keeps the line number it was given.
pub proof fn lemma_parse_line_num(line: Seq<char>, num: u32)
    ensures
        spec_parse_line(line, num).line_num == num,
{
}

impl SolidFireParser {
    pub fn new() -> (r: SolidFireParser)
    {
        SolidFireParser {  }
    }

    /// Parse one raw line; never fails, every line yields one record.
    pub fn parse_line(&self, line: &str, line_num: u32) -> (r: LogRecord)
        ensures
            r.wf(),
            r@ == spec_parse_line(line@, line_num),
    {
        parse_line_impl(line, line_num)
    }

    /// Split a timestamp into date and time strings; two empty strings when
    /// it does not parse.
    pub fn parse_timestamp(&self, ts: &str) -> (r: (String, String))
        ensures
            r.0@ == norm_timestamp(ts@).0,
            r.1@ == norm_timestamp(ts@).1,
    {
        normalize_timestamp(ts)
    }

    /// Extract and coerce the `key=value` pairs of a content string.
    pub fn parse_key_value_pairs(&self, content: &str) -> (r: FieldMap)
        ensures
            r.wf(),
            r@ == kv_pairs_of(content@),
    {
        let cv = chars_of(content);
        crate::kv::extract_pairs(&cv)
    }

    /// The dynamic field names that one line would contribute to the
    /// universe.
    pub fn extract_dynamic_field_names(&self, line: &str) -> (r: FieldSet)
        ensures
            r.wf(),
            r@ =~= line_field_names(line@),
    {
        extract_field_names_impl(line)
    }

    /// Scan a bounded prefix of the input and build the field universe.
    pub fn discover_schema(&self, lines: &Vec<String>) -> (r: FieldSet)
        ensures
            r.wf(),
            r@ =~= spec_universe(lines.deep_view()),
    {
        discover_schema_impl(lines)
    }

    /// Insert an explicit null for every universe name the record lacks;
    /// existing keys are never removed or overwritten.
    pub fn ensure_complete_schema(&self, record: &mut LogRecord, all_fields: &FieldSet)
        requires
            old(record).wf(),
        ensures
            final(record).wf(),
            final(record)@ == (RecView {
                fields: unify_fields(old(record)@.fields, all_fields@),
                ..old(record)@
            }),
    {
        unify_map(&mut record.dynamic_fields, all_fields);
    }

    /// Parse one line and unify it against the discovered universe; the
    /// record's number is `base + offset`.
    pub fn parse_unified(&self, line: &str, base: u32, offset: usize, schema: &FieldSet) -> (r:
        LogRecord)
        requires
            base + offset <= u32::MAX,
        ensures
            r.wf(),
            r@ == spec_parse_unified(line@, (base + offset) as u32, schema@),
    {
        let num: u32 = base + (offset as u32);
        let mut rec = parse_line_impl(line, num);
        unify_map(&mut rec.dynamic_fields, schema);
        rec
    }

    /// The whole run: discover the universe once, then parse and unify all
    /// lines in fixed-size chunks, each chunk mapped in parallel with its
    /// results collected back into input order, chunks visited sequentially.
    ///
    /// The output is exactly `spec_parse_run` of the input lines: one record
    /// per line, in input order, with `line_num` numbering the lines from 1,
    /// whatever the chunk size.
    pub fn parse_lines(&self, lines: &Vec<String>, chunk_size: usize) -> (r: Vec<LogRecord>)
        requires
            chunk_size >= 1,
            lines@.len() + 1 <= u32::MAX,
        ensures
            r@.len() == lines@.len(),
            forall|i: int| 0 <= i < r@.len() ==> (#[trigger] r@[i]).wf(),
            forall|i: int|
                0 <= i < r@.len() ==> (#[trigger] r@[i])@ == spec_parse_run(lines.deep_view())[i],
            forall|i: int| 0 <= i < r@.len() ==> (#[trigger] r@[i])@.line_num == i + 1,
    {
        let schema = self.discover_schema(lines);
        let mut out: Vec<LogRecord> = Vec::new();
        let mut c: usize = 0;
        while c < lines.len()
            invariant
                0 <= c <= lines@.len(),
                c == out@.len(),
                chunk_size >= 1,
                lines@.len() + 1 <= u32::MAX,
                schema.wf(),
                schema@ =~= spec_universe(lines.deep_view()),
                lines.deep_view().len() == lines@.len(),
                forall|i: int| 0 <= i < c ==> (#[trigger] out@[i]).wf(),
                forall|i: int|
                    0 <= i < c ==> (#[trigger] out@[i])@ == spec_parse_unified(
                        lines.deep_view()[i],
                        (i + 1) as u32,
                        spec_universe(lines.deep_view()),
                    ),
            decreases lines@.len() - c,
        {
            let end = if lines.len() - c < chunk_size {
                lines.len()
            } else {
                c + chunk_size
            };
            let base: u32 = (c as u32) + 1;
            let mut recs = crate::parallel::par_parse_range(self, lines, c, end, base, &schema);
            proof {
                assert forall|i: int| 0 <= i < recs@.len() implies #[trigger] (lines@[c + i]@)
                    == lines.deep_view()[c + i] by {
                    assert(lines.deep_view()[c + i] == lines@[c + i].deep_view());
                }
            }
            out.append(&mut recs);
            c = end;
        }
        proof {
            assert forall|i: int| 0 <= i < out@.len() implies (#[trigger] out@[i])@
                == spec_parse_run(lines.deep_view())[i] by {
                assert(spec_parse_run(lines.deep_view())[i] == spec_parse_unified(
                    lines.deep_view()[i],
                    (i + 1) as u32,
                    spec_universe(lines.deep_view()),
                ));
            }
            assert forall|i: int| 0 <= i < out@.len() implies (#[trigger] out@[i])@.line_num == i
                + 1 by {
                lemma_parse_line_num(lines.deep_view()[i], (i + 1) as u32);
            }
        }
        out
    }
}

} // verus!
