//! The parallel map over one chunk of lines, through rayon.  Results are
//! collected back into original positional order, never completion order.

use crate::parser::SolidFireParser;
use crate::record::LogRecord;
use crate::schema::FieldSet;
use rayon::iter::{IndexedParallelIterator, IntoParallelRefIterator, ParallelIterator};
use vstd::prelude::*;

verus! {

/// Relies on rayon: `par_iter` over a slice, `enumerate`, `map` and
/// `collect` into a `Vec`.  Rayon guarantees that a parallel iterator
/// produces the same results as its sequential counterpart; collecting the
/// indexed iterator places each result at its input index, so the output
/// order equals the input order whatever the scheduling.  Each task reads
/// one line and the shared read-only schema, and the closure only calls
/// the library's verified `parse_unified`.
#[verifier::external_body]
pub(crate) fn par_parse_range(
    parser: &SolidFireParser,
    lines: &Vec<String>,
    start: usize,
    end: usize,
    base: u32,
    schema: &FieldSet,
) -> (r: Vec<LogRecord>)
    requires
        start <= end <= lines@.len(),
        base + (end - start) <= u32::MAX,
    ensures
        r@.len() == end - start,
        forall|i: int|
            0 <= i < r@.len() ==> (#[trigger] r@[i])@ == crate::parser::spec_parse_unified(
                lines@[start + i]@,
                (base + i) as u32,
                schema@,
            ),
        forall|i: int| 0 <= i < r@.len() ==> (#[trigger] r@[i]).wf(),
{
    lines[start..end].par_iter().enumerate().map(
        |(i, line): (usize, &String)| parser.parse_unified(line, base, i, schema),
    ).collect()
}

} // verus!
