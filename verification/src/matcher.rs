//! The line format matcher: classifies a raw line against the structured
//! layouts (call-style first, then basic), extracts the fixed fields, and
//! falls back to a minimal best-effort split when no layout matches.
//!
//! The structured layouts share a positional prefix: a timestamp
//! `YYYY-MM-DDTHH:MM:SS.<digits>Z`, a hostname, a process name ending in
//! `[pid]:`, two bracketed tags, a numeric thread id, a class token, and a
//! source path closed by a pipe.  A call-style line additionally carries a
//! method name and the literal marker `CALL:` after the pipe.  Every maximal
//! run below is a run of one character class (see `chars`), which mirrors
//! greedy matching.

use crate::chars::{
    class_member, is_blank_char, is_digit_char, lemma_run_end, run_end, scan_run, trim_spec,
    CharClass,
};
use crate::kv::kv_pairs_of;
use crate::numbers::{digits_val, parse_u32_range};
use crate::record::{LogRecord, RecView};
use crate::strings::{chars_of, string_range, subvec, trim_vec};
use crate::timestamp::{norm_timestamp, normalize_timestamp};
use crate::tokens::{join_from, join_tokens, split_tokens, split_ws};
use crate::value::{FieldMap, FieldValue, SpecValue};
use vstd::prelude::*;

verus! {

/// The reserved dynamic field that carries the method name of a call-style
/// line.
pub open spec fn method_key() -> Seq<char> {
    "method"@
}

/// Positions of the structured prefix inside a line (model side).  Each
/// `*_start`/`*_end` pair bounds the run of the field's characters.
pub struct PrefixMatch {
    pub ts_end: int,
    pub host_start: int,
    pub host_end: int,
    pub proc_start: int,
    pub proc_end: int,
    pub pid_end: int,
    pub level_start: int,
    pub level_end: int,
    pub comp_start: int,
    pub comp_end: int,
    pub thread_start: int,
    pub thread_end: int,
    pub class_start: int,
    pub class_end: int,
    pub src_start: int,
    pub src_end: int,
}

/// Positions of the structured prefix (exec side).
pub struct PrefixPos {
    pub ts_end: usize,
    pub host_start: usize,
    pub host_end: usize,
    pub proc_start: usize,
    pub proc_end: usize,
    pub pid_end: usize,
    pub level_start: usize,
    pub level_end: usize,
    pub comp_start: usize,
    pub comp_end: usize,
    pub thread_start: usize,
    pub thread_end: usize,
    pub class_start: usize,
    pub class_end: usize,
    pub src_start: usize,
    pub src_end: usize,
}

impl View for PrefixPos {
    type V = PrefixMatch;

    open spec fn view(&self) -> PrefixMatch {
        PrefixMatch {
            ts_end: self.ts_end as int,
            host_start: self.host_start as int,
            host_end: self.host_end as int,
            proc_start: self.proc_start as int,
            proc_end: self.proc_end as int,
            pid_end: self.pid_end as int,
            level_start: self.level_start as int,
            level_end: self.level_end as int,
            comp_start: self.comp_start as int,
            comp_end: self.comp_end as int,
            thread_start: self.thread_start as int,
            thread_end: self.thread_end as int,
            class_start: self.class_start as int,
            class_end: self.class_end as int,
            src_start: self.src_start as int,
            src_end: self.src_end as int,
        }
    }
}

pub open spec fn digit2_at(s: Seq<char>, i: int) -> bool {
    is_digit_char(s[i]) && is_digit_char(s[i + 1])
}

/// The fixed positional shape of the leading timestamp up to the fractional
/// digits: `dddd-dd-ddTdd:dd:dd.`.
pub open spec fn ts_shape(s: Seq<char>) -> bool {
    &&& s.len() >= 21
    &&& digit2_at(s, 0)
    &&& digit2_at(s, 2)
    &&& s[4] == '-'
    &&& digit2_at(s, 5)
    &&& s[7] == '-'
    &&& digit2_at(s, 8)
    &&& s[10] == 'T'
    &&& digit2_at(s, 11)
    &&& s[13] == ':'
    &&& digit2_at(s, 14)
    &&& s[16] == ':'
    &&& digit2_at(s, 17)
    &&& s[19] == '.'
}

/// End position (exclusive) of the leading timestamp, when the line starts
/// with one: the fixed shape, one or more fractional digits, then `Z`.
pub open spec fn ts_match(s: Seq<char>) -> Option<int> {
    if ts_shape(s) {
        let fr = run_end(s, 20, CharClass::Digit);
        if fr > 20 && fr < s.len() && s[fr] == 'Z' {
            Some(fr + 1)
        } else {
            None
        }
    } else {
        None
    }
}

/// The shared structured prefix, when the line carries it.
pub open spec fn match_prefix(s: Seq<char>) -> Option<PrefixMatch> {
    match ts_match(s) {
        None => None,
        Some(ts_end) => {
            let hs = run_end(s, ts_end, CharClass::Blank);
            let he = run_end(s, hs, CharClass::NonBlank);
            let ps = run_end(s, he, CharClass::Blank);
            let pe = run_end(s, ps, CharClass::NotOpenBracket);
            // when `[` follows the blanks directly, greedy matching gives
            // one blank back, so the process part is that single blank
            // (trimmed to empty later) as long as one blank remains
            let p_start = if pe == ps && ps > he + 1 {
                ps - 1
            } else {
                ps
            };
            let de = run_end(s, pe + 1, CharClass::Digit);
            let w3 = run_end(s, de + 2, CharClass::Blank);
            let le = run_end(s, w3 + 1, CharClass::NotCloseBracket);
            let w4 = run_end(s, le + 1, CharClass::Blank);
            let ce = run_end(s, w4 + 1, CharClass::NotCloseBracket);
            let w5 = run_end(s, ce + 1, CharClass::Blank);
            let te = run_end(s, w5, CharClass::Digit);
            let w6 = run_end(s, te, CharClass::Blank);
            let cle = run_end(s, w6, CharClass::NonBlank);
            let w7 = run_end(s, cle, CharClass::Blank);
            let se = run_end(s, w7, CharClass::NotPipe);
            // the same give-back when `|` follows the blanks directly
            let s_start = if se == w7 && w7 > cle + 1 {
                w7 - 1
            } else {
                w7
            };
            if hs > ts_end && he > hs && ps > he && pe > p_start && pe < s.len() && de > pe + 1
                && de + 1 < s.len() && s[de] == ']' && s[de + 1] == ':' && w3 > de + 2 && w3
                < s.len() && s[w3] == '[' && le > w3 + 1 && le < s.len() && w4 > le + 1 && w4
                < s.len() && s[w4] == '[' && ce > w4 + 1 && ce < s.len() && w5 > ce + 1 && te > w5
                && w6 > te && cle > w6 && w7 > cle && se > s_start && se < s.len() {
                Some(
                    PrefixMatch {
                        ts_end,
                        host_start: hs,
                        host_end: he,
                        proc_start: p_start,
                        proc_end: pe,
                        pid_end: de,
                        level_start: w3 + 1,
                        level_end: le,
                        comp_start: w4 + 1,
                        comp_end: ce,
                        thread_start: w5,
                        thread_end: te,
                        class_start: w6,
                        class_end: cle,
                        src_start: s_start,
                        src_end: se,
                    },
                )
            } else {
                None
            }
        },
    }
}

/// `CALL:` sits at position `q`.
pub open spec fn marker_at(s: Seq<char>, q: int) -> bool {
    &&& q + 5 <= s.len()
    &&& s[q] == 'C'
    &&& s[q + 1] == 'A'
    &&& s[q + 2] == 'L'
    &&& s[q + 3] == 'L'
    &&& s[q + 4] == ':'
}

/// The last marker position in `(lo+1, q]` that is preceded by a blank and
/// leaves at least one method character after `lo`.
pub open spec fn find_call_back(s: Seq<char>, lo: int, q: int) -> Option<int>
    decreases q - lo,
{
    if q <= lo + 1 {
        None
    } else if marker_at(s, q) && is_blank_char(s[q - 1]) {
        Some(q)
    } else {
        find_call_back(s, lo, q - 1)
    }
}

/// Position of the `CALL:` marker after the pipe at `pipe`, when the line
/// has the call layout: the last marker within the pipe-free segment, with a
/// blank just before it and a non-empty method part after the pipe.
pub open spec fn find_call(s: Seq<char>, pipe: int) -> Option<int> {
    let seg_end = run_end(s, pipe + 1, CharClass::NotPipe);
    find_call_back(s, pipe + 1, seg_end - 5)
}

/// The numeric value of a digit run, when it fits a `u32`.
pub open spec fn spec_u32_digits(s: Seq<char>, a: int, b: int) -> Option<u32> {
    if digits_val(s, a, b) <= u32::MAX {
        Some(digits_val(s, a, b) as u32)
    } else {
        None
    }
}

/// The fixed fields shared by both structured layouts, with the given
/// content and dynamic fields.
pub open spec fn spec_structured_record(
    line: Seq<char>,
    num: u32,
    m: PrefixMatch,
    content: Seq<char>,
    fields: Map<Seq<char>, SpecValue>,
) -> RecView {
    let ts = line.subrange(0, m.ts_end);
    RecView {
        line_num: num,
        date: norm_timestamp(ts).0,
        time: norm_timestamp(ts).1,
        timestamp: ts,
        hostname: Some(line.subrange(m.host_start, m.host_end)),
        process: Some(trim_spec(line.subrange(m.proc_start, m.proc_end))),
        pid: spec_u32_digits(line, m.proc_end + 1, m.pid_end),
        level: Some(line.subrange(m.level_start, m.level_end)),
        component: Some(line.subrange(m.comp_start, m.comp_end)),
        thread: spec_u32_digits(line, m.thread_start, m.thread_end),
        class: Some(line.subrange(m.class_start, m.class_end)),
        source: Some(trim_spec(line.subrange(m.src_start, m.src_end))),
        content: Some(content),
        raw_line: line,
        parse_error: None,
        fields,
    }
}

/// The record of a basic-layout line: content is everything after the pipe,
/// with leading blanks skipped.
pub open spec fn spec_basic_record(line: Seq<char>, num: u32, m: PrefixMatch) -> RecView {
    let cs = run_end(line, m.src_end + 1, CharClass::Blank);
    let content = line.subrange(cs, line.len() as int);
    spec_structured_record(line, num, m, content, kv_pairs_of(content))
}

/// The record of a call-style line: content is everything after the marker
/// (leading blanks skipped), and the method name between the pipe and the
/// blank before the marker is injected under the reserved `method` key.
pub open spec fn spec_call_record(line: Seq<char>, num: u32, m: PrefixMatch, q: int) -> RecView {
    let cs = run_end(line, q + 5, CharClass::Blank);
    let content = line.subrange(cs, line.len() as int);
    let method = line.subrange(m.src_end + 1, q - 1);
    spec_structured_record(
        line,
        num,
        m,
        content,
        kv_pairs_of(content).insert(method_key(), SpecValue::Str(method)),
    )
}

/// The record of a line that matches no structured layout.  Fewer than three
/// whitespace tokens leave only the raw line and content, with a diagnostic;
/// otherwise the first three tokens serve as timestamp, hostname and
/// process, and the rest joined by single spaces becomes the content.
pub open spec fn spec_minimal_record(line: Seq<char>, num: u32) -> RecView {
    let parts = split_ws(line);
    if parts.len() < 3 {
        RecView {
            line_num: num,
            date: Seq::empty(),
            time: Seq::empty(),
            timestamp: Seq::empty(),
            hostname: None,
            process: None,
            pid: None,
            level: None,
            component: None,
            thread: None,
            class: None,
            source: None,
            content: Some(line),
            raw_line: line,
            parse_error: Some("insufficient parts"@),
            fields: Map::empty(),
        }
    } else {
        RecView {
            line_num: num,
            date: norm_timestamp(parts[0]).0,
            time: norm_timestamp(parts[0]).1,
            timestamp: parts[0],
            hostname: Some(parts[1]),
            process: Some(parts[2]),
            pid: None,
            level: None,
            component: None,
            thread: None,
            class: None,
            source: None,
            content: Some(join_tokens(parts.subrange(3, parts.len() as int))),
            raw_line: line,
            parse_error: Some("minimal parsing used"@),
            fields: Map::empty(),
        }
    }
}

/// What parsing one line yields: the call layout is tried first, then the
/// basic layout, then the minimal fallback.  Exactly one record comes out of
/// every line.
pub open spec fn spec_parse_line(line: Seq<char>, num: u32) -> RecView {
    match match_prefix(line) {
        Some(m) => match find_call(line, m.src_end) {
            Some(q) => spec_call_record(line, num, m, q),
            None => spec_basic_record(line, num, m),
        },
        None => spec_minimal_record(line, num),
    }
}

/// Exec test for a digit at `i`.
fn digit_at(v: &Vec<char>, i: usize) -> (r: bool)
    requires
        i < v@.len(),
    ensures
        r == is_digit_char(v@[i as int]),
{
    '0' <= v[i] && v[i] <= '9'
}

/// Exec scan of the leading timestamp.
pub fn ts_check(v: &Vec<char>) -> (r: Option<usize>)
    ensures
        match r {
            Some(e) => ts_match(v@) == Some(e as int) && 20 < e <= v@.len(),
            None => ts_match(v@) is None,
        },
{
    if v.len() < 21 {
        return None;
    }
    let shape = digit_at(v, 0) && digit_at(v, 1) && digit_at(v, 2) && digit_at(v, 3) && v[4]
        == '-' && digit_at(v, 5) && digit_at(v, 6) && v[7] == '-' && digit_at(v, 8) && digit_at(
        v,
        9,
    ) && v[10] == 'T' && digit_at(v, 11) && digit_at(v, 12) && v[13] == ':' && digit_at(v, 14)
        && digit_at(v, 15) && v[16] == ':' && digit_at(v, 17) && digit_at(v, 18) && v[19] == '.';
    if !shape {
        return None;
    }
    let fr = scan_run(v, 20, CharClass::Digit);
    if fr > 20 && fr < v.len() && v[fr] == 'Z' {
        Some(fr + 1)
    } else {
        None
    }
}

/// Exec scan of the shared structured prefix.
pub fn match_prefix_exec(v: &Vec<char>) -> (r: Option<PrefixPos>)
    ensures
        match r {
            Some(p) => {
                &&& match_prefix(v@) == Some(p@)
                &&& 0 < p.ts_end <= p.host_start < p.host_end <= p.proc_start < p.proc_end
                    < v@.len()
                &&& p.proc_end + 1 < p.pid_end < v@.len()
                &&& p.level_start <= p.level_end <= v@.len()
                &&& p.comp_start <= p.comp_end <= v@.len()
                &&& p.thread_start < p.thread_end <= v@.len()
                &&& p.class_start <= p.class_end <= v@.len()
                &&& p.src_start <= p.src_end < v@.len()
                &&& forall|k: int| p.proc_end + 1 <= k < p.pid_end ==> is_digit_char(v@[k])
                &&& forall|k: int| p.thread_start <= k < p.thread_end ==> is_digit_char(v@[k])
            },
            None => match_prefix(v@) is None,
        },
{
    let ts_end = match ts_check(v) {
        Some(e) => e,
        None => {
            return None;
        },
    };
    let hs = scan_run(v, ts_end, CharClass::Blank);
    if !(hs > ts_end) {
        return None;
    }
    let he = scan_run(v, hs, CharClass::NonBlank);
    if !(he > hs) {
        return None;
    }
    let ps = scan_run(v, he, CharClass::Blank);
    if !(ps > he) {
        return None;
    }
    let pe = scan_run(v, ps, CharClass::NotOpenBracket);
    let p_start = if pe == ps && ps > he + 1 {
        ps - 1
    } else {
        ps
    };
    if !(pe > p_start && pe < v.len()) {
        return None;
    }
    let de = scan_run(v, pe + 1, CharClass::Digit);
    if !(de > pe + 1 && de < v.len() && v[de] == ']' && de + 1 < v.len() && v[de + 1] == ':') {
        return None;
    }
    let w3 = scan_run(v, de + 2, CharClass::Blank);
    if !(w3 > de + 2 && w3 < v.len() && v[w3] == '[') {
        return None;
    }
    let le = scan_run(v, w3 + 1, CharClass::NotCloseBracket);
    if !(le > w3 + 1 && le < v.len()) {
        return None;
    }
    let w4 = scan_run(v, le + 1, CharClass::Blank);
    if !(w4 > le + 1 && w4 < v.len() && v[w4] == '[') {
        return None;
    }
    let ce = scan_run(v, w4 + 1, CharClass::NotCloseBracket);
    if !(ce > w4 + 1 && ce < v.len()) {
        return None;
    }
    let w5 = scan_run(v, ce + 1, CharClass::Blank);
    if !(w5 > ce + 1) {
        return None;
    }
    let te = scan_run(v, w5, CharClass::Digit);
    if !(te > w5) {
        return None;
    }
    let w6 = scan_run(v, te, CharClass::Blank);
    if !(w6 > te) {
        return None;
    }
    let cle = scan_run(v, w6, CharClass::NonBlank);
    if !(cle > w6) {
        return None;
    }
    let w7 = scan_run(v, cle, CharClass::Blank);
    if !(w7 > cle) {
        return None;
    }
    let se = scan_run(v, w7, CharClass::NotPipe);
    let s_start = if se == w7 && w7 > cle + 1 {
        w7 - 1
    } else {
        w7
    };
    if !(se > s_start && se < v.len()) {
        return None;
    }
    proof {
        lemma_run_end(v@, pe + 1, CharClass::Digit);
        lemma_run_end(v@, w5 as int, CharClass::Digit);
    }
    Some(
        PrefixPos {
            ts_end,
            host_start: hs,
            host_end: he,
            proc_start: p_start,
            proc_end: pe,
            pid_end: de,
            level_start: w3 + 1,
            level_end: le,
            comp_start: w4 + 1,
            comp_end: ce,
            thread_start: w5,
            thread_end: te,
            class_start: w6,
            class_end: cle,
            src_start: s_start,
            src_end: se,
        },
    )
}

/// Exec search for the `CALL:` marker after the pipe.
pub fn find_call_exec(v: &Vec<char>, pipe: usize) -> (r: Option<usize>)
    requires
        pipe < v@.len(),
    ensures
        match r {
            Some(q) => find_call(v@, pipe as int) == Some(q as int) && pipe + 2 < q && q + 5
                <= v@.len(),
            None => find_call(v@, pipe as int) is None,
        },
{
    let n = v.len();
    let seg_end = scan_run(v, pipe + 1, CharClass::NotPipe);
    if seg_end - pipe < 8 {
        proof {
            assert(seg_end == run_end(v@, pipe + 1, CharClass::NotPipe));
            assert(seg_end - 5 <= pipe + 2);
            assert(find_call_back(v@, pipe + 1, seg_end - 5) is None);
        }
        return None;
    }
    let mut q = seg_end - 5;
    loop
        invariant
            pipe + 3 <= q <= seg_end - 5,
            seg_end <= v@.len(),
            v@.len() == n,
            seg_end == run_end(v@, pipe + 1, CharClass::NotPipe),
            find_call_back(v@, pipe + 1, seg_end - 5) == find_call_back(v@, pipe + 1, q as int),
        ensures
            match_result(v@, pipe as int, q as int),
        decreases q,
    {
        if v[q] == 'C' && v[q + 1] == 'A' && v[q + 2] == 'L' && v[q + 3] == 'L' && v[q + 4] == ':'
            && class_member(CharClass::Blank, v[q - 1]) {
            proof {
                assert(marker_at(v@, q as int));
            }
            break ;
        }
        if q == pipe + 3 {
            proof {
                assert(!(marker_at(v@, q as int) && is_blank_char(v@[q - 1])));
                assert(find_call_back(v@, pipe + 1, q as int) == find_call_back(
                    v@,
                    pipe + 1,
                    q - 1,
                ));
                assert(find_call_back(v@, pipe + 1, q - 1) is None);
            }
            return None;
        }
        q = q - 1;
    }
    Some(q)
}

/// Helper for the loop contract of `find_call_exec`: at `q` the search has
/// succeeded.
pub open spec fn match_result(s: Seq<char>, pipe: int, q: int) -> bool {
    find_call(s, pipe) == Some(q) && pipe + 2 < q && q + 5 <= s.len()
}

/// Parse one raw line into exactly one record; a structural mismatch only
/// degrades the result, it never fails.
pub fn parse_line_impl(line: &str, line_num: u32) -> (r: LogRecord)
    ensures
        r.wf(),
        r@ == spec_parse_line(line@, line_num),
{
    let v = chars_of(line);
    match match_prefix_exec(&v) {
        Some(p) => {
            let method_q = find_call_exec(&v, p.src_end);
            let content_start = match method_q {
                Some(q) => scan_run(&v, q + 5, CharClass::Blank),
                None => scan_run(&v, p.src_end + 1, CharClass::Blank),
            };
            let content = string_range(&v, content_start, v.len());
            let content_cv = subvec(&v, content_start, v.len());
            let mut fields = crate::kv::extract_pairs(&content_cv);
            if let Some(q) = method_q {
                let method = string_range(&v, p.src_end + 1, q - 1);
                fields.insert("method".to_owned(), FieldValue::Str(method));
            }
            let ts = string_range(&v, 0, p.ts_end);
            let nt = normalize_timestamp(ts.as_str());
            let proc_cv = subvec(&v, p.proc_start, p.proc_end);
            let src_cv = subvec(&v, p.src_start, p.src_end);
            LogRecord {
                line_num,
                date: nt.0,
                time: nt.1,
                timestamp: ts,
                hostname: Some(string_range(&v, p.host_start, p.host_end)),
                process: Some(trim_vec(&proc_cv)),
                pid: parse_u32_range(&v, p.proc_end + 1, p.pid_end),
                level: Some(string_range(&v, p.level_start, p.level_end)),
                component: Some(string_range(&v, p.comp_start, p.comp_end)),
                thread: parse_u32_range(&v, p.thread_start, p.thread_end),
                class: Some(string_range(&v, p.class_start, p.class_end)),
                source: Some(trim_vec(&src_cv)),
                content: Some(content),
                raw_line: line.to_owned(),
                parse_error: None,
                dynamic_fields: fields,
            }
        },
        None => {
            let parts = split_tokens(&v);
            if parts.len() < 3 {
                LogRecord {
                    line_num,
                    date: String::new(),
                    time: String::new(),
                    timestamp: String::new(),
                    hostname: None,
                    process: None,
                    pid: None,
                    level: None,
                    component: None,
                    thread: None,
                    class: None,
                    source: None,
                    content: Some(line.to_owned()),
                    raw_line: line.to_owned(),
                    parse_error: Some("insufficient parts".to_owned()),
                    dynamic_fields: FieldMap::new(),
                }
            } else {
                proof {
                    assert(parts.deep_view()[0] == parts@[0]@);
                    assert(parts.deep_view()[1] == parts@[1]@);
                    assert(parts.deep_view()[2] == parts@[2]@);
                }
                let nt = normalize_timestamp(parts[0].as_str());
                LogRecord {
                    line_num,
                    date: nt.0,
                    time: nt.1,
                    timestamp: parts[0].clone(),
                    hostname: Some(parts[1].clone()),
                    process: Some(parts[2].clone()),
                    pid: None,
                    level: None,
                    component: None,
                    thread: None,
                    class: None,
                    source: None,
                    content: Some(join_from(&parts, 3)),
                    raw_line: line.to_owned(),
                    parse_error: Some("minimal parsing used".to_owned()),
                    dynamic_fields: FieldMap::new(),
                }
            }
        },
    }
}

} // verus!
