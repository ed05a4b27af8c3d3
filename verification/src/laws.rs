//! The run-level laws of the pipeline: line-count preservation, schema
//! uniformity, order preservation, the opacity of nested values, and the
//! completeness of the minimal fallback.

use crate::chars::{is_blank_char, lemma_run_end, run_end, CharClass};
use crate::kv::{
    complex_prefix, kv_fold, kv_pairs_of, kv_word_key, kv_word_update, value_has_nested,
};
use crate::matcher::{match_prefix, spec_parse_line, ts_match};
use crate::parser::{spec_parse_run, spec_parse_unified};
use crate::record::RecView;
use crate::schema::spec_universe;
use crate::tokens::{split_ws, tokens_from};
use crate::value::SpecValue;
use vstd::prelude::*;

verus! {

/// Line-count preservation: a run over `L` lines denotes exactly `L`
/// records, and the record at position `i` carries line number `i + 1` —
/// no drops, no duplicates, numbering in input order.
pub proof fn lemma_line_count_preservation(lines: Seq<Seq<char>>)
    requires
        lines.len() + 1 <= u32::MAX,
    ensures
        spec_parse_run(lines).len() == lines.len(),
        forall|i: int|
            0 <= i < lines.len() ==> #[trigger] spec_parse_run(lines)[i].line_num == i + 1,
{
    assert forall|i: int| 0 <= i < lines.len() implies #[trigger] spec_parse_run(
        lines,
    )[i].line_num == i + 1 by {
        crate::parser::lemma_parse_line_num(lines[i], (i + 1) as u32);
    }
}

/// Order preservation: what a run emits is a function of the lines alone —
/// one record per input line, at the line's own position.  No chunk size
/// appears in `spec_parse_run`, and `parse_lines` meets this same
/// specification for every chunk size, so two runs over the same lines
/// with different chunk sizes emit identical record views in identical
/// order.
pub proof fn lemma_order_preservation(lines: Seq<Seq<char>>, r1: Seq<RecView>, r2: Seq<RecView>)
    requires
        r1 == spec_parse_run(lines),
        r2 == spec_parse_run(lines),
    ensures
        r1 == r2,
        r1.len() == lines.len(),
        forall|i: int|
            0 <= i < lines.len() ==> r1[i] == spec_parse_unified(
                lines[i],
                (i + 1) as u32,
                spec_universe(lines),
            ),
{
}

/// Schema uniformity: two records of one run expose equal dynamic key sets
/// exactly when their lines agree on which keys escape the discovered
/// universe.  In particular, whenever no key escapes — every line's own
/// keys fall within the universe — every record's key set is exactly the
/// universe.
///
/// The premise is needed: a key first appearing after the sampled prefix,
/// the reserved `method` key of a call-style line outside the sample, or a
/// `complex_`-renamed key (which discovery skips) stays outside the
/// universe, and only the record that carries it keeps it — the unifier
/// never removes a key.
pub proof fn lemma_schema_uniformity(lines: Seq<Seq<char>>, i: int, j: int)
    requires
        0 <= i < lines.len(),
        0 <= j < lines.len(),
        spec_parse_line(lines[i], (i + 1) as u32).fields.dom().difference(spec_universe(lines))
            == spec_parse_line(lines[j], (j + 1) as u32).fields.dom().difference(
            spec_universe(lines),
        ),
    ensures
        spec_parse_run(lines)[i].fields.dom() == spec_parse_run(lines)[j].fields.dom(),
{
    let u = spec_universe(lines);
    let own_i = spec_parse_line(lines[i], (i + 1) as u32).fields.dom();
    let own_j = spec_parse_line(lines[j], (j + 1) as u32).fields.dom();
    assert(spec_parse_run(lines)[i].fields.dom() =~= own_i.difference(u).union(u));
    assert(spec_parse_run(lines)[j].fields.dom() =~= own_j.difference(u).union(u));
}

/// The common case of schema uniformity: when every line's own keys fall
/// within the universe, every record's key set is exactly the universe.
pub proof fn lemma_schema_uniformity_within_universe(lines: Seq<Seq<char>>, i: int)
    requires
        0 <= i < lines.len(),
        spec_parse_line(lines[i], (i + 1) as u32).fields.dom() <= spec_universe(lines),
    ensures
        spec_parse_run(lines)[i].fields.dom() == spec_universe(lines),
{
    assert(spec_parse_run(lines)[i].fields.dom() =~= spec_universe(lines));
}

/// The unifier fills gaps and nothing else: every binding the record
/// already has is kept untouched, every universe name is present
/// afterwards, and a universe name the record lacked is bound to an
/// explicit null.
pub proof fn lemma_unifier_only_fills_gaps(m: Map<Seq<char>, SpecValue>, u: Set<Seq<char>>)
    ensures
        forall|k: Seq<char>|
            m.dom().contains(k) ==> crate::schema::unify_fields(m, u).dom().contains(k)
                && crate::schema::unify_fields(m, u)[k] == m[k],
        forall|k: Seq<char>| u.contains(k) ==> crate::schema::unify_fields(m, u).dom().contains(k),
        forall|k: Seq<char>|
            u.contains(k) && !m.dom().contains(k) ==> crate::schema::unify_fields(m, u)[k]
                == SpecValue::Null,
        forall|k: Seq<char>|
            crate::schema::unify_fields(m, u).dom().contains(k) ==> m.dom().contains(k)
                || u.contains(k),
{
}

/// A value holding nested syntax is kept opaque: the token binds the
/// `complex_`-prefixed key to the value's raw text, untouched by coercion.
pub proof fn lemma_complex_value_opaque(m: Map<Seq<char>, SpecValue>, w: Seq<char>)
    requires
        run_end(w, 0, CharClass::NotEquals) < w.len(),
        value_has_nested(w.subrange(run_end(w, 0, CharClass::NotEquals) + 1, w.len() as int)),
    ensures
        kv_word_update(m, w) == m.insert(
            complex_prefix() + w.subrange(0, run_end(w, 0, CharClass::NotEquals)),
            SpecValue::Str(
                w.subrange(run_end(w, 0, CharClass::NotEquals) + 1, w.len() as int),
            ),
        ),
{
}

/// The mapping after the words `words[t..i]` have been applied to `m`.
spec fn kv_fold_upto(words: Seq<Seq<char>>, t: int, i: int, m: Map<Seq<char>, SpecValue>) -> Map<
    Seq<char>,
    SpecValue,
>
    decreases i - t,
{
    if t < i {
        kv_fold_upto(words, t + 1, i, kv_word_update(m, words[t]))
    } else {
        m
    }
}

proof fn lemma_kv_fold_roll(words: Seq<Seq<char>>, t: int, i: int, m: Map<Seq<char>, SpecValue>)
    requires
        0 <= t <= i <= words.len(),
    ensures
        kv_fold(words, t, m) == kv_fold(words, i, kv_fold_upto(words, t, i, m)),
    decreases i - t,
{
    if t < i {
        lemma_kv_fold_roll(words, t + 1, i, kv_word_update(m, words[t]));
    }
}

/// Words that bind no given key leave that key's binding unchanged through
/// the rest of the fold.
proof fn lemma_kv_fold_frame(
    words: Seq<Seq<char>>,
    i: int,
    m: Map<Seq<char>, SpecValue>,
    k: Seq<char>,
)
    requires
        forall|j: int| i <= j < words.len() ==> kv_word_key(#[trigger] words[j]) != Some(k),
    ensures
        kv_fold(words, i, m).dom().contains(k) == m.dom().contains(k),
        m.dom().contains(k) ==> kv_fold(words, i, m)[k] == m[k],
    decreases words.len() - i,
{
    if 0 <= i < words.len() {
        let m2 = kv_word_update(m, words[i]);
        assert(m2.dom().contains(k) == m.dom().contains(k));
        assert(m.dom().contains(k) ==> m2[k] == m[k]);
        lemma_kv_fold_frame(words, i + 1, m2, k);
    }
}

/// Within one content string, the last token that binds a given
/// `complex_`-prefixed key decides it: afterwards that key maps to the
/// token's nested value, verbatim and unparsed, and the plain key of the
/// token appears nowhere on its account.  The qualifier on later tokens is
/// forced by last-key-wins: a later token may rebind the same renamed key
/// (after `a={x} complex_a=5`, `complex_a` holds the integer five).
pub proof fn lemma_complex_key_in_content(content: Seq<char>, i: int)
    requires
        0 <= i < split_ws(content).len(),
        ({
            let w = split_ws(content)[i];
            let e = run_end(w, 0, CharClass::NotEquals);
            e < w.len() && value_has_nested(w.subrange(e + 1, w.len() as int))
        }),
        forall|j: int|
            i < j < split_ws(content).len() ==> kv_word_key(#[trigger] split_ws(content)[j])
                != kv_word_key(split_ws(content)[i]),
    ensures
        ({
            let w = split_ws(content)[i];
            let e = run_end(w, 0, CharClass::NotEquals);
            let ck = complex_prefix() + w.subrange(0, e);
            kv_pairs_of(content).dom().contains(ck) && kv_pairs_of(content)[ck] == SpecValue::Str(
                w.subrange(e + 1, w.len() as int),
            )
        }),
{
    let words = split_ws(content);
    let w = words[i];
    let e = run_end(w, 0, CharClass::NotEquals);
    let ck = complex_prefix() + w.subrange(0, e);
    let m_i = kv_fold_upto(words, 0, i, Map::empty());
    lemma_kv_fold_roll(words, 0, i, Map::empty());
    let m_i1 = kv_word_update(m_i, w);
    assert(kv_fold(words, i, m_i) == kv_fold(words, i + 1, m_i1));
    assert(m_i1.dom().contains(ck) && m_i1[ck] == SpecValue::Str(
        w.subrange(e + 1, w.len() as int),
    ));
    assert(kv_word_key(w) == Some(ck));
    lemma_kv_fold_frame(words, i + 1, m_i1, ck);
}

proof fn lemma_tokens_ge1(s: Seq<char>, i: int, p: int)
    requires
        0 <= i <= p < s.len(),
        !is_blank_char(s[p]),
    ensures
        tokens_from(s, i).len() >= 1,
{
    lemma_run_end(s, i, CharClass::Blank);
    let start = run_end(s, i, CharClass::Blank);
    assert(start <= p);
}

proof fn lemma_tokens_ge2(s: Seq<char>, i: int, p1: int, b1: int, p2: int)
    requires
        0 <= i <= p1 < b1 < p2 < s.len(),
        !is_blank_char(s[p1]),
        is_blank_char(s[b1]),
        !is_blank_char(s[p2]),
    ensures
        tokens_from(s, i).len() >= 2,
{
    lemma_run_end(s, i, CharClass::Blank);
    let start = run_end(s, i, CharClass::Blank);
    assert(start <= p1);
    lemma_run_end(s, start, CharClass::NonBlank);
    let end = run_end(s, start, CharClass::NonBlank);
    assert(end <= b1);
    lemma_tokens_ge1(s, end, p2);
}

proof fn lemma_tokens_ge3(s: Seq<char>, i: int, p1: int, b1: int, p2: int, b2: int, p3: int)
    requires
        0 <= i <= p1 < b1 < p2 < b2 < p3 < s.len(),
        !is_blank_char(s[p1]),
        is_blank_char(s[b1]),
        !is_blank_char(s[p2]),
        is_blank_char(s[b2]),
        !is_blank_char(s[p3]),
    ensures
        tokens_from(s, i).len() >= 3,
{
    lemma_run_end(s, i, CharClass::Blank);
    let start = run_end(s, i, CharClass::Blank);
    assert(start <= p1);
    lemma_run_end(s, start, CharClass::NonBlank);
    let end = run_end(s, start, CharClass::NonBlank);
    assert(end <= b1);
    lemma_tokens_ge2(s, end, p2, b2, p3);
}

/// A line carrying the structured prefix has at least three whitespace
/// tokens: the timestamp, the hostname, and the process part.
pub proof fn lemma_structured_has_tokens(s: Seq<char>)
    requires
        match_prefix(s) is Some,
    ensures
        split_ws(s).len() >= 3,
{
    let ts_end = ts_match(s)->0;
    let hs = run_end(s, ts_end, CharClass::Blank);
    let he = run_end(s, hs, CharClass::NonBlank);
    let ps = run_end(s, he, CharClass::Blank);
    lemma_run_end(s, 20, CharClass::Digit);
    lemma_run_end(s, ts_end, CharClass::Blank);
    lemma_run_end(s, hs, CharClass::NonBlank);
    lemma_run_end(s, he, CharClass::Blank);
    assert(!is_blank_char(s[0]));
    assert(is_blank_char(s[ts_end]));
    assert(!is_blank_char(s[hs]));
    assert(is_blank_char(s[he]));
    assert(!is_blank_char(s[ps]));
    lemma_tokens_ge3(s, 0, 0, ts_end, hs, he, ps);
}

/// Fallback completeness: a line with fewer than three whitespace tokens
/// can match no structured layout, so it yields the degraded record — the
/// `insufficient parts` diagnostic, the raw line as content, and no
/// structural field populated.
pub proof fn lemma_fallback_insufficient(line: Seq<char>, num: u32)
    requires
        split_ws(line).len() < 3,
    ensures
        spec_parse_line(line, num).parse_error == Some("insufficient parts"@),
        spec_parse_line(line, num).content == Some(line),
        spec_parse_line(line, num).raw_line == line,
        spec_parse_line(line, num).line_num == num,
        spec_parse_line(line, num).hostname is None,
        spec_parse_line(line, num).process is None,
        spec_parse_line(line, num).pid is None,
        spec_parse_line(line, num).level is None,
        spec_parse_line(line, num).component is None,
        spec_parse_line(line, num).thread is None,
        spec_parse_line(line, num).class is None,
        spec_parse_line(line, num).source is None,
        spec_parse_line(line, num).date == Seq::<char>::empty(),
        spec_parse_line(line, num).time == Seq::<char>::empty(),
        spec_parse_line(line, num).timestamp == Seq::<char>::empty(),
        spec_parse_line(line, num).fields == Map::<Seq<char>, SpecValue>::empty(),
{
    if match_prefix(line) is Some {
        lemma_structured_has_tokens(line);
    }
}

} // verus!
