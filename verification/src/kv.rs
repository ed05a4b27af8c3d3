//! Extraction of `key=value` pairs from free-form content, with
//! deterministic type coercion.
//!
//! A whitespace token is a candidate pair when it holds `=`; the key is the
//! part before the first `=`, the value the remainder.  A value holding `{`
//! or `[` is kept as an opaque string under a `complex_`-prefixed key; any
//! other value is coerced in order: integer, float, boolean, string.  Later
//! bindings of a key win over earlier ones.

use crate::chars::{run_end, scan_run, CharClass};
use crate::numbers::{
    false_literal_check, float_literal_check, int_literal_val, is_false_literal_ci,
    is_float_literal, is_i64_literal, is_true_literal_ci, parse_i64_chars, true_literal_check,
};
use crate::strings::{chars_of, string_range, subvec};
use crate::tokens::{split_tokens, split_ws};
use crate::value::{FieldMap, FieldValue, SpecValue};
use vstd::prelude::*;

verus! {

/// The prefix put on the key of a value that holds nested syntax.
pub open spec fn complex_prefix() -> Seq<char> {
    "complex_"@
}

/// A value holding `{` or `[` is a nested structure and is not parsed.
pub open spec fn value_has_nested(v: Seq<char>) -> bool {
    run_end(v, 0, CharClass::NotNested) < v.len()
}

/// Deterministic coercion of a raw value, trying the most specific type
/// first: integer, then float, then boolean (case-insensitive), then the
/// raw string.
pub open spec fn coerce_spec(v: Seq<char>) -> SpecValue {
    if is_i64_literal(v) {
        SpecValue::Int(int_literal_val(v) as i64)
    } else if is_float_literal(v) {
        SpecValue::Float(v)
    } else if is_true_literal_ci(v) {
        SpecValue::Bool(true)
    } else if is_false_literal_ci(v) {
        SpecValue::Bool(false)
    } else {
        SpecValue::Str(v)
    }
}

/// How one whitespace token updates the field mapping.
pub open spec fn kv_word_update(m: Map<Seq<char>, SpecValue>, w: Seq<char>) -> Map<
    Seq<char>,
    SpecValue,
> {
    let e = run_end(w, 0, CharClass::NotEquals);
    if e == w.len() {
        m
    } else {
        let key = w.subrange(0, e);
        let value = w.subrange(e + 1, w.len() as int);
        if value_has_nested(value) {
            m.insert(complex_prefix() + key, SpecValue::Str(value))
        } else {
            m.insert(key, coerce_spec(value))
        }
    }
}

/// The key that one whitespace token binds, if any: the `complex_`-renamed
/// key when the value holds nested syntax, the plain key otherwise, and
/// nothing for a token without `=`.
pub open spec fn kv_word_key(w: Seq<char>) -> Option<Seq<char>> {
    let e = run_end(w, 0, CharClass::NotEquals);
    if e == w.len() {
        None
    } else {
        let key = w.subrange(0, e);
        let value = w.subrange(e + 1, w.len() as int);
        if value_has_nested(value) {
            Some(complex_prefix() + key)
        } else {
            Some(key)
        }
    }
}

/// The mapping after the words `words[i..]` have been applied to `m`.
pub open spec fn kv_fold(words: Seq<Seq<char>>, i: int, m: Map<Seq<char>, SpecValue>) -> Map<
    Seq<char>,
    SpecValue,
>
    decreases words.len() - i,
{
    if i < 0 || i >= words.len() {
        m
    } else {
        kv_fold(words, i + 1, kv_word_update(m, words[i]))
    }
}

/// The dynamic fields that a content string carries.
pub open spec fn kv_pairs_of(content: Seq<char>) -> Map<Seq<char>, SpecValue> {
    kv_fold(split_ws(content), 0, Map::empty())
}

/// Coerce one raw value, given both as characters and as the same string.
pub fn coerce_value(cv: &Vec<char>, s: String) -> (r: FieldValue)
    requires
        cv@ == s@,
    ensures
        r@ == coerce_spec(s@),
{
    match parse_i64_chars(cv) {
        Some(i) => FieldValue::Int(i),
        None => {
            if float_literal_check(cv) {
                FieldValue::Float(s)
            } else if true_literal_check(cv) {
                FieldValue::Bool(true)
            } else if false_literal_check(cv) {
                FieldValue::Bool(false)
            } else {
                FieldValue::Str(s)
            }
        },
    }
}

/// Extract and coerce every `key=value` token of a content string.
pub fn extract_pairs(content: &Vec<char>) -> (r: FieldMap)
    ensures
        r.wf(),
        r@ == kv_pairs_of(content@),
{
    let words = split_tokens(content);
    let ghost ws = words.deep_view();
    let mut fm = FieldMap::new();
    let mut i: usize = 0;
    while i < words.len()
        invariant
            0 <= i <= words@.len(),
            ws == words.deep_view(),
            ws.len() == words@.len(),
            fm.wf(),
            kv_pairs_of(content@) == kv_fold(ws, i as int, fm@),
        decreases words@.len() - i,
    {
        proof {
            assert(ws[i as int] == words@[i as int]@);
        }
        let wv = chars_of(words[i].as_str());
        let e = scan_run(&wv, 0, CharClass::NotEquals);
        if e < wv.len() {
            let key = string_range(&wv, 0, e);
            let value = string_range(&wv, e + 1, wv.len());
            let value_cv = subvec(&wv, e + 1, wv.len());
            let nested_end = scan_run(&value_cv, 0, CharClass::NotNested);
            if nested_end < value_cv.len() {
                let mut ck = String::new();
                ck.append("complex_");
                ck.append(key.as_str());
                proof {
                    assert(ck@ =~= complex_prefix() + key@);
                }
                fm.insert(ck, FieldValue::Str(value));
            } else {
                let v = coerce_value(&value_cv, value);
                fm.insert(key, v);
            }
        }
        i = i + 1;
    }
    fm
}

} // verus!
