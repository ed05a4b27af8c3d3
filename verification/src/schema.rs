//! Schema discovery and unification: the universe of dynamic field names is
//! gathered from a bounded prefix of the input, and every record is then
//! padded with explicit nulls so that all records of a run expose one and
//! the same key set.

use crate::chars::{run_end, scan_run, CharClass};
use crate::kv::value_has_nested;
use crate::strings::{chars_of, string_range, subvec};
use crate::tokens::{split_tokens, split_ws};
use crate::value::{FieldMap, FieldValue, SpecValue};
use vstd::prelude::*;

verus! {

/// How many leading lines the discovery pass samples.
pub const SCHEMA_SAMPLE_LINES: usize = 1000;

/// The set that a sequence of names denotes.
pub open spec fn names_set(ns: Seq<Seq<char>>) -> Set<Seq<char>>
    decreases ns.len(),
{
    if ns.len() == 0 {
        Set::empty()
    } else {
        names_set(ns.drop_last()).insert(ns.last())
    }
}

pub proof fn lemma_names_set(ns: Seq<Seq<char>>)
    ensures
        names_set(ns).finite(),
        forall|k: Seq<char>|
            names_set(ns).contains(k) <==> (exists|i: int| 0 <= i < ns.len() && ns[i] == k),
    decreases ns.len(),
{
    if ns.len() > 0 {
        let prefix = ns.drop_last();
        lemma_names_set(prefix);
        assert forall|k: Seq<char>| names_set(ns).contains(k) implies (exists|i: int|
            0 <= i < ns.len() && ns[i] == k) by {
            if k == ns.last() {
                assert(ns[ns.len() - 1] == k);
            } else {
                let i = choose|i: int| 0 <= i < prefix.len() && prefix[i] == k;
                assert(ns[i] == k);
            }
        }
        assert forall|k: Seq<char>|
            (exists|i: int| 0 <= i < ns.len() && ns[i] == k) implies names_set(ns).contains(
            k,
        ) by {
            let i = choose|i: int| 0 <= i < ns.len() && ns[i] == k;
            if i < ns.len() - 1 {
                assert(prefix[i] == k);
            }
        }
    }
}

/// The universe of dynamic field names expected across one run, held as a
/// list of pairwise-distinct names.
pub struct FieldSet {
    names: Vec<String>,
}

impl View for FieldSet {
    type V = Set<Seq<char>>;

    closed spec fn view(&self) -> Set<Seq<char>> {
        names_set(self.names.deep_view())
    }
}

impl FieldSet {
    /// The names in insertion order.
    pub closed spec fn key_seq(&self) -> Seq<Seq<char>> {
        self.names.deep_view()
    }

    /// Names are pairwise distinct.
    pub open spec fn wf(&self) -> bool {
        forall|i: int, j: int|
            0 <= i < j < self.key_seq().len() ==> self.key_seq()[i] != self.key_seq()[j]
    }

    /// The view is the set of the listed names.
    pub proof fn lemma_view(&self)
        ensures
            self@.finite(),
            forall|k: Seq<char>|
                self@.contains(k) <==> (exists|i: int|
                    0 <= i < self.key_seq().len() && self.key_seq()[i] == k),
    {
        lemma_names_set(self.key_seq());
    }

    pub fn new() -> (r: FieldSet)
        ensures
            r@ =~= Set::<Seq<char>>::empty(),
            r.wf(),
            r.key_seq() == Seq::<Seq<char>>::empty(),
    {
        let r = FieldSet { names: Vec::new() };
        proof {
            assert(r.key_seq() =~= Seq::<Seq<char>>::empty());
        }
        r
    }

    /// Whether `k` is in the universe.
    pub fn contains(&self, k: &str) -> (r: bool)
        ensures
            r == self@.contains(k@),
    {
        proof {
            self.lemma_view();
        }
        let ks: String = k.to_owned();
        let mut i: usize = 0;
        while i < self.names.len()
            invariant
                0 <= i <= self.names@.len(),
                self.names@.len() == self.key_seq().len(),
                ks@ == k@,
                forall|j: int| 0 <= j < i ==> self.key_seq()[j] != k@,
            decreases self.names@.len() - i,
        {
            if self.names[i] == ks {
                proof {
                    self.lemma_view();
                    assert(self.key_seq()[i as int] == k@);
                }
                return true;
            }
            i = i + 1;
        }
        proof {
            self.lemma_view();
        }
        false
    }

    /// Add `k` to the universe; adding a known name changes nothing.
    pub fn insert(&mut self, k: String)
        requires
            old(self).wf(),
        ensures
            final(self).wf(),
            final(self)@ =~= old(self)@.insert(k@),
            final(self).key_seq() == old(self).key_seq() || final(self).key_seq() == old(
                self,
            ).key_seq().push(k@),
    {
        if self.contains(k.as_str()) {
            proof {
                self.lemma_view();
                assert(self@.insert(k@) =~= self@);
            }
            return ;
        }
        let ghost old_keys = self.key_seq();
        self.names.push(k);
        proof {
            assert(self.key_seq() =~= old_keys.push(k@));
            assert(self.key_seq().drop_last() =~= old_keys);
            self.lemma_view();
            lemma_names_set(old_keys);
        }
    }

    /// How many names the universe holds.
    pub fn count(&self) -> (r: usize)
        ensures
            r == self.key_seq().len(),
    {
        self.names.len()
    }

    /// The `i`-th name.
    pub fn name_at(&self, i: usize) -> (r: &String)
        requires
            i < self.key_seq().len(),
        ensures
            r@ == self.key_seq()[i as int],
    {
        proof {
            assert(self.names.deep_view()[i as int] == self.names@[i as int]@);
        }
        &self.names[i]
    }

    /// Add every name of `other`.
    pub fn extend_from(&mut self, other: &FieldSet)
        requires
            old(self).wf(),
        ensures
            final(self).wf(),
            final(self)@ =~= old(self)@.union(other@),
    {
        let n = other.count();
        let mut j: usize = 0;
        while j < n
            invariant
                self.wf(),
                n == other.key_seq().len(),
                0 <= j <= n,
                self@ =~= old(self)@.union(names_set(other.key_seq().take(j as int))),
            decreases n - j,
        {
            let ghost pre = self@;
            let name = other.name_at(j);
            self.insert(name.clone());
            proof {
                assert(other.key_seq().take(j + 1).drop_last() =~= other.key_seq().take(
                    j as int,
                ));
                assert(other.key_seq().take(j + 1).last() == other.key_seq()[j as int]);
                assert(names_set(other.key_seq().take(j + 1)) =~= names_set(
                    other.key_seq().take(j as int),
                ).insert(other.key_seq()[j as int]));
                assert(pre.insert(other.key_seq()[j as int]) =~= old(self)@.union(
                    names_set(other.key_seq().take(j + 1)),
                ));
            }
            j = j + 1;
        }
        proof {
            assert(other.key_seq().take(n as int) =~= other.key_seq());
        }
    }
}

/// How one whitespace token of a sampled line updates the universe: the key
/// of a candidate pair is added unless its value holds nested syntax.
pub open spec fn name_word_update(acc: Set<Seq<char>>, w: Seq<char>) -> Set<Seq<char>> {
    let e = run_end(w, 0, CharClass::NotEquals);
    if e == w.len() {
        acc
    } else {
        let value = w.subrange(e + 1, w.len() as int);
        if value_has_nested(value) {
            acc
        } else {
            acc.insert(w.subrange(0, e))
        }
    }
}

/// The universe after the words `words[i..]` have been applied to `acc`.
pub open spec fn name_fold(words: Seq<Seq<char>>, i: int, acc: Set<Seq<char>>) -> Set<Seq<char>>
    decreases words.len() - i,
{
    if i < 0 || i >= words.len() {
        acc
    } else {
        name_fold(words, i + 1, name_word_update(acc, words[i]))
    }
}

/// The dynamic field names that one line contributes to the universe: the
/// keys of the candidate pairs after the first pipe.  A line without a pipe
/// contributes nothing.
pub open spec fn line_field_names(line: Seq<char>) -> Set<Seq<char>> {
    let p = run_end(line, 0, CharClass::NotPipe);
    if p >= line.len() {
        Set::empty()
    } else {
        name_fold(split_ws(line.subrange(p + 1, line.len() as int)), 0, Set::empty())
    }
}

/// The union of the names of the first `n` lines.
pub open spec fn spec_universe_prefix(lines: Seq<Seq<char>>, n: int) -> Set<Seq<char>>
    decreases n,
{
    if n <= 0 {
        Set::empty()
    } else {
        spec_universe_prefix(lines, n - 1).union(line_field_names(lines[n - 1]))
    }
}

/// How many lines the discovery pass reads.
pub open spec fn sample_len(lines: Seq<Seq<char>>) -> int {
    if lines.len() < SCHEMA_SAMPLE_LINES as int {
        lines.len() as int
    } else {
        SCHEMA_SAMPLE_LINES as int
    }
}

/// The field universe of one run: the names of the sampled prefix.
pub open spec fn spec_universe(lines: Seq<Seq<char>>) -> Set<Seq<char>> {
    spec_universe_prefix(lines, sample_len(lines))
}

/// The names that one line contributes, as a `FieldSet`.
pub fn extract_field_names_impl(line: &str) -> (fs: FieldSet)
    ensures
        fs.wf(),
        fs@ =~= line_field_names(line@),
{
    let v = chars_of(line);
    let p = scan_run(&v, 0, CharClass::NotPipe);
    let mut fs = FieldSet::new();
    if p == v.len() {
        return fs;
    }
    let content = subvec(&v, p + 1, v.len());
    let words = split_tokens(&content);
    let ghost ws = words.deep_view();
    let mut i: usize = 0;
    while i < words.len()
        invariant
            0 <= i <= words@.len(),
            ws == words.deep_view(),
            ws.len() == words@.len(),
            fs.wf(),
            line_field_names(line@) == name_fold(ws, i as int, fs@),
        decreases words@.len() - i,
    {
        proof {
            assert(ws[i as int] == words@[i as int]@);
        }
        let wv = chars_of(words[i].as_str());
        let e = scan_run(&wv, 0, CharClass::NotEquals);
        if e < wv.len() {
            let value_cv = subvec(&wv, e + 1, wv.len());
            let nested_end = scan_run(&value_cv, 0, CharClass::NotNested);
            if nested_end == value_cv.len() {
                let key = string_range(&wv, 0, e);
                fs.insert(key);
            }
        }
        i = i + 1;
    }
    fs
}

/// Scan at most the first `SCHEMA_SAMPLE_LINES` lines and gather the
/// universe of dynamic field names.
pub fn discover_schema_impl(lines: &Vec<String>) -> (fs: FieldSet)
    ensures
        fs.wf(),
        fs@ =~= spec_universe(lines.deep_view()),
{
    let n = if lines.len() < SCHEMA_SAMPLE_LINES {
        lines.len()
    } else {
        SCHEMA_SAMPLE_LINES
    };
    let mut fs = FieldSet::new();
    let mut i: usize = 0;
    while i < n
        invariant
            0 <= i <= n <= lines@.len(),
            n as int == sample_len(lines.deep_view()),
            lines.deep_view().len() == lines@.len(),
            fs.wf(),
            fs@ =~= spec_universe_prefix(lines.deep_view(), i as int),
        decreases n - i,
    {
        proof {
            assert(lines.deep_view()[i as int] == lines@[i as int]@);
        }
        let line_fs = extract_field_names_impl(lines[i].as_str());
        fs.extend_from(&line_fs);
        i = i + 1;
    }
    fs
}

/// The unified field mapping: every universe name missing from `m` is bound
/// to an explicit null; present bindings are kept untouched.
pub open spec fn unify_fields(m: Map<Seq<char>, SpecValue>, u: Set<Seq<char>>) -> Map<
    Seq<char>,
    SpecValue,
> {
    Map::new(
        |k: Seq<char>| m.dom().contains(k) || u.contains(k),
        |k: Seq<char>|
            if m.dom().contains(k) {
                m[k]
            } else {
                SpecValue::Null
            },
    )
}

/// Pad `fm` with nulls for the universe names it lacks.
pub fn unify_map(fm: &mut FieldMap, fs: &FieldSet)
    requires
        old(fm).wf(),
    ensures
        final(fm).wf(),
        final(fm)@ =~= unify_fields(old(fm)@, fs@),
{
    let n = fs.count();
    let mut j: usize = 0;
    while j < n
        invariant
            fm.wf(),
            n == fs.key_seq().len(),
            0 <= j <= n,
            fm@ =~= unify_fields(old(fm)@, names_set(fs.key_seq().take(j as int))),
        decreases n - j,
    {
        let ghost pre = fm@;
        let name = fs.name_at(j);
        proof {
            assert(fs.key_seq().take(j + 1).drop_last() =~= fs.key_seq().take(j as int));
            assert(fs.key_seq().take(j + 1).last() == fs.key_seq()[j as int]);
        }
        if !fm.contains_key(name.as_str()) {
            fm.insert(name.clone(), FieldValue::Null);
            proof {
                assert(fm@ =~= unify_fields(old(fm)@, names_set(fs.key_seq().take(j + 1))));
            }
        } else {
            proof {
                assert(pre =~= unify_fields(old(fm)@, names_set(fs.key_seq().take(j + 1))));
            }
        }
        j = j + 1;
    }
    proof {
        assert(fs.key_seq().take(n as int) =~= fs.key_seq());
        fs.lemma_view();
        lemma_names_set(fs.key_seq());
    }
}

} // verus!
