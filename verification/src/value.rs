//! Typed dynamic field values, and a mapping from names to values held as
//! an association list with pairwise-distinct keys.  The map is generic in
//! its value type: the parser binds field names to `FieldValue`s, the
//! record filter binds them to plain JSON values.

use vstd::prelude::*;

verus! {

/// The mathematical model of a dynamic field value.
pub enum SpecValue {
    Null,
    Bool(bool),
    Int(i64),
    Float(Seq<char>),
    Str(Seq<char>),
}

/// A typed dynamic field value.
///
/// A `Float` keeps the literal text of the value; the library never computes
/// with floating-point numbers, it only recognizes their syntax.  Callers
/// that serialize records turn the text into a number at the output edge.
#[derive(Debug, Clone, PartialEq)]
pub enum FieldValue {
    Null,
    Bool(bool),
    Int(i64),
    Float(String),
    Str(String),
}

impl View for FieldValue {
    type V = SpecValue;

    open spec fn view(&self) -> SpecValue {
        match self {
            FieldValue::Null => SpecValue::Null,
            FieldValue::Bool(b) => SpecValue::Bool(*b),
            FieldValue::Int(i) => SpecValue::Int(*i),
            FieldValue::Float(s) => SpecValue::Float(s@),
            FieldValue::Str(s) => SpecValue::Str(s@),
        }
    }
}

/// The mapping that a sequence of (name, value) entries denotes; later
/// entries win over earlier ones.
pub open spec fn entries_map<V: View>(es: Seq<(String, V)>) -> Map<Seq<char>, V::V>
    decreases es.len(),
{
    if es.len() == 0 {
        Map::empty()
    } else {
        entries_map(es.drop_last()).insert(es.last().0@, es.last().1@)
    }
}

/// Pairwise-distinct keys.
pub open spec fn entries_distinct<V: View>(es: Seq<(String, V)>) -> bool {
    forall|i: int, j: int| 0 <= i < j < es.len() ==> es[i].0@ != es[j].0@
}

pub proof fn lemma_entries_dom<V: View>(es: Seq<(String, V)>)
    ensures
        entries_map(es).dom().finite(),
        forall|k: Seq<char>|
            entries_map(es).dom().contains(k) <==> (exists|i: int|
                0 <= i < es.len() && es[i].0@ == k),
    decreases es.len(),
{
    if es.len() == 0 {
    } else {
        let prefix = es.drop_last();
        lemma_entries_dom(prefix);
        assert forall|k: Seq<char>| entries_map(es).dom().contains(k) implies (exists|i: int|
            0 <= i < es.len() && es[i].0@ == k) by {
            if k == es.last().0@ {
                assert(es[es.len() - 1].0@ == k);
            } else {
                let i = choose|i: int| 0 <= i < prefix.len() && prefix[i].0@ == k;
                assert(es[i].0@ == k);
            }
        }
        assert forall|k: Seq<char>|
            (exists|i: int| 0 <= i < es.len() && es[i].0@ == k) implies entries_map(
            es,
        ).dom().contains(k) by {
            let i = choose|i: int| 0 <= i < es.len() && es[i].0@ == k;
            if i < es.len() - 1 {
                assert(prefix[i].0@ == k);
            }
        }
    }
}

pub proof fn lemma_entries_len<V: View>(es: Seq<(String, V)>)
    requires
        entries_distinct(es),
    ensures
        entries_map(es).dom().finite(),
        entries_map(es).dom().len() == es.len(),
    decreases es.len(),
{
    if es.len() > 0 {
        let prefix = es.drop_last();
        assert(entries_distinct(prefix)) by {
            assert(forall|i: int, j: int|
                0 <= i < j < prefix.len() ==> es[i].0@ != es[j].0@);
        }
        lemma_entries_len(prefix);
        lemma_entries_dom(prefix);
        assert(!entries_map(prefix).dom().contains(es.last().0@)) by {
            if entries_map(prefix).dom().contains(es.last().0@) {
                let i = choose|i: int|
                    0 <= i < prefix.len() && prefix[i].0@ == es.last().0@;
                assert(es[i].0@ == es[es.len() - 1].0@);
            }
        }
        vstd::set::axiom_set_insert_len(entries_map(prefix).dom(), es.last().0@);
    }
}

pub proof fn lemma_entries_get<V: View>(es: Seq<(String, V)>, i: int)
    requires
        entries_distinct(es),
        0 <= i < es.len(),
    ensures
        entries_map(es).dom().contains(es[i].0@),
        entries_map(es)[es[i].0@] == es[i].1@,
    decreases es.len(),
{
    if i < es.len() - 1 {
        let prefix = es.drop_last();
        assert(entries_distinct(prefix));
        lemma_entries_get(prefix, i);
        assert(es[i].0@ != es[es.len() - 1].0@);
    }
}

proof fn lemma_entries_update<V: View>(es: Seq<(String, V)>, i: int, p: (String, V))
    requires
        entries_distinct(es),
        0 <= i < es.len(),
        es[i].0@ == p.0@,
    ensures
        entries_map(es.update(i, p)) =~= entries_map(es).insert(p.0@, p.1@),
    decreases es.len(),
{
    let last = es.last();
    if i == es.len() - 1 {
        assert(es.update(i, p).drop_last() =~= es.drop_last());
        assert(es.update(i, p).last() == p);
    } else {
        let prefix = es.drop_last();
        assert(entries_distinct(prefix));
        assert(prefix[i].0@ == p.0@);
        lemma_entries_update(prefix, i, p);
        assert(es.update(i, p).drop_last() =~= prefix.update(i, p));
        assert(es.update(i, p).last() == last);
        assert(es[i].0@ != last.0@);
    }
}

/// A mapping from names to values, in insertion order.
#[derive(Debug, Clone)]
pub struct NamedMap<V> {
    entries: Vec<(String, V)>,
}

/// The per-record mapping from dynamic field names to typed values.
pub type FieldMap = NamedMap<FieldValue>;

impl<V: View> View for NamedMap<V> {
    type V = Map<Seq<char>, V::V>;

    closed spec fn view(&self) -> Map<Seq<char>, V::V> {
        entries_map(self.entries@)
    }
}

impl<V: View> NamedMap<V> {
    /// Keys are pairwise distinct: the list is a mapping.
    pub closed spec fn wf(&self) -> bool {
        entries_distinct(self.entries@)
    }

    pub fn new() -> (r: NamedMap<V>)
        ensures
            r@ =~= Map::<Seq<char>, V::V>::empty(),
            r.wf(),
    {
        NamedMap { entries: Vec::new() }
    }

    /// Whether `k` is a key of the mapping.
    pub fn contains_key(&self, k: &str) -> (r: bool)
        ensures
            r == self@.dom().contains(k@),
    {
        proof {
            lemma_entries_dom(self.entries@);
        }
        let ks: String = k.to_owned();
        let mut i: usize = 0;
        while i < self.entries.len()
            invariant
                0 <= i <= self.entries@.len(),
                ks@ == k@,
                forall|j: int| 0 <= j < i ==> self.entries@[j].0@ != k@,
            decreases self.entries@.len() - i,
        {
            if self.entries[i].0 == ks {
                proof {
                    lemma_entries_dom(self.entries@);
                }
                return true;
            }
            i = i + 1;
        }
        proof {
            lemma_entries_dom(self.entries@);
        }
        false
    }

    /// The value under `k`, when present.
    pub fn get(&self, k: &str) -> (r: Option<&V>)
        requires
            self.wf(),
        ensures
            match r {
                Some(v) => self@.dom().contains(k@) && v@ == self@[k@],
                None => !self@.dom().contains(k@),
            },
    {
        let ks: String = k.to_owned();
        let mut i: usize = 0;
        while i < self.entries.len()
            invariant
                self.wf(),
                0 <= i <= self.entries@.len(),
                ks@ == k@,
                forall|j: int| 0 <= j < i ==> self.entries@[j].0@ != k@,
            decreases self.entries@.len() - i,
        {
            if self.entries[i].0 == ks {
                proof {
                    lemma_entries_get(self.entries@, i as int);
                }
                return Some(&self.entries[i].1);
            }
            i = i + 1;
        }
        proof {
            lemma_entries_dom(self.entries@);
        }
        None
    }

    /// Bind `k` to `v`; an existing binding of `k` is replaced.
    pub fn insert(&mut self, k: String, v: V)
        requires
            old(self).wf(),
        ensures
            final(self).wf(),
            final(self)@ =~= old(self)@.insert(k@, v@),
    {
        let mut i: usize = 0;
        while i < self.entries.len()
            invariant
                self == old(self),
                self.wf(),
                0 <= i <= self.entries@.len(),
                forall|j: int| 0 <= j < i ==> self.entries@[j].0@ != k@,
            decreases self.entries@.len() - i,
        {
            if self.entries[i].0 == k {
                proof {
                    lemma_entries_update(self.entries@, i as int, (k, v));
                }
                self.entries.set(i, (k, v));
                return ;
            }
            i = i + 1;
        }
        let ghost old_es = self.entries@;
        self.entries.push((k, v));
        proof {
            assert(self.entries@.drop_last() =~= old_es);
        }
    }

    /// The number of fields.
    pub fn len(&self) -> (r: usize)
        requires
            self.wf(),
        ensures
            r == self@.dom().len(),
    {
        proof {
            lemma_entries_len(self.entries@);
        }
        self.entries.len()
    }

    /// The field names, in insertion order.
    pub fn keys(&self) -> (r: Vec<String>)
        requires
            self.wf(),
        ensures
            forall|k: Seq<char>| self@.dom().contains(k) <==> r.deep_view().contains(k),
    {
        let mut r: Vec<String> = Vec::new();
        let mut i: usize = 0;
        while i < self.entries.len()
            invariant
                0 <= i <= self.entries@.len(),
                r.deep_view().len() == i,
                forall|j: int| 0 <= j < i ==> r.deep_view()[j] == self.entries@[j].0@,
            decreases self.entries@.len() - i,
        {
            let ghost old_deep = r.deep_view();
            r.push(self.entries[i].0.clone());
            proof {
                assert(r.deep_view() =~= old_deep.push(self.entries@[i as int].0@));
            }
            i = i + 1;
        }
        proof {
            lemma_entries_dom(self.entries@);
            assert forall|k: Seq<char>| self@.dom().contains(k) implies r.deep_view().contains(
                k,
            ) by {
                let j = choose|j: int|
                    0 <= j < self.entries@.len() && self.entries@[j].0@ == k;
                assert(r.deep_view()[j] == k);
            }
            assert forall|k: Seq<char>| r.deep_view().contains(k) implies self@.dom().contains(
                k,
            ) by {
                let j = choose|j: int| 0 <= j < r.deep_view().len() && r.deep_view()[j] == k;
                assert(self.entries@[j].0@ == k);
            }
        }
        r
    }
}

} // verus!
