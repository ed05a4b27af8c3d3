//! Moving between `String` / `&str` and lines held as vectors of characters.

use vstd::prelude::*;
use vstd::std_specs::iter::IteratorSpec;

verus! {

/// Relies on `String::push` from std: appends the given character to the end
/// of the string.
#[verifier::external_body]
pub(crate) fn push_char(s: &mut String, c: char)
    ensures
        final(s)@ == old(s)@.push(c),
{
    s.push(c);
}

/// The characters of a string slice, as a vector.
pub fn chars_of(s: &str) -> (r: Vec<char>)
    ensures
        r@ == s@,
{
    broadcast use vstd::string::axiom_spec_iter, vstd::string::next_postcondition;

    let mut it = s.chars();
    let mut r: Vec<char> = Vec::new();
    loop
        invariant
            it.obeys_prophetic_iter_laws(),
            it.decrease() is Some,
            r@ + it.remaining() == s@,
        ensures
            r@ == s@,
        decreases it.decrease()->0,
    {
        match it.next() {
            Some(c) => {
                r.push(c);
                proof {
                    assert(r@ + it.remaining() =~= s@);
                }
            },
            None => {
                proof {
                    assert(r@ =~= s@);
                }
                break ;
            },
        }
    }
    r
}

/// The characters `v[a..b]` as a fresh vector.
pub fn subvec(v: &Vec<char>, a: usize, b: usize) -> (r: Vec<char>)
    requires
        a <= b <= v@.len(),
    ensures
        r@ == v@.subrange(a as int, b as int),
{
    let mut r: Vec<char> = Vec::new();
    let mut i = a;
    while i < b
        invariant
            a <= i <= b <= v@.len(),
            r@ == v@.subrange(a as int, i as int),
        decreases b - i,
    {
        r.push(v[i]);
        proof {
            assert(v@.subrange(a as int, i as int).push(v@[i as int]) =~= v@.subrange(
                a as int,
                i + 1,
            ));
        }
        i = i + 1;
    }
    r
}

/// The substring `v[a..b]` as a fresh `String`.
pub fn string_range(v: &Vec<char>, a: usize, b: usize) -> (r: String)
    requires
        a <= b <= v@.len(),
    ensures
        r@ == v@.subrange(a as int, b as int),
{
    let mut r = String::new();
    let mut i = a;
    while i < b
        invariant
            a <= i <= b <= v@.len(),
            r@ == v@.subrange(a as int, i as int),
        decreases b - i,
    {
        push_char(&mut r, v[i]);
        proof {
            assert(v@.subrange(a as int, i as int).push(v@[i as int]) =~= v@.subrange(
                a as int,
                i + 1,
            ));
        }
        i = i + 1;
    }
    r
}

/// The characters of `v`, without leading and trailing blanks, as a
/// `String`.
pub fn trim_vec(v: &Vec<char>) -> (r: String)
    ensures
        r@ == crate::chars::trim_spec(v@),
{
    let st = crate::chars::scan_run(v, 0, crate::chars::CharClass::Blank);
    if st == v.len() {
        return String::new();
    }
    proof {
        crate::chars::lemma_run_end(v@, 0, crate::chars::CharClass::Blank);
    }
    let mut j = v.len();
    while j > st && crate::chars::class_member(crate::chars::CharClass::Blank, v[j - 1])
        invariant
            st < j <= v@.len(),
            !crate::chars::is_blank_char(v@[st as int]),
            crate::chars::back_end(v@, v@.len() as int) == crate::chars::back_end(v@, j as int),
        decreases j,
    {
        proof {
            crate::chars::lemma_back_end(v@, j - 1, st as int);
        }
        j = j - 1;
    }
    string_range(v, st, j)
}

} // verus!
