//! Whitespace-delimited tokens of a line: the model of splitting a string on
//! whitespace, a verified splitter, and joining tokens back with single
//! spaces.

use crate::chars::{lemma_run_end, run_end, CharClass};
use crate::strings::{push_char, string_range};
use vstd::prelude::*;

verus! {

/// The whitespace-delimited tokens of `s`, scanning from position `i` on.
pub open spec fn tokens_from(s: Seq<char>, i: int) -> Seq<Seq<char>>
    decreases s.len() - i,
        when 0 <= i
        via tokens_from_dec
{
    if i >= s.len() {
        Seq::empty()
    } else {
        let start = run_end(s, i, CharClass::Blank);
        if start >= s.len() {
            Seq::empty()
        } else {
            let end = run_end(s, start, CharClass::NonBlank);
            seq![s.subrange(start, end)] + tokens_from(s, end)
        }
    }
}

#[via_fn]
proof fn tokens_from_dec(s: Seq<char>, i: int) {
    if 0 <= i < s.len() {
        lemma_run_end(s, i, CharClass::Blank);
        let start = run_end(s, i, CharClass::Blank);
        if start < s.len() {
            lemma_run_end(s, start, CharClass::NonBlank);
        }
    }
}

/// The whitespace-delimited tokens of a whole line.
pub open spec fn split_ws(s: Seq<char>) -> Seq<Seq<char>> {
    tokens_from(s, 0)
}

/// Verified splitter: the tokens of `line`, in order, as fresh strings.
pub fn split_tokens(line: &Vec<char>) -> (r: Vec<String>)
    ensures
        r.deep_view() == split_ws(line@),
{
    let mut r: Vec<String> = Vec::new();
    let mut i: usize = 0;
    loop
        invariant
            i <= line@.len(),
            split_ws(line@) == r.deep_view() + tokens_from(line@, i as int),
        ensures
            r.deep_view() == split_ws(line@),
        decreases line@.len() - i,
    {
        let start = crate::chars::scan_run(line, i, CharClass::Blank);
        if start == line.len() {
            proof {
                assert(r.deep_view() + tokens_from(line@, i as int) =~= r.deep_view());
            }
            break ;
        }
        let end = crate::chars::scan_run(line, start, CharClass::NonBlank);
        proof {
            lemma_run_end(line@, i as int, CharClass::Blank);
            lemma_run_end(line@, start as int, CharClass::NonBlank);
            assert(end > start);
        }
        let tok = string_range(line, start, end);
        let ghost old_deep = r.deep_view();
        r.push(tok);
        proof {
            assert(r.deep_view() =~= old_deep + seq![tok@]);
            assert(old_deep + tokens_from(line@, i as int) =~= r.deep_view() + tokens_from(
                line@,
                end as int,
            ));
        }
        i = end;
    }
    r
}

/// Tokens joined back together with a single space between neighbours.
pub open spec fn join_tokens(parts: Seq<Seq<char>>) -> Seq<char>
    decreases parts.len(),
{
    if parts.len() == 0 {
        Seq::empty()
    } else if parts.len() == 1 {
        parts[0]
    } else {
        parts[0] + seq![' '] + join_tokens(parts.drop_first())
    }
}

proof fn lemma_join_push(parts: Seq<Seq<char>>, last: Seq<char>)
    ensures
        join_tokens(parts.push(last)) == if parts.len() == 0 {
            last
        } else {
            join_tokens(parts) + seq![' '] + last
        },
    decreases parts.len(),
{
    if parts.len() == 0 {
        assert(parts.push(last)[0] =~= last);
        assert(parts.push(last).len() == 1);
    } else {
        lemma_join_push(parts.drop_first(), last);
        assert(parts.push(last).drop_first() =~= parts.drop_first().push(last));
        if parts.len() == 1 {
            assert(join_tokens(parts.push(last)) =~= parts[0] + seq![' '] + last);
            assert(join_tokens(parts) + seq![' '] + last =~= parts[0] + seq![' '] + last);
        } else {
            assert(join_tokens(parts.push(last)) =~= parts[0] + seq![' '] + join_tokens(
                parts.drop_first().push(last),
            ));
            assert(join_tokens(parts) + seq![' '] + last =~= parts[0] + seq![' '] + (join_tokens(
                parts.drop_first(),
            ) + seq![' '] + last));
        }
    }
}

/// The tokens `parts[from..]`, joined with single spaces.
pub fn join_from(parts: &Vec<String>, from: usize) -> (r: String)
    requires
        from <= parts@.len(),
    ensures
        r@ == join_tokens(parts.deep_view().subrange(from as int, parts.deep_view().len() as int)),
{
    let mut r = String::new();
    let mut idx = from;
    while idx < parts.len()
        invariant
            from <= idx <= parts@.len(),
            parts.deep_view().len() == parts@.len(),
            r@ == join_tokens(parts.deep_view().subrange(from as int, idx as int)),
        decreases parts@.len() - idx,
    {
        if idx > from {
            push_char(&mut r, ' ');
        }
        let ghost pre = parts.deep_view().subrange(from as int, idx as int);
        r.append(parts[idx].as_str());
        proof {
            lemma_join_push(pre, parts.deep_view()[idx as int]);
            assert(parts.deep_view().subrange(from as int, idx + 1) =~= pre.push(
                parts.deep_view()[idx as int],
            ));
        }
        idx = idx + 1;
    }
    r
}

} // verus!
