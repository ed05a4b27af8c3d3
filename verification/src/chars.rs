//! Character classes of the line grammar, and verified scanning of maximal
//! runs of a class inside a line held as a vector of characters.

use vstd::prelude::*;

verus! {

/// Blank characters of the line grammar: the Unicode `White_Space` set,
/// the same characters that `str::split_whitespace` splits on.
pub open spec fn is_blank_char(c: char) -> bool {
    ||| '\u{9}' <= c && c <= '\u{d}'
    ||| c == ' '
    ||| c == '\u{85}'
    ||| c == '\u{a0}'
    ||| c == '\u{1680}'
    ||| '\u{2000}' <= c && c <= '\u{200a}'
    ||| c == '\u{2028}'
    ||| c == '\u{2029}'
    ||| c == '\u{202f}'
    ||| c == '\u{205f}'
    ||| c == '\u{3000}'
}

/// Exec test for a blank character.
pub fn blank_char(c: char) -> (r: bool)
    ensures
        r == is_blank_char(c),
{
    ('\u{9}' <= c && c <= '\u{d}') || c == ' ' || c == '\u{85}' || c == '\u{a0}' || c == '\u{1680}'
        || ('\u{2000}' <= c && c <= '\u{200a}') || c == '\u{2028}' || c == '\u{2029}' || c
        == '\u{202f}' || c == '\u{205f}' || c == '\u{3000}'
}

/// Decimal digits.
pub open spec fn is_digit_char(c: char) -> bool {
    '0' <= c && c <= '9'
}

/// The character classes out of which the line layouts are built.  Each
/// structural element of a layout is a maximal run of one class.
#[derive(Clone, Copy, PartialEq, Eq, Structural, Debug)]
pub enum CharClass {
    /// Whitespace.
    Blank,
    /// Anything but whitespace.
    NonBlank,
    /// A decimal digit.
    Digit,
    /// Anything but `[`.
    NotOpenBracket,
    /// Anything but `]`.
    NotCloseBracket,
    /// Anything but `|`.
    NotPipe,
    /// Anything but `=`.
    NotEquals,
    /// Anything but `{` and `[`: values holding either are treated as nested
    /// structures and left unparsed.
    NotNested,
}

pub open spec fn in_class(cl: CharClass, c: char) -> bool {
    match cl {
        CharClass::Blank => is_blank_char(c),
        CharClass::NonBlank => !is_blank_char(c),
        CharClass::Digit => is_digit_char(c),
        CharClass::NotOpenBracket => c != '[',
        CharClass::NotCloseBracket => c != ']',
        CharClass::NotPipe => c != '|',
        CharClass::NotEquals => c != '=',
        CharClass::NotNested => c != '{' && c != '[',
    }
}

/// Index of the first character at or after `i` that leaves the class (the
/// length of the sequence when no character does): the end of the maximal run
/// of `cl` starting at `i`.
pub open spec fn run_end(s: Seq<char>, i: int, cl: CharClass) -> int
    decreases s.len() - i,
{
    if 0 <= i < s.len() && in_class(cl, s[i]) {
        run_end(s, i + 1, cl)
    } else {
        i
    }
}

pub proof fn lemma_run_end(s: Seq<char>, i: int, cl: CharClass)
    requires
        0 <= i <= s.len(),
    ensures
        i <= run_end(s, i, cl) <= s.len(),
        forall|k: int| i <= k < run_end(s, i, cl) ==> in_class(cl, s[k]),
        run_end(s, i, cl) < s.len() ==> !in_class(cl, s[run_end(s, i, cl)]),
    decreases s.len() - i,
{
    if i < s.len() && in_class(cl, s[i]) {
        lemma_run_end(s, i + 1, cl);
    }
}

/// The end of a run is determined by its characteristic properties.
pub proof fn lemma_run_end_unique(s: Seq<char>, i: int, j: int, cl: CharClass)
    requires
        0 <= i <= j <= s.len(),
        forall|k: int| i <= k < j ==> in_class(cl, s[k]),
        j == s.len() || !in_class(cl, s[j]),
    ensures
        run_end(s, i, cl) == j,
    decreases j - i,
{
    if i < j {
        lemma_run_end_unique(s, i + 1, j, cl);
    }
}

/// Index one past the last non-blank character of `s[..j]` (0 when there is
/// none).
pub open spec fn back_end(s: Seq<char>, j: int) -> int
    decreases j,
{
    if j <= 0 {
        0
    } else if is_blank_char(s[j - 1]) {
        back_end(s, j - 1)
    } else {
        j
    }
}

pub proof fn lemma_back_end(s: Seq<char>, j: int, a: int)
    requires
        0 <= a < j,
        !is_blank_char(s[a]),
    ensures
        a + 1 <= back_end(s, j) <= j,
    decreases j,
{
    if is_blank_char(s[j - 1]) {
        lemma_back_end(s, j - 1, a);
    }
}

/// `s` without leading and trailing blanks.
pub open spec fn trim_spec(s: Seq<char>) -> Seq<char> {
    let a = run_end(s, 0, CharClass::Blank);
    if a >= s.len() {
        Seq::empty()
    } else {
        s.subrange(a, back_end(s, s.len() as int))
    }
}

/// Exec test of class membership.
pub fn class_member(cl: CharClass, c: char) -> (r: bool)
    ensures
        r == in_class(cl, c),
{
    match cl {
        CharClass::Blank => blank_char(c),
        CharClass::NonBlank => !blank_char(c),
        CharClass::Digit => '0' <= c && c <= '9',
        CharClass::NotOpenBracket => c != '[',
        CharClass::NotCloseBracket => c != ']',
        CharClass::NotPipe => c != '|',
        CharClass::NotEquals => c != '=',
        CharClass::NotNested => c != '{' && c != '[',
    }
}

/// Scan the maximal run of `cl` starting at `i`.
pub fn scan_run(v: &Vec<char>, i: usize, cl: CharClass) -> (j: usize)
    requires
        i <= v@.len(),
    ensures
        i <= j <= v@.len(),
        j == run_end(v@, i as int, cl),
{
    let mut j = i;
    while j < v.len() && class_member(cl, v[j])
        invariant
            i <= j <= v@.len(),
            forall|k: int| i <= k < j ==> in_class(cl, v@[k]),
        decreases v@.len() - j,
    {
        j = j + 1;
    }
    proof {
        lemma_run_end_unique(v@, i as int, j as int, cl);
    }
    j
}

} // verus!
