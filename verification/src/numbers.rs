//! Numeric and boolean literals: the grammar of decimal integer literals with
//! their mathematical value, the grammar of floating-point literals (whose
//! value the library never computes), and case-insensitive `true`/`false`.

use crate::chars::{is_digit_char, lemma_run_end, run_end, scan_run, CharClass};
use vstd::prelude::*;

verus! {

/// Value of the digits `s[i..]`, folded onto an accumulator.
pub open spec fn dec_val_from(s: Seq<char>, i: int, acc: int) -> int
    decreases s.len() - i,
{
    if i < 0 || i >= s.len() {
        acc
    } else {
        dec_val_from(s, i + 1, acc * 10 + (s[i] as int - 48))
    }
}

/// Where the digits of a signed literal begin: after one optional sign.
pub open spec fn int_body_start(s: Seq<char>) -> int {
    if s.len() > 0 && (s[0] == '+' || s[0] == '-') {
        1
    } else {
        0
    }
}

/// An optional sign followed by one or more decimal digits.
pub open spec fn is_int_literal(s: Seq<char>) -> bool {
    let b = int_body_start(s);
    s.len() > b && run_end(s, b, CharClass::Digit) == s.len()
}

/// The mathematical value of an integer literal.
pub open spec fn int_literal_val(s: Seq<char>) -> int {
    let mag = dec_val_from(s, int_body_start(s), 0);
    if s.len() > 0 && s[0] == '-' {
        -mag
    } else {
        mag
    }
}

/// An integer literal whose value fits in an `i64`.
pub open spec fn is_i64_literal(s: Seq<char>) -> bool {
    is_int_literal(s) && i64::MIN <= int_literal_val(s) <= i64::MAX
}

/// An optional `+` followed by one or more decimal digits, fitting in `u32`.
pub open spec fn is_u32_literal(s: Seq<char>) -> bool {
    let b: int = if s.len() > 0 && s[0] == '+' {
        1
    } else {
        0
    };
    s.len() > b && run_end(s, b, CharClass::Digit) == s.len() && dec_val_from(s, b, 0) <= u32::MAX
}

/// The value of a `u32` literal.
pub open spec fn u32_literal_val(s: Seq<char>) -> int {
    let b: int = if s.len() > 0 && s[0] == '+' {
        1
    } else {
        0
    };
    dec_val_from(s, b, 0)
}

/// Appending further digits can only grow a non-negative accumulated value.
proof fn lemma_dec_val_ge_acc(s: Seq<char>, i: int, acc: int)
    requires
        acc >= 0,
        forall|k: int| i <= k < s.len() ==> is_digit_char(s[k]),
    ensures
        dec_val_from(s, i, acc) >= acc,
    decreases s.len() - i,
{
    if 0 <= i < s.len() {
        assert(is_digit_char(s[i]));
        assert(s[i] as int - 48 >= 0);
        lemma_dec_val_ge_acc(s, i + 1, acc * 10 + (s[i] as int - 48));
    }
}

/// Parse a decimal `i64` literal, as `str::parse::<i64>` accepts it: an
/// optional sign and one or more digits, with the value in range.
pub fn parse_i64_chars(v: &Vec<char>) -> (r: Option<i64>)
    ensures
        r is Some <==> is_i64_literal(v@),
        r is Some ==> r->0 == int_literal_val(v@),
{
    let n = v.len();
    let neg = n > 0 && v[0] == '-';
    let b: usize = if n > 0 && (v[0] == '+' || v[0] == '-') {
        1
    } else {
        0
    };
    let dend = scan_run(v, b, CharClass::Digit);
    if !(n > b && dend == n) {
        return None;
    }
    proof {
        lemma_run_end(v@, b as int, CharClass::Digit);
    }
    let mut i = b;
    let mut acc: u128 = 0;
    while i < n
        invariant
            b <= i <= n == v@.len(),
            acc <= 0x8000_0000_0000_0000,
            forall|k: int| b <= k < n ==> is_digit_char(v@[k]),
            dec_val_from(v@, b as int, 0) == dec_val_from(v@, i as int, acc as int),
        ensures
            i == n ==> acc as int == dec_val_from(v@, b as int, 0),
            i < n ==> dec_val_from(v@, b as int, 0) > 0x8000_0000_0000_0000,
        decreases n - i,
    {
        let d: u32 = (v[i] as u32) - 48;
        let new_acc: u128 = acc * 10 + (d as u128);
        if new_acc > 0x8000_0000_0000_0000 {
            proof {
                lemma_dec_val_ge_acc(v@, i + 1, new_acc as int);
            }
            break ;
        }
        acc = new_acc;
        i = i + 1;
    }
    if i < n {
        // magnitude already above 2^63: out of range for either sign
        return None;
    }
    if neg {
        if acc == 0x8000_0000_0000_0000 {
            Some(i64::MIN)
        } else {
            Some(-(acc as i64))
        }
    } else {
        if acc > 0x7FFF_FFFF_FFFF_FFFF {
            None
        } else {
            Some(acc as i64)
        }
    }
}

/// Parse a decimal `u32` literal, as `str::parse::<u32>` accepts it: an
/// optional `+` and one or more digits, with the value in range.
pub fn parse_u32_chars(v: &Vec<char>) -> (r: Option<u32>)
    ensures
        r is Some <==> is_u32_literal(v@),
        r is Some ==> r->0 == u32_literal_val(v@),
{
    let n = v.len();
    let b: usize = if n > 0 && v[0] == '+' {
        1
    } else {
        0
    };
    let dend = scan_run(v, b, CharClass::Digit);
    if !(n > b && dend == n) {
        return None;
    }
    proof {
        lemma_run_end(v@, b as int, CharClass::Digit);
    }
    let mut i = b;
    let mut acc: u64 = 0;
    while i < n
        invariant
            b <= i <= n == v@.len(),
            acc <= 0xFFFF_FFFF,
            forall|k: int| b <= k < n ==> is_digit_char(v@[k]),
            dec_val_from(v@, b as int, 0) == dec_val_from(v@, i as int, acc as int),
        ensures
            i == n ==> acc as int == dec_val_from(v@, b as int, 0),
            i < n ==> dec_val_from(v@, b as int, 0) > 0xFFFF_FFFF,
        decreases n - i,
    {
        let d: u32 = (v[i] as u32) - 48;
        let new_acc: u64 = acc * 10 + (d as u64);
        if new_acc > 0xFFFF_FFFF {
            proof {
                lemma_dec_val_ge_acc(v@, i + 1, new_acc as int);
            }
            break ;
        }
        acc = new_acc;
        i = i + 1;
    }
    if i < n {
        return None;
    }
    Some(acc as u32)
}

/// The value of the digit run `s[a..b]`.
pub open spec fn digits_val(s: Seq<char>, a: int, b: int) -> int {
    dec_val_from(s.subrange(a, b), 0, 0)
}

/// Parse the digit run `v[a..b]` as a `u32`; `None` when the value is out of
/// range.
pub fn parse_u32_range(v: &Vec<char>, a: usize, b: usize) -> (r: Option<u32>)
    requires
        a < b <= v@.len(),
        forall|k: int| a <= k < b ==> is_digit_char(v@[k]),
    ensures
        r is Some <==> digits_val(v@, a as int, b as int) <= u32::MAX,
        r is Some ==> r->0 == digits_val(v@, a as int, b as int),
{
    let sub = crate::strings::subvec(v, a, b);
    proof {
        lemma_run_end(sub@, 0, CharClass::Digit);
        crate::chars::lemma_run_end_unique(sub@, 0, sub@.len() as int, CharClass::Digit);
        assert(!(sub@[0] == '+'));
    }
    parse_u32_chars(&sub)
}

/// The upper-case twin of an ASCII lower-case letter; any other character is
/// its own twin.
pub open spec fn upper_twin(c: char) -> char {
    match c {
        'a' => 'A',
        'b' => 'B',
        'c' => 'C',
        'd' => 'D',
        'e' => 'E',
        'f' => 'F',
        'g' => 'G',
        'h' => 'H',
        'i' => 'I',
        'j' => 'J',
        'k' => 'K',
        'l' => 'L',
        'm' => 'M',
        'n' => 'N',
        'o' => 'O',
        'p' => 'P',
        'q' => 'Q',
        'r' => 'R',
        's' => 'S',
        't' => 'T',
        'u' => 'U',
        'v' => 'V',
        'w' => 'W',
        'x' => 'X',
        'y' => 'Y',
        'z' => 'Z',
        _ => c,
    }
}

/// Exec twin of `upper_twin`.
pub fn upper_twin_char(c: char) -> (r: char)
    ensures
        r == upper_twin(c),
{
    match c {
        'a' => 'A',
        'b' => 'B',
        'c' => 'C',
        'd' => 'D',
        'e' => 'E',
        'f' => 'F',
        'g' => 'G',
        'h' => 'H',
        'i' => 'I',
        'j' => 'J',
        'k' => 'K',
        'l' => 'L',
        'm' => 'M',
        'n' => 'N',
        'o' => 'O',
        'p' => 'P',
        'q' => 'Q',
        'r' => 'R',
        's' => 'S',
        't' => 'T',
        'u' => 'U',
        'v' => 'V',
        'w' => 'W',
        'x' => 'X',
        'y' => 'Y',
        'z' => 'Z',
        _ => c,
    }
}

/// `s[i..]` equals `word` to the very end of `s`, ASCII case-insensitively;
/// `word` is given in lower case.
pub open spec fn ci_matches(s: Seq<char>, i: int, word: Seq<char>) -> bool {
    s.len() - i == word.len() && forall|k: int|
        0 <= k < word.len() ==> (s[i + k] == word[k] || s[i + k] == upper_twin(word[k]))
}

/// Exec test of `ci_matches`.
pub fn tail_matches_ci(v: &Vec<char>, i: usize, word: &Vec<char>) -> (r: bool)
    requires
        i <= v@.len(),
    ensures
        r == ci_matches(v@, i as int, word@),
{
    if v.len() - i != word.len() {
        return false;
    }
    let mut k: usize = 0;
    while k < word.len()
        invariant
            0 <= k <= word@.len(),
            i + word@.len() == v@.len(),
            v@.len() <= usize::MAX,
            forall|j: int|
                0 <= j < k ==> (v@[i + j] == word@[j] || v@[i + j] == upper_twin(word@[j])),
        decreases word@.len() - k,
    {
        let c = v[i + k];
        let w = word[k];
        if !(c == w || c == upper_twin_char(w)) {
            return false;
        }
        k = k + 1;
    }
    true
}

/// The exponent suffix of a floating-point literal, starting at `i` and
/// reaching the end of `s`: `e` or `E`, an optional sign, one or more digits.
pub open spec fn is_exp_part(s: Seq<char>, i: int) -> bool {
    0 <= i < s.len() && (s[i] == 'e' || s[i] == 'E') && {
        let b = if i + 1 < s.len() && (s[i + 1] == '+' || s[i + 1] == '-') {
            i + 2
        } else {
            i + 1
        };
        s.len() > b && run_end(s, b, CharClass::Digit) == s.len()
    }
}

/// A decimal floating-point body (no sign): digits, with an optional point
/// carrying digits on at least one side, and an optional exponent.
pub open spec fn is_float_body(s: Seq<char>, b: int) -> bool {
    let d1 = run_end(s, b, CharClass::Digit);
    if d1 == s.len() {
        d1 > b
    } else if s[d1] == '.' {
        let d2 = run_end(s, d1 + 1, CharClass::Digit);
        (d1 > b || d2 > d1 + 1) && (d2 == s.len() || is_exp_part(s, d2))
    } else {
        d1 > b && is_exp_part(s, d1)
    }
}

/// A floating-point literal as `str::parse::<f64>` accepts it: an optional
/// sign, then `inf`, `infinity` or `nan` (case-insensitive) or a decimal body
/// with optional fraction and exponent.  The library keeps such a value as
/// its text and never computes with it.
pub open spec fn is_float_literal(s: Seq<char>) -> bool {
    let b = int_body_start(s);
    ||| ci_matches(s, b, seq!['i', 'n', 'f'])
    ||| ci_matches(s, b, seq!['i', 'n', 'f', 'i', 'n', 'i', 't', 'y'])
    ||| ci_matches(s, b, seq!['n', 'a', 'n'])
    ||| is_float_body(s, b)
}

/// Exec test of the exponent suffix.
fn exp_part_check(v: &Vec<char>, i: usize) -> (r: bool)
    requires
        i <= v@.len(),
    ensures
        r == is_exp_part(v@, i as int),
{
    if i >= v.len() || !(v[i] == 'e' || v[i] == 'E') {
        return false;
    }
    let b: usize = if i + 1 < v.len() && (v[i + 1] == '+' || v[i + 1] == '-') {
        i + 2
    } else {
        i + 1
    };
    let dend = scan_run(v, b, CharClass::Digit);
    v.len() > b && dend == v.len()
}

/// Exec test of the floating-point literal grammar.
pub fn float_literal_check(v: &Vec<char>) -> (r: bool)
    ensures
        r == is_float_literal(v@),
{
    let n = v.len();
    let b: usize = if n > 0 && (v[0] == '+' || v[0] == '-') {
        1
    } else {
        0
    };
    if tail_matches_ci(v, b, &vec!['i', 'n', 'f']) {
        return true;
    }
    if tail_matches_ci(v, b, &vec!['i', 'n', 'f', 'i', 'n', 'i', 't', 'y']) {
        return true;
    }
    if tail_matches_ci(v, b, &vec!['n', 'a', 'n']) {
        return true;
    }
    let d1 = scan_run(v, b, CharClass::Digit);
    if d1 == n {
        d1 > b
    } else if v[d1] == '.' {
        let d2 = scan_run(v, d1 + 1, CharClass::Digit);
        (d1 > b || d2 > d1 + 1) && (d2 == n || exp_part_check(v, d2))
    } else {
        d1 > b && exp_part_check(v, d1)
    }
}

/// `true`, in any ASCII case mix.
pub open spec fn is_true_literal_ci(s: Seq<char>) -> bool {
    ci_matches(s, 0, seq!['t', 'r', 'u', 'e'])
}

/// `false`, in any ASCII case mix.
pub open spec fn is_false_literal_ci(s: Seq<char>) -> bool {
    ci_matches(s, 0, seq!['f', 'a', 'l', 's', 'e'])
}

/// Exec test of case-insensitive `true`.
pub fn true_literal_check(v: &Vec<char>) -> (r: bool)
    ensures
        r == is_true_literal_ci(v@),
{
    tail_matches_ci(v, 0, &vec!['t', 'r', 'u', 'e'])
}

/// Exec test of case-insensitive `false`.
pub fn false_literal_check(v: &Vec<char>) -> (r: bool)
    ensures
        r == is_false_literal_ci(v@),
{
    tail_matches_ci(v, 0, &vec!['f', 'a', 'l', 's', 'e'])
}

} // verus!
