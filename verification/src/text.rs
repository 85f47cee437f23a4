//! Character classification and plain text building.
//!
//! The scanner classifies characters with std's Unicode predicates. Their
//! behaviour on the ASCII range is written out here, so that proofs about
//! concrete source text go through; outside ASCII each predicate is left
//! abstract.

use vstd::prelude::*;
use vstd::string::StrSliceExecFns;

verus! {

/// Collects the characters of a string slice, in order.
pub fn str_chars(s: &str) -> (r: Vec<char>)
    ensures
        r@ == s@,
{
    let n = s.unicode_len();
    let mut r: Vec<char> = Vec::new();
    let mut i: usize = 0;
    while i < n
        invariant
            i <= n,
            n == s@.len(),
            r@ == s@.subrange(0, i as int),
        decreases n - i,
    {
        r.push(s.get_char(i));
        assert(s@.subrange(0, i as int).push(s@[i as int]) =~= s@.subrange(0, i + 1 as int));
        i = i + 1;
    }
    assert(s@.subrange(0, s@.len() as int) =~= s@);
    r
}

/// Whether a character above the ASCII range has the Unicode White_Space property.
pub uninterp spec fn non_ascii_whitespace(c: char) -> bool;

/// Whether a character above the ASCII range is in a Unicode number category.
pub uninterp spec fn non_ascii_numeric(c: char) -> bool;

/// Whether a character above the ASCII range is Unicode alphabetic or numeric.
pub uninterp spec fn non_ascii_alphanumeric(c: char) -> bool;

/// What `char::is_whitespace` returns.
pub open spec fn is_whitespace_char(c: char) -> bool {
    if (c as u32) <= 127 {
        c == ' ' || c == '\t' || c == '\n' || c == '\r' || c == '\u{b}' || c == '\u{c}'
    } else {
        non_ascii_whitespace(c)
    }
}

/// What `char::is_numeric` returns.
pub open spec fn is_numeric_char(c: char) -> bool {
    if (c as u32) <= 127 {
        is_ascii_digit_char(c)
    } else {
        non_ascii_numeric(c)
    }
}

/// What `char::is_alphanumeric` returns.
pub open spec fn is_alphanumeric_char(c: char) -> bool {
    if (c as u32) <= 127 {
        is_ascii_digit_char(c) || ('a' <= c && c <= 'z') || ('A' <= c && c <= 'Z')
    } else {
        non_ascii_alphanumeric(c)
    }
}

/// A decimal digit of the ASCII range.
pub open spec fn is_ascii_digit_char(c: char) -> bool {
    '0' <= c && c <= '9'
}

/// Relies on char::is_whitespace: true exactly on the characters with the
/// Unicode White_Space property; within ASCII those are space, tab, line
/// feed, vertical tab, form feed and carriage return.
pub assume_specification[ char::is_whitespace ](c: char) -> (r: bool)
    ensures
        r == is_whitespace_char(c),
        (c as u32) > 127 ==> r == non_ascii_whitespace(c),
;

/// Relies on char::is_numeric: true exactly on the characters in a Unicode
/// number category (Nd, Nl, No); within ASCII those are the digits 0 to 9.
pub assume_specification[ char::is_numeric ](c: char) -> (r: bool)
    ensures
        r == is_numeric_char(c),
        (c as u32) > 127 ==> r == non_ascii_numeric(c),
;

/// Relies on char::is_alphanumeric: true exactly on the Unicode alphabetic
/// characters and the characters in a number category; within ASCII those
/// are the digits and the letters a to z in both cases.
pub assume_specification[ char::is_alphanumeric ](c: char) -> (r: bool)
    ensures
        r == is_alphanumeric_char(c),
        (c as u32) > 127 ==> r == non_ascii_alphanumeric(c),
;

/// Relies on String::push: appends one character at the end of the string.
#[verifier::external_body]
pub(crate) fn push_char(s: &mut String, c: char)
    ensures
        final(s)@ == old(s)@.push(c),
{
    s.push(c)
}

/// Builds a string holding exactly the given characters, in order.
pub fn string_from_chars(v: &Vec<char>) -> (r: String)
    ensures
        r@ == v@,
{
    let mut r = String::new();
    for i in 0..v.len()
        invariant
            r@ == v@.subrange(0, i as int),
    {
        push_char(&mut r, v[i]);
        assert(v@.subrange(0, i as int).push(v@[i as int]) =~= v@.subrange(0, i + 1 as int));
    }
    assert(v@.subrange(0, v@.len() as int) =~= v@);
    r
}

/// The first position at or after `i` holding `c`, or the sequence's length.
pub open spec fn find_char(s: Seq<char>, i: int, c: char) -> int
    decreases s.len() - i,
{
    if i < 0 || i >= s.len() {
        s.len() as int
    } else if s[i] == c {
        i
    } else {
        find_char(s, i + 1, c)
    }
}

pub proof fn lemma_find_char(s: Seq<char>, i: int, c: char)
    requires
        0 <= i <= s.len(),
    ensures
        i <= find_char(s, i, c) <= s.len(),
        find_char(s, i, c) < s.len() ==> s[find_char(s, i, c)] == c,
        forall|k: int| i <= k < find_char(s, i, c) ==> s[k] != c,
    decreases s.len() - i,
{
    if i < s.len() && s[i] != c {
        lemma_find_char(s, i + 1, c);
    }
}

pub proof fn lemma_find_char_is(s: Seq<char>, i: int, c: char, e: int)
    requires
        0 <= i <= e <= s.len(),
        forall|k: int| i <= k < e ==> s[k] != c,
        e == s.len() || s[e] == c,
    ensures
        find_char(s, i, c) == e,
    decreases e - i,
{
    if i < e {
        lemma_find_char_is(s, i + 1, c, e);
    }
}

/// The first position at or after `i` whose character fails `p`, or the
/// sequence's length.
pub open spec fn run_end(s: Seq<char>, i: int, p: spec_fn(char) -> bool) -> int
    decreases s.len() - i,
{
    if i < 0 || i >= s.len() {
        s.len() as int
    } else if p(s[i]) {
        run_end(s, i + 1, p)
    } else {
        i
    }
}

pub proof fn lemma_run_end(s: Seq<char>, i: int, p: spec_fn(char) -> bool)
    requires
        0 <= i <= s.len(),
    ensures
        i <= run_end(s, i, p) <= s.len(),
        run_end(s, i, p) < s.len() ==> !p(s[run_end(s, i, p)]),
        forall|k: int| i <= k < run_end(s, i, p) ==> p(s[k]),
    decreases s.len() - i,
{
    if i < s.len() && p(s[i]) {
        lemma_run_end(s, i + 1, p);
    }
}

pub proof fn lemma_run_end_is(s: Seq<char>, i: int, p: spec_fn(char) -> bool, e: int)
    requires
        0 <= i <= e <= s.len(),
        forall|k: int| i <= k < e ==> p(s[k]),
        e == s.len() || !p(s[e]),
    ensures
        run_end(s, i, p) == e,
    decreases e - i,
{
    if i < e {
        lemma_run_end_is(s, i + 1, p, e);
    }
}

/// Copies the characters of `v` from position `from` up to `to`.
pub fn chars_range(v: &Vec<char>, from: usize, to: usize) -> (r: Vec<char>)
    requires
        from <= to <= v@.len(),
    ensures
        r@ == v@.subrange(from as int, to as int),
{
    let mut r: Vec<char> = Vec::new();
    let mut i: usize = from;
    while i < to
        invariant
            from <= i <= to <= v@.len(),
            r@ == v@.subrange(from as int, i as int),
        decreases to - i,
    {
        r.push(v[i]);
        assert(v@.subrange(from as int, i as int).push(v@[i as int]) =~= v@.subrange(
            from as int,
            i + 1 as int,
        ));
        i = i + 1;
    }
    r
}

/// The decimal spelling of a natural number, without sign or padding.
pub open spec fn dec_str(n: nat) -> Seq<char>
    decreases n,
{
    if n < 10 {
        seq![digit_char(n)]
    } else {
        dec_str(n / 10).push(digit_char(n % 10))
    }
}

/// The character for one decimal digit.
pub open spec fn digit_char(d: nat) -> char {
    if d == 0 {
        '0'
    } else if d == 1 {
        '1'
    } else if d == 2 {
        '2'
    } else if d == 3 {
        '3'
    } else if d == 4 {
        '4'
    } else if d == 5 {
        '5'
    } else if d == 6 {
        '6'
    } else if d == 7 {
        '7'
    } else if d == 8 {
        '8'
    } else {
        '9'
    }
}

fn digit_of(d: usize) -> (c: char)
    requires
        d < 10,
    ensures
        c == digit_char(d as nat),
{
    match d {
        0 => '0',
        1 => '1',
        2 => '2',
        3 => '3',
        4 => '4',
        5 => '5',
        6 => '6',
        7 => '7',
        8 => '8',
        _ => '9',
    }
}

/// Renders a number in decimal, as diagnostic lines spell line numbers.
pub fn usize_to_string(n: usize) -> (r: String)
    ensures
        r@ == dec_str(n as nat),
{
    let mut digits: Vec<char> = Vec::new();
    let mut m: usize = n;
    assert(dec_str(n as nat) =~= dec_str(n as nat) + digits@);
    while m >= 10
        invariant
            dec_str(n as nat) == dec_str(m as nat) + digits@,
        decreases m,
    {
        let ghost pre = digits@;
        digits.insert(0, digit_of(m % 10));
        proof {
            assert(dec_str(m as nat) == dec_str((m / 10) as nat).push(digit_char((m % 10) as nat)));
            assert(dec_str((m / 10) as nat).push(digit_char((m % 10) as nat)) =~= dec_str(
                (m / 10) as nat,
            ) + seq![digit_char((m % 10) as nat)]);
            assert(digits@ =~= seq![digit_char((m % 10) as nat)] + pre);
            assert(dec_str(n as nat) =~= dec_str((m / 10) as nat) + digits@);
            assert(m / 10 < m) by (nonlinear_arith)
                requires
                    m >= 10,
            ;
        }
        m = m / 10;
    }
    let ghost pre = digits@;
    digits.insert(0, digit_of(m));
    proof {
        assert(dec_str(m as nat) =~= seq![digit_char(m as nat)]);
        assert(digits@ =~= seq![digit_char(m as nat)] + pre);
        assert(dec_str(n as nat) =~= digits@);
    }
    string_from_chars(&digits)
}

} // verus!
