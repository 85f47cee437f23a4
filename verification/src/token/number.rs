//! Numeric literal values.
//!
//! A numeric literal of the language is a run of decimal digits with at most
//! one decimal point. Its value is kept exactly, as a canonical decimal: the
//! digits before the point without leading zeros, and the digits after the
//! point without trailing zeros. Two values are equal exactly when their
//! canonical digits agree, and a value renders with at least one digit on
//! each side of the point, so an integral value renders with one trailing
//! zero (`9` as `9.0`).

use crate::text::{
    chars_range, find_char, is_ascii_digit_char, lemma_find_char, str_chars, string_from_chars,
};
use vstd::prelude::*;
use vstd::string::StringExecFns;

verus! {

/// The mathematical content of a `Number`: its canonical decimal digits.
#[verifier::ext_equal]
pub struct NumberValue {
    pub whole: Seq<char>,
    pub frac: Seq<char>,
}

/// An exactly represented decimal value, canonical in both digit runs.
#[derive(Debug)]
pub struct Number {
    whole: String,
    frac: String,
}

impl View for Number {
    type V = NumberValue;

    closed spec fn view(&self) -> NumberValue {
        NumberValue { whole: self.whole@, frac: self.frac@ }
    }
}

/// How many decimal points a candidate lexeme holds.
pub open spec fn dot_count(s: Seq<char>) -> int
    decreases s.len(),
{
    if s.len() == 0 {
        0
    } else {
        dot_count(s.drop_last()) + if s.last() == '.' {
            1int
        } else {
            0int
        }
    }
}

/// Whether a lexeme spells a numeric literal: nonempty, a decimal digit
/// first, only decimal digits and points, and at most one point.
pub open spec fn valid_number_lexeme(s: Seq<char>) -> bool {
    &&& s.len() > 0
    &&& is_ascii_digit_char(s[0])
    &&& forall|i: int| 0 <= i < s.len() ==> is_ascii_digit_char(s[i]) || s[i] == '.'
    &&& dot_count(s) <= 1
}

/// Digits with leading zeros removed; a single zero is kept.
pub open spec fn strip_leading_zeros(s: Seq<char>) -> Seq<char>
    decreases s.len(),
{
    if s.len() <= 1 {
        s
    } else if s[0] == '0' {
        strip_leading_zeros(s.subrange(1, s.len() as int))
    } else {
        s
    }
}

/// Digits with trailing zeros removed, possibly leaving none.
pub open spec fn strip_trailing_zeros(s: Seq<char>) -> Seq<char>
    decreases s.len(),
{
    if s.len() == 0 {
        s
    } else if s.last() == '0' {
        strip_trailing_zeros(s.drop_last())
    } else {
        s
    }
}

/// The value a valid numeric lexeme denotes.
pub open spec fn number_of_lexeme(s: Seq<char>) -> NumberValue {
    let d = find_char(s, 0, '.');
    NumberValue {
        whole: strip_leading_zeros(s.subrange(0, d)),
        frac: if d < s.len() {
            strip_trailing_zeros(s.subrange(d + 1, s.len() as int))
        } else {
            Seq::empty()
        },
    }
}

/// How a value renders: whole digits, a point, then the fraction digits or
/// one zero when the fraction is empty.
pub open spec fn number_rendering(n: NumberValue) -> Seq<char> {
    n.whole + seq!['.'] + if n.frac.len() == 0 {
        seq!['0']
    } else {
        n.frac
    }
}

impl Number {
    /// Reads a numeric literal from its characters; rejects anything that is
    /// not a digit run with at most one decimal point.
    pub fn from_lexeme(chars: &Vec<char>) -> (r: Option<Number>)
        ensures
            valid_number_lexeme(chars@) ==> (r matches Some(n) && n@ == number_of_lexeme(chars@)),
            !valid_number_lexeme(chars@) ==> r is None,
    {
        if !check_lexeme(chars) {
            return None;
        }
        let dot = find_dot(chars);
        proof {
            lemma_find_char(chars@, 0, '.');
        }
        let whole_digits = chars_range(chars, 0, dot);
        let frac_digits = if dot < chars.len() {
            chars_range(chars, dot + 1, chars.len())
        } else {
            Vec::new()
        };
        let whole = strip_leading(&whole_digits);
        let frac = strip_trailing(&frac_digits);
        Some(Number { whole: string_from_chars(&whole), frac: string_from_chars(&frac) })
    }

    /// Reads a numeric literal from a string slice.
    pub fn from_text(s: &str) -> (r: Option<Number>)
        ensures
            valid_number_lexeme(s@) ==> (r matches Some(n) && n@ == number_of_lexeme(s@)),
            !valid_number_lexeme(s@) ==> r is None,
    {
        let chars = str_chars(s);
        Number::from_lexeme(&chars)
    }

    /// The canonical text of the value.
    pub fn render(&self) -> (r: String)
        ensures
            r@ == number_rendering(self@),
    {
        let mut r = self.whole.clone();
        r.append(".");
        proof {
            reveal_strlit(".");
            assert(r@ =~= self@.whole + seq!['.']);
        }
        if self.frac.as_str().unicode_len() == 0 {
            r.append("0");
            proof {
                reveal_strlit("0");
                assert(self@.frac =~= Seq::<char>::empty());
                assert(r@ =~= number_rendering(self@));
            }
        } else {
            r.append(self.frac.as_str());
        }
        r
    }
}

impl PartialEq for Number {
    fn eq(&self, other: &Number) -> (r: bool) {
        self.whole == other.whole && self.frac == other.frac
    }
}

impl Eq for Number {

}

impl vstd::std_specs::cmp::PartialEqSpecImpl for Number {
    open spec fn obeys_eq_spec() -> bool {
        true
    }

    open spec fn eq_spec(&self, other: &Number) -> bool {
        self@ == other@
    }
}

fn check_lexeme(chars: &Vec<char>) -> (r: bool)
    ensures
        r == valid_number_lexeme(chars@),
{
    if chars.len() == 0 {
        return false;
    }
    let c0 = chars[0];
    if !('0' <= c0 && c0 <= '9') {
        return false;
    }
    let mut dots: usize = 0;
    let mut i: usize = 0;
    while i < chars.len()
        invariant
            0 <= i <= chars@.len(),
            dots == dot_count(chars@.subrange(0, i as int)),
            dots <= i,
            forall|k: int| 0 <= k < i ==> is_ascii_digit_char(chars@[k]) || chars@[k] == '.',
        decreases chars@.len() - i,
    {
        let c = chars[i];
        if c == '.' {
            dots = dots + 1;
        } else if !('0' <= c && c <= '9') {
            proof {
                assert(!is_ascii_digit_char(chars@[i as int]) && chars@[i as int] != '.');
            }
            return false;
        }
        proof {
            assert(chars@.subrange(0, i + 1 as int).drop_last() =~= chars@.subrange(0, i as int));
            assert(chars@.subrange(0, i + 1 as int).last() == chars@[i as int]);
        }
        i = i + 1;
    }
    proof {
        assert(chars@.subrange(0, chars@.len() as int) =~= chars@);
    }
    dots <= 1
}

fn find_dot(chars: &Vec<char>) -> (r: usize)
    ensures
        r == find_char(chars@, 0, '.'),
{
    let mut i: usize = 0;
    while i < chars.len()
        invariant
            0 <= i <= chars@.len(),
            find_char(chars@, 0, '.') == find_char(chars@, i as int, '.'),
        decreases chars@.len() - i,
    {
        if chars[i] == '.' {
            return i;
        }
        i = i + 1;
    }
    i
}

fn strip_leading(digits: &Vec<char>) -> (r: Vec<char>)
    ensures
        r@ == strip_leading_zeros(digits@),
{
    let mut j: usize = 0;
    assert(digits@.subrange(0, digits@.len() as int) =~= digits@);
    while digits.len() > 0 && j < digits.len() - 1 && digits[j] == '0'
        invariant
            0 <= j,
            digits@.len() > 0 ==> j < digits@.len(),
            digits@.len() == 0 ==> j == 0,
            forall|k: int| 0 <= k < j ==> digits@[k] == '0',
            strip_leading_zeros(digits@) == strip_leading_zeros(
                digits@.subrange(j as int, digits@.len() as int),
            ),
        decreases digits@.len() - j,
    {
        proof {
            let tail = digits@.subrange(j as int, digits@.len() as int);
            assert(tail.len() > 1 && tail[0] == '0');
            assert(tail.subrange(1, tail.len() as int) =~= digits@.subrange(
                j + 1,
                digits@.len() as int,
            ));
        }
        j = j + 1;
    }
    proof {
        let tail = digits@.subrange(j as int, digits@.len() as int);
        if digits@.len() == 0 {
            assert(tail =~= digits@);
        } else {
            assert(tail.len() <= 1 || tail[0] != '0');
        }
        assert(strip_leading_zeros(tail) == tail);
    }
    chars_range(digits, j, digits.len())
}

fn strip_trailing(digits: &Vec<char>) -> (r: Vec<char>)
    ensures
        r@ == strip_trailing_zeros(digits@),
{
    let mut e: usize = digits.len();
    assert(digits@.subrange(0, digits@.len() as int) =~= digits@);
    while e > 0 && digits[e - 1] == '0'
        invariant
            0 <= e <= digits@.len(),
            strip_trailing_zeros(digits@) == strip_trailing_zeros(digits@.subrange(0, e as int)),
        decreases e,
    {
        proof {
            let head = digits@.subrange(0, e as int);
            assert(head.last() == '0');
            assert(head.drop_last() =~= digits@.subrange(0, e - 1));
        }
        e = e - 1;
    }
    proof {
        let head = digits@.subrange(0, e as int);
        if e == 0 {
            assert(head =~= Seq::<char>::empty());
        } else {
            assert(head.last() == digits@[e - 1] && head.last() != '0');
        }
        assert(strip_trailing_zeros(head) == head);
    }
    chars_range(digits, 0, e)
}

} // verus!
