//! Proved properties of the scan as a whole: the shape of its output, the
//! line numbers it records, and the round trip of the fixed lexeme table.

use crate::errors::ErrorValue;
use crate::scanner::{
    alphanumeric_pred, ident_kind, kinds_to_tokens, lemma_scan_from_step,
    lemma_scan_step_advances, numeric_or_dot, scan, scan_from, scan_step,
};
use crate::text::{find_char, is_alphanumeric_char, is_numeric_char, lemma_find_char, lemma_run_end, lemma_run_end_is};
use crate::token::{lexeme_kind, TokenValue, TokenView};
use vstd::prelude::*;

verus! {

/// Every scan's output is non-empty and closed by exactly one end-of-input
/// token: the last token of a scan, from any position and line, is of the
/// end-of-input kind.
pub proof fn lemma_output_ends_with_end_of_input(s: Seq<char>)
    ensures
        scan(s).toks.len() >= 1,
        scan(s).toks.last().kind is EOF,
{
    lemma_scan_from_ends_with_end_of_input(s, 0, 1);
}

proof fn lemma_scan_from_ends_with_end_of_input(s: Seq<char>, i: int, line: int)
    requires
        0 <= i <= s.len(),
    ensures
        scan_from(s, i, line).toks.len() >= 1,
        scan_from(s, i, line).toks.last().kind is EOF,
    decreases s.len() - i,
{
    if i < s.len() {
        lemma_scan_step_advances(s, i);
        lemma_scan_from_step(s, i, line);
        let st = scan_step(s, i);
        let line2 = line + st.delta;
        lemma_scan_from_ends_with_end_of_input(s, st.next, line2);
        let front = kinds_to_tokens(st.toks, line2);
        let rest = scan_from(s, st.next, line2).toks;
        assert((front + rest).last() == rest.last());
    }
}

/// The sentinel kind is never part of a scan's output — it is a dispatch
/// signal, turned into a diagnostic — and the end-of-input kind closes the
/// output exactly once: no token before the last carries either kind.
pub proof fn lemma_output_has_one_closing_token(s: Seq<char>)
    ensures
        forall|j: int|
            0 <= j < scan(s).toks.len() - 1 ==> !(scan(s).toks[j].kind is EOF) && !(scan(
                s,
            ).toks[j].kind is NoToken),
{
    lemma_proper_tokens_from(s, 0, 1);
}

proof fn lemma_proper_tokens_from(s: Seq<char>, i: int, line: int)
    requires
        0 <= i <= s.len(),
    ensures
        forall|j: int|
            0 <= j < scan_from(s, i, line).toks.len() - 1 ==> !(scan_from(
                s,
                i,
                line,
            ).toks[j].kind is EOF) && !(scan_from(s, i, line).toks[j].kind is NoToken),
    decreases s.len() - i,
{
    if i < s.len() {
        lemma_scan_step_advances(s, i);
        lemma_scan_from_step(s, i, line);
        let st = scan_step(s, i);
        let line2 = line + st.delta;
        lemma_proper_tokens_from(s, st.next, line2);
        lemma_scan_from_ends_with_end_of_input(s, st.next, line2);
        let front = kinds_to_tokens(st.toks, line2);
        let rest = scan_from(s, st.next, line2).toks;
        assert forall|j: int|
            0 <= j < scan_from(s, i, line).toks.len() - 1 implies !(scan_from(
            s,
            i,
            line,
        ).toks[j].kind is EOF) && !(scan_from(s, i, line).toks[j].kind is NoToken) by {
            if j < st.toks.len() {
                assert(scan_from(s, i, line).toks[j] == front[j]);
                assert(!(st.toks[j] is EOF) && !(st.toks[j] is NoToken)) by {
                    if is_numeric_char(s[i]) || is_alphanumeric_char(s[i]) {
                        lemma_run_end(s, i, numeric_or_dot());
                        lemma_run_end(s, i, alphanumeric_pred());
                    }
                }
            } else {
                assert(scan_from(s, i, line).toks[j] == rest[j - st.toks.len()]);
            }
        }
    }
}

/// Count of line-break characters strictly before position `n`.
pub open spec fn newlines_before(s: Seq<char>, n: int) -> int
    decreases n,
{
    if n <= 0 {
        0
    } else {
        newlines_before(s, n - 1) + if 0 <= n - 1 < s.len() && s[n - 1] == '\n' {
            1int
        } else {
            0int
        }
    }
}

proof fn lemma_newlines_unchanged(s: Seq<char>, a: int, b: int)
    requires
        0 <= a <= b <= s.len(),
        forall|k: int| a <= k < b ==> s[k] != '\n',
    ensures
        newlines_before(s, b) == newlines_before(s, a),
    decreases b - a,
{
    if a < b {
        lemma_newlines_unchanged(s, a, b - 1);
    }
}

/// The position just past each output token's terminating character, in
/// output order; the end-of-input token ends at the input's end.
pub open spec fn scan_token_ends(s: Seq<char>, i: int) -> Seq<int>
    decreases s.len() - i,
    when 0 <= i
    via scan_token_ends_decreases
{
    if i >= s.len() {
        seq![s.len() as int]
    } else {
        let st = scan_step(s, i);
        Seq::new(st.toks.len(), |j: int| st.next) + scan_token_ends(s, st.next)
    }
}

#[via_fn]
proof fn scan_token_ends_decreases(s: Seq<char>, i: int) {
    if i < s.len() {
        lemma_scan_step_advances(s, i);
    }
}

/// Whether no string literal met by the scan from `i` runs across a line
/// break: across each round opened by a quote, the line-break count does
/// not change.
pub open spec fn strings_newline_free(s: Seq<char>, i: int) -> bool
    decreases s.len() - i,
    when 0 <= i
    via strings_newline_free_decreases
{
    if i >= s.len() {
        true
    } else {
        let st = scan_step(s, i);
        &&& (s[i] == '"' ==> newlines_before(s, st.next) == newlines_before(s, i))
        &&& strings_newline_free(s, st.next)
    }
}

#[via_fn]
proof fn strings_newline_free_decreases(s: Seq<char>, i: int) {
    if i < s.len() {
        lemma_scan_step_advances(s, i);
    }
}

/// An input without any quote holds no string literal at all, so its
/// string literals trivially stay on one line.
pub proof fn lemma_quote_free_input_strings_newline_free(s: Seq<char>)
    requires
        forall|k: int| 0 <= k < s.len() ==> s[k] != '"',
    ensures
        strings_newline_free(s, 0),
{
    lemma_quote_free_from(s, 0);
}

proof fn lemma_quote_free_from(s: Seq<char>, i: int)
    requires
        0 <= i <= s.len(),
        forall|k: int| 0 <= k < s.len() ==> s[k] != '"',
    ensures
        strings_newline_free(s, i),
    decreases s.len() - i,
{
    if i < s.len() {
        lemma_scan_step_advances(s, i);
        lemma_quote_free_from(s, scan_step(s, i).next);
    }
}

/// Line counting: on any input whose string literals stay on one line, the
/// line number recorded on each output token equals one plus the count of
/// line breaks strictly before that token's terminating character.
pub proof fn lemma_line_counting(s: Seq<char>)
    requires
        strings_newline_free(s, 0),
    ensures
        scan(s).toks.len() == scan_token_ends(s, 0).len(),
        forall|j: int|
            0 <= j < scan(s).toks.len() ==> scan(s).toks[j].line == 1 + newlines_before(
                s,
                scan_token_ends(s, 0)[j],
            ),
{
    lemma_line_counting_from(s, 0, 1);
}

proof fn lemma_line_counting_from(s: Seq<char>, i: int, line: int)
    requires
        0 <= i <= s.len(),
        strings_newline_free(s, i),
        line == 1 + newlines_before(s, i),
    ensures
        scan_from(s, i, line).toks.len() == scan_token_ends(s, i).len(),
        forall|j: int|
            0 <= j < scan_from(s, i, line).toks.len() ==> scan_from(s, i, line).toks[j].line == 1
                + newlines_before(s, scan_token_ends(s, i)[j]),
    decreases s.len() - i,
{
    if i >= s.len() {
        assert(scan_from(s, i, line).toks.len() == 1);
        assert(scan_token_ends(s, i) =~= seq![s.len() as int]);
        assert(newlines_before(s, s.len() as int) == newlines_before(s, i));
    } else {
        let c = s[i];
        let st = scan_step(s, i);
        lemma_scan_step_advances(s, i);
        lemma_scan_from_step(s, i, line);
        assert(newlines_before(s, st.next) == newlines_before(s, i) + st.delta) by {
            if c == '\n' {
                assert(st.next == i + 1 && st.delta == 1);
            } else if c == '"' {
                assert(newlines_before(s, st.next) == newlines_before(s, i));
            } else if c == '/' && i + 1 < s.len() && s[i + 1] == '/' {
                let k = find_char(s, i + 1, '\n');
                lemma_find_char(s, i + 1, '\n');
                if k < s.len() {
                    assert(forall|m: int| i <= m < k ==> s[m] != '\n');
                    lemma_newlines_unchanged(s, i, k);
                    assert(newlines_before(s, k + 1) == newlines_before(s, k) + 1);
                    assert(st.next == k + 1 && st.delta == 1);
                } else {
                    assert(forall|m: int| i <= m < s.len() ==> s[m] != '\n');
                    lemma_newlines_unchanged(s, i, s.len() as int);
                    assert(st.next == s.len() && st.delta == 0);
                }
            } else {
                assert(st.delta == 0);
                lemma_run_end(s, i, numeric_or_dot());
                lemma_run_end(s, i, alphanumeric_pred());
                assert forall|m: int| i <= m < st.next implies s[m] != '\n' by {
                    if m == i {
                        assert(s[m] != '\n');
                    } else if c == '=' || c == '!' || c == '<' || c == '>' {
                        assert(s[m] == '=');
                    } else if c == '/' || is_ws_or_single(c) {
                        assert(false);
                    } else if is_numeric_char(c) {
                        assert(numeric_or_dot()(s[m]));
                    } else if is_alphanumeric_char(c) {
                        assert(alphanumeric_pred()(s[m]));
                    } else {
                        assert(false);
                    }
                }
                lemma_newlines_unchanged(s, i, st.next);
            }
        }
        let line2 = line + st.delta;
        lemma_line_counting_from(s, st.next, line2);
        let front = kinds_to_tokens(st.toks, line2);
        let rest = scan_from(s, st.next, line2);
        let ends_rest = scan_token_ends(s, st.next);
        assert(scan_from(s, i, line).toks.len() == scan_token_ends(s, i).len());
        assert forall|j: int| 0 <= j < scan_from(s, i, line).toks.len() implies scan_from(
            s,
            i,
            line,
        ).toks[j].line == 1 + newlines_before(s, scan_token_ends(s, i)[j]) by {
            if j < st.toks.len() {
                assert(scan_from(s, i, line).toks[j] == front[j]);
                assert(scan_token_ends(s, i)[j] == st.next);
            } else {
                assert(scan_from(s, i, line).toks[j] == rest.toks[j - st.toks.len()]);
                assert(scan_token_ends(s, i)[j] == ends_rest[j - st.toks.len()]);
            }
        }
    }
}

/// Whether `c` is consumed as whitespace or as a one-character table entry;
/// in either case the round consumes exactly that character.
spec fn is_ws_or_single(c: char) -> bool {
    crate::text::is_whitespace_char(c) || crate::token::single_char_kind(c) is Some
}

/// Round trip of the fixed lexeme table: scanning the spelling of any
/// fixed kind, other than the empty spelling of end of input, yields
/// exactly one token of that kind on line one, the end-of-input token on
/// line one, and no diagnostic.
pub proof fn lemma_fixed_lexeme_round_trip(w: Seq<char>, k: TokenView)
    requires
        lexeme_kind(w) == Some(k),
        w.len() > 0,
    ensures
        scan(w).toks =~= seq![
            TokenValue { kind: k, line: 1 },
            TokenValue { kind: TokenView::EOF, line: 1 },
        ],
        scan(w).errs =~= Seq::<ErrorValue>::empty(),
{
    if w.len() == 1 {
        assert(scan_step(w, 0).next == 1 && scan_step(w, 0).delta == 0);
        assert(scan_step(w, 0).toks =~= seq![k]);
        assert(scan_step(w, 0).errs =~= Seq::<Seq<char>>::empty());
    } else if w[0] == '=' || w[0] == '!' || w[0] == '<' || w[0] == '>' {
        assert(w.len() == 2 && w[1] == '=');
        assert(scan_step(w, 0).next == 2 && scan_step(w, 0).delta == 0);
        assert(scan_step(w, 0).toks =~= seq![k]);
        assert(scan_step(w, 0).errs =~= Seq::<Seq<char>>::empty());
    } else {
        assert(forall|j: int| 0 <= j < w.len() ==> alphanumeric_pred()(w[j]));
        lemma_run_end_is(w, 0, alphanumeric_pred(), w.len() as int);
        assert(w.subrange(0, w.len() as int) =~= w);
        assert(ident_kind(w) == k);
        assert(scan_step(w, 0).next == w.len() && scan_step(w, 0).delta == 0);
        assert(scan_step(w, 0).toks =~= seq![k]);
        assert(scan_step(w, 0).errs =~= Seq::<Seq<char>>::empty());
    }
    lemma_single_token_scan(w, k);
}

proof fn lemma_single_token_scan(w: Seq<char>, k: TokenView)
    requires
        w.len() > 0,
        scan_step(w, 0).next == w.len(),
        scan_step(w, 0).delta == 0,
        scan_step(w, 0).toks =~= seq![k],
        scan_step(w, 0).errs =~= Seq::<Seq<char>>::empty(),
    ensures
        scan(w).toks =~= seq![
            TokenValue { kind: k, line: 1 },
            TokenValue { kind: TokenView::EOF, line: 1 },
        ],
        scan(w).errs =~= Seq::<ErrorValue>::empty(),
{
    lemma_scan_from_step(w, 0, 1);
    assert(scan_from(w, w.len() as int, 1).toks =~= seq![
        TokenValue { kind: TokenView::EOF, line: 1 },
    ]);
    assert(scan_from(w, w.len() as int, 1).errs =~= Seq::<ErrorValue>::empty());
    assert(kinds_to_tokens(scan_step(w, 0).toks, 1) =~= seq![TokenValue { kind: k, line: 1 }]);
}

} // verus!
