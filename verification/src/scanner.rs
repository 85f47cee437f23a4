//! The scanner: drives a cursor over the source characters to produce the
//! ordered token sequence, tracking the current line and recording every
//! lexical failure instead of stopping.
//!
//! What a scan produces is written down once, as the recursive functions
//! `scan_step` and `scan_from` over the character sequence; `scan_source`
//! is proved to return exactly that.

use crate::errors::{ErrorHandler, ErrorValue};
use crate::superiterator::SuperIterator;
use crate::text::{
    find_char, is_alphanumeric_char, is_numeric_char, is_whitespace_char, lemma_find_char,
    lemma_find_char_is, lemma_run_end, lemma_run_end_is, push_char, run_end, str_chars,
    string_from_chars,
};
use crate::token::number::{number_of_lexeme, valid_number_lexeme, Number};
use crate::token::{lexeme_kind, single_char_kind, Token, TokenType, TokenValue, TokenView};
use vstd::prelude::*;
use vstd::string::StringExecFns;

verus! {

/// What one dispatch round of the scan does: where it leaves the cursor,
/// how many lines it crossed, and what it emits. Everything emitted carries
/// the line reached at the end of the round.
#[verifier::ext_equal]
pub struct ScanStep {
    pub next: int,
    pub delta: int,
    pub toks: Seq<TokenView>,
    pub errs: Seq<Seq<char>>,
}

/// What a whole scan produces: the token sequence and the diagnostics.
#[verifier::ext_equal]
pub struct ScanResult {
    pub toks: Seq<TokenValue>,
    pub errs: Seq<ErrorValue>,
}

/// The diagnostic recorded for a string literal that never closes.
pub open spec fn unterminated_message() -> Seq<char> {
    "Non-terminated string value"@
}

/// The diagnostic recorded for a numeric lexeme that does not parse.
pub open spec fn bad_number_message() -> Seq<char> {
    "impossible to parse a number"@
}

/// The diagnostic recorded when a character opens no lexeme.
pub open spec fn unexpected_message(c: char) -> Seq<char> {
    "Unexpected character: "@.push(c)
}

/// The characters a numeric lexeme accumulates.
pub open spec fn numeric_or_dot() -> spec_fn(char) -> bool {
    |d: char| is_numeric_char(d) || d == '.'
}

/// The characters an identifier or keyword lexeme accumulates.
pub open spec fn alphanumeric_pred() -> spec_fn(char) -> bool {
    |d: char| is_alphanumeric_char(d)
}

/// Where a numeric lexeme starting at `i` ends.
pub open spec fn number_run_end(s: Seq<char>, i: int) -> int {
    run_end(s, i, numeric_or_dot())
}

/// Where an identifier or keyword lexeme starting at `i` ends.
pub open spec fn ident_run_end(s: Seq<char>, i: int) -> int {
    run_end(s, i, alphanumeric_pred())
}

/// The two-character operator kind opened by `c`.
pub open spec fn pair_kind(c: char) -> TokenView {
    if c == '=' {
        TokenView::EqualEqual
    } else if c == '!' {
        TokenView::BangEqual
    } else if c == '<' {
        TokenView::LessEqual
    } else {
        TokenView::GreaterEqual
    }
}

/// The one-character operator kind of `c` when no `=` follows it.
pub open spec fn solo_kind(c: char) -> TokenView {
    if c == '=' {
        TokenView::Equal
    } else if c == '!' {
        TokenView::Bang
    } else if c == '<' {
        TokenView::Less
    } else {
        TokenView::Greater
    }
}

/// A word is a keyword when the table holds it, else an identifier.
pub open spec fn ident_kind(w: Seq<char>) -> TokenView {
    match lexeme_kind(w) {
        Some(k) => k,
        None => TokenView::Ident(w),
    }
}

/// One dispatch round at position `i`: which characters are consumed, how
/// the line moves, and what is emitted. This is the whole classification
/// policy of the scanner, written once.
pub open spec fn scan_step(s: Seq<char>, i: int) -> ScanStep
    recommends
        0 <= i < s.len(),
{
    let c = s[i];
    if c == '\n' {
        ScanStep { next: i + 1, delta: 1, toks: seq![], errs: seq![] }
    } else if c == '=' || c == '!' || c == '<' || c == '>' {
        if i + 1 < s.len() && s[i + 1] == '=' {
            ScanStep { next: i + 2, delta: 0, toks: seq![pair_kind(c)], errs: seq![] }
        } else {
            ScanStep { next: i + 1, delta: 0, toks: seq![solo_kind(c)], errs: seq![] }
        }
    } else if c == '/' {
        if i + 1 < s.len() && s[i + 1] == '/' {
            let k = find_char(s, i + 1, '\n');
            if k < s.len() {
                ScanStep { next: k + 1, delta: 1, toks: seq![], errs: seq![] }
            } else {
                ScanStep { next: s.len() as int, delta: 0, toks: seq![], errs: seq![] }
            }
        } else {
            ScanStep { next: i + 1, delta: 0, toks: seq![TokenView::Slash], errs: seq![] }
        }
    } else if c == '"' {
        let k = find_char(s, i + 1, '"');
        if k < s.len() {
            ScanStep {
                next: k + 1,
                delta: 0,
                toks: seq![TokenView::Str(s.subrange(i + 1, k))],
                errs: seq![],
            }
        } else {
            ScanStep {
                next: s.len() as int,
                delta: 0,
                toks: seq![],
                errs: seq![unterminated_message(), unexpected_message(c)],
            }
        }
    } else if is_whitespace_char(c) {
        ScanStep { next: i + 1, delta: 0, toks: seq![], errs: seq![] }
    } else if single_char_kind(c) is Some {
        ScanStep { next: i + 1, delta: 0, toks: seq![single_char_kind(c)->Some_0], errs: seq![] }
    } else if is_numeric_char(c) {
        let e = number_run_end(s, i);
        let lex = s.subrange(i, e);
        if valid_number_lexeme(lex) {
            ScanStep {
                next: e,
                delta: 0,
                toks: seq![TokenView::Num(number_of_lexeme(lex))],
                errs: seq![],
            }
        } else {
            ScanStep {
                next: e,
                delta: 0,
                toks: seq![],
                errs: seq![bad_number_message(), unexpected_message(c)],
            }
        }
    } else if is_alphanumeric_char(c) {
        let e = ident_run_end(s, i);
        ScanStep { next: e, delta: 0, toks: seq![ident_kind(s.subrange(i, e))], errs: seq![] }
    } else {
        ScanStep { next: i + 1, delta: 0, toks: seq![], errs: seq![unexpected_message(c)] }
    }
}

/// Every round consumes at least one character and never passes the end.
pub proof fn lemma_scan_step_advances(s: Seq<char>, i: int)
    requires
        0 <= i < s.len(),
    ensures
        i < scan_step(s, i).next <= s.len(),
        scan_step(s, i).delta == 0 || scan_step(s, i).delta == 1,
{
    let c = s[i];
    lemma_find_char(s, i + 1, '\n');
    lemma_find_char(s, i + 1, '"');
    lemma_run_end(s, i, numeric_or_dot());
    lemma_run_end(s, i, alphanumeric_pred());
    if !(c == '\n' || c == '=' || c == '!' || c == '<' || c == '>' || c == '/' || c == '"'
        || is_whitespace_char(c) || single_char_kind(c) is Some) {
        if is_numeric_char(c) {
            assert(numeric_or_dot()(s[i]));
        } else if is_alphanumeric_char(c) {
            assert(alphanumeric_pred()(s[i]));
        }
    }
}

/// What scanning from position `i` at line `line` produces: the rounds'
/// emissions in order, closed by one end-of-input token at the line the
/// cursor reached.
pub open spec fn scan_from(s: Seq<char>, i: int, line: int) -> ScanResult
    decreases s.len() - i,
    when 0 <= i
    via scan_from_decreases
{
    if i >= s.len() {
        ScanResult {
            toks: seq![TokenValue { kind: TokenView::EOF, line }],
            errs: seq![],
        }
    } else {
        let st = scan_step(s, i);
        let line2 = line + st.delta;
        let rest = scan_from(s, st.next, line2);
        ScanResult {
            toks: kinds_to_tokens(st.toks, line2) + rest.toks,
            errs: msgs_to_errors(st.errs, line2) + rest.errs,
        }
    }
}

#[via_fn]
proof fn scan_from_decreases(s: Seq<char>, i: int, line: int) {
    if i < s.len() {
        lemma_scan_step_advances(s, i);
    }
}

/// The whole scan of a source text: from its start, on line one.
pub open spec fn scan(s: Seq<char>) -> ScanResult {
    scan_from(s, 0, 1)
}

/// Unfolds one round of `scan_from`, splitting the output into the round's
/// own emissions and the rest.
pub proof fn lemma_scan_from_step(s: Seq<char>, i: int, line: int)
    requires
        0 <= i < s.len(),
    ensures
        ({
            let st = scan_step(s, i);
            let line2 = line + st.delta;
            let rest = scan_from(s, st.next, line2);
            &&& scan_from(s, i, line).toks == kinds_to_tokens(st.toks, line2) + rest.toks
            &&& scan_from(s, i, line).errs == msgs_to_errors(st.errs, line2) + rest.errs
        }),
{
    lemma_scan_step_advances(s, i);
}

/// The emitted kinds of one round as tokens, all on the given line.
pub open spec fn kinds_to_tokens(ks: Seq<TokenView>, line: int) -> Seq<TokenValue> {
    ks.map_values(|k| TokenValue { kind: k, line })
}

/// The emitted messages of one round as diagnostics, all on the given line.
pub open spec fn msgs_to_errors(msgs: Seq<Seq<char>>, line: int) -> Seq<ErrorValue> {
    msgs.map_values(|m| ErrorValue { msg: m, line })
}

/// The views of a produced token sequence.
pub open spec fn token_views(ts: Seq<Token>) -> Seq<TokenValue> {
    ts.map_values(|t: Token| t@)
}

/// Unfolds one round that emits a single token and no diagnostic.
proof fn lemma_step_token(s: Seq<char>, i: int, line: int, k: TokenView)
    requires
        0 <= i < s.len(),
        scan_step(s, i).toks =~= seq![k],
        scan_step(s, i).errs =~= Seq::<Seq<char>>::empty(),
        scan_step(s, i).delta == 0,
    ensures
        scan_from(s, i, line).toks =~= seq![TokenValue { kind: k, line }] + scan_from(
            s,
            scan_step(s, i).next,
            line,
        ).toks,
        scan_from(s, i, line).errs =~= scan_from(s, scan_step(s, i).next, line).errs,
{
    lemma_scan_from_step(s, i, line);
    assert(kinds_to_tokens(scan_step(s, i).toks, line) =~= seq![TokenValue { kind: k, line }]);
    assert(msgs_to_errors(scan_step(s, i).errs, line) =~= Seq::<ErrorValue>::empty());
}

/// Unfolds one round that emits nothing.
proof fn lemma_step_skip(s: Seq<char>, i: int, line: int)
    requires
        0 <= i < s.len(),
        scan_step(s, i).toks =~= Seq::<TokenView>::empty(),
        scan_step(s, i).errs =~= Seq::<Seq<char>>::empty(),
    ensures
        scan_from(s, i, line).toks =~= scan_from(
            s,
            scan_step(s, i).next,
            line + scan_step(s, i).delta,
        ).toks,
        scan_from(s, i, line).errs =~= scan_from(
            s,
            scan_step(s, i).next,
            line + scan_step(s, i).delta,
        ).errs,
{
    lemma_scan_from_step(s, i, line);
    assert(kinds_to_tokens(scan_step(s, i).toks, line + scan_step(s, i).delta)
        =~= Seq::<TokenValue>::empty());
    assert(msgs_to_errors(scan_step(s, i).errs, line + scan_step(s, i).delta)
        =~= Seq::<ErrorValue>::empty());
}

/// Unfolds one round that emits no token and the given diagnostics.
proof fn lemma_step_errors(s: Seq<char>, i: int, line: int, msgs: Seq<Seq<char>>)
    requires
        0 <= i < s.len(),
        scan_step(s, i).toks =~= Seq::<TokenView>::empty(),
        scan_step(s, i).errs =~= msgs,
        scan_step(s, i).delta == 0,
    ensures
        scan_from(s, i, line).toks =~= scan_from(s, scan_step(s, i).next, line).toks,
        scan_from(s, i, line).errs =~= msgs_to_errors(msgs, line) + scan_from(
            s,
            scan_step(s, i).next,
            line,
        ).errs,
{
    lemma_scan_from_step(s, i, line);
    assert(kinds_to_tokens(scan_step(s, i).toks, line) =~= Seq::<TokenValue>::empty());
    assert(msgs_to_errors(scan_step(s, i).errs, line) =~= msgs_to_errors(msgs, line));
}

/// The character-stream scanner. It owns the source as characters, the
/// cursor index, the 1-based line counter, and the diagnostics of the scan.
#[derive(Debug)]
pub struct Scanner {
    pub source_code: Vec<char>,
    curr_idx: usize,
    curr_line: usize,
    pub error_handler: ErrorHandler,
}

impl Scanner {
    /// The source under the cursor.
    pub closed spec fn chars(&self) -> Seq<char> {
        self.source_code@
    }

    /// The cursor's position.
    pub closed spec fn pos(&self) -> int {
        self.curr_idx as int
    }

    /// The current line, starting from one.
    pub closed spec fn line(&self) -> int {
        self.curr_line as int
    }

    /// The diagnostics recorded so far.
    pub closed spec fn errors(&self) -> Seq<ErrorValue> {
        self.error_handler@
    }

    /// The cursor stays within the source, and the line count starts at
    /// one and grows by at most one per consumed character, so it fits the
    /// machine's integers.
    pub open spec fn wf(&self) -> bool {
        &&& 0 <= self.pos() <= self.chars().len()
        &&& 1 <= self.line() <= 1 + self.pos()
        &&& self.chars().len() < usize::MAX
    }

    /// A fresh scanner over the given source, at its start, on line one,
    /// with the given diagnostics collection.
    pub fn new(source_code: &str, error_handler: ErrorHandler) -> (r: Scanner)
        requires
            source_code@.len() < usize::MAX,
        ensures
            r.chars() == source_code@,
            r.pos() == 0,
            r.line() == 1,
            r.errors() == error_handler@,
            r.wf(),
            r.elements() == source_code@,
            r.position() == 0,
    {
        Scanner { source_code: str_chars(source_code), curr_idx: 0, curr_line: 1, error_handler }
    }

    /// Scans the remaining source to its end and returns the token
    /// sequence, exactly as `scan_from` describes it from the cursor's
    /// position and line: every round's token in order, closed by one
    /// end-of-input token, with every diagnostic appended to the
    /// scanner's collection in order.
    #[verifier::loop_isolation(false)]
    #[verifier::rlimit(100)]
    pub fn scan_source(&mut self) -> (r: Vec<Token>)
        requires
            old(self).wf(),
        ensures
            final(self).wf(),
            final(self).chars() == old(self).chars(),
            final(self).pos() == old(self).chars().len(),
            token_views(r@) == scan_from(
                old(self).chars(),
                old(self).pos(),
                old(self).line(),
            ).toks,
            final(self).errors() == old(self).errors() + scan_from(
                old(self).chars(),
                old(self).pos(),
                old(self).line(),
            ).errs,
    {
        let ghost s = self.source_code@;
        let ghost i0 = self.pos();
        let ghost l0 = self.line();
        let ghost eh0 = self.errors();
        let ghost mut toks_done: Seq<TokenValue> = Seq::empty();
        let ghost mut errs_done: Seq<ErrorValue> = Seq::empty();
        let mut tokens: Vec<Token> = Vec::new();
        proof {
            assert(token_views(tokens@) =~= toks_done);
            assert(self.errors() =~= eh0 + errs_done);
            assert(scan_from(s, i0, l0).toks =~= toks_done + scan_from(s, i0, l0).toks);
            assert(scan_from(s, i0, l0).errs =~= errs_done + scan_from(s, i0, l0).errs);
        }
        while self.curr_idx < self.source_code.len()
            invariant
                self.wf(),
                self.chars() == s,
                token_views(tokens@) == toks_done,
                self.errors() == eh0 + errs_done,
                scan_from(s, i0, l0).toks == toks_done + scan_from(s, self.pos(), self.line()).toks,
                scan_from(s, i0, l0).errs == errs_done + scan_from(s, self.pos(), self.line()).errs,
            decreases s.len() - self.pos(),
        {
            let ghost i = self.pos();
            let ghost l = self.line();
            let c = self.source_code[self.curr_idx];
            self.curr_idx = self.curr_idx + 1;
            if c == '\n' {
                self.curr_line = self.curr_line + 1;
                proof {
                    assert(scan_step(s, i).next == i + 1 && scan_step(s, i).delta == 1);
                    assert(scan_step(s, i).toks =~= Seq::<TokenView>::empty());
                    assert(scan_step(s, i).errs =~= Seq::<Seq<char>>::empty());
                    lemma_step_skip(s, i, l);
                }
                continue ;
            }
            let ghost mut inner: Seq<Seq<char>> = Seq::empty();
            let token_type: TokenType = if c == '=' {
                if self.is_next('=') {
                    self.curr_idx = self.curr_idx + 1;
                    proof {
                        assert(scan_step(s, i).next == i + 2 && scan_step(s, i).delta == 0);
                        assert(scan_step(s, i).toks =~= seq![TokenView::EqualEqual]);
                        assert(scan_step(s, i).errs =~= Seq::<Seq<char>>::empty());
                    }
                    TokenType::EqualEqual
                } else {
                    proof {
                        assert(scan_step(s, i).next == i + 1 && scan_step(s, i).delta == 0);
                        assert(scan_step(s, i).toks =~= seq![TokenView::Equal]);
                        assert(scan_step(s, i).errs =~= Seq::<Seq<char>>::empty());
                    }
                    TokenType::Equal
                }
            } else if c == '!' {
                if self.is_next('=') {
                    self.curr_idx = self.curr_idx + 1;
                    proof {
                        assert(scan_step(s, i).next == i + 2 && scan_step(s, i).delta == 0);
                        assert(scan_step(s, i).toks =~= seq![TokenView::BangEqual]);
                        assert(scan_step(s, i).errs =~= Seq::<Seq<char>>::empty());
                    }
                    TokenType::BangEqual
                } else {
                    proof {
                        assert(scan_step(s, i).next == i + 1 && scan_step(s, i).delta == 0);
                        assert(scan_step(s, i).toks =~= seq![TokenView::Bang]);
                        assert(scan_step(s, i).errs =~= Seq::<Seq<char>>::empty());
                    }
                    TokenType::Bang
                }
            } else if c == '<' {
                if self.is_next('=') {
                    self.curr_idx = self.curr_idx + 1;
                    proof {
                        assert(scan_step(s, i).next == i + 2 && scan_step(s, i).delta == 0);
                        assert(scan_step(s, i).toks =~= seq![TokenView::LessEqual]);
                        assert(scan_step(s, i).errs =~= Seq::<Seq<char>>::empty());
                    }
                    TokenType::LessEqual
                } else {
                    proof {
                        assert(scan_step(s, i).next == i + 1 && scan_step(s, i).delta == 0);
                        assert(scan_step(s, i).toks =~= seq![TokenView::Less]);
                        assert(scan_step(s, i).errs =~= Seq::<Seq<char>>::empty());
                    }
                    TokenType::Less
                }
            } else if c == '>' {
                if self.is_next('=') {
                    self.curr_idx = self.curr_idx + 1;
                    proof {
                        assert(scan_step(s, i).next == i + 2 && scan_step(s, i).delta == 0);
                        assert(scan_step(s, i).toks =~= seq![TokenView::GreaterEqual]);
                        assert(scan_step(s, i).errs =~= Seq::<Seq<char>>::empty());
                    }
                    TokenType::GreaterEqual
                } else {
                    proof {
                        assert(scan_step(s, i).next == i + 1 && scan_step(s, i).delta == 0);
                        assert(scan_step(s, i).toks =~= seq![TokenView::Greater]);
                        assert(scan_step(s, i).errs =~= Seq::<Seq<char>>::empty());
                    }
                    TokenType::Greater
                }
            } else if c == '/' {
                if self.is_next('/') {
                    let ghost k = find_char(s, i + 1, '\n');
                    proof {
                        lemma_find_char(s, i + 1, '\n');
                    }
                    self.read_until('\n');
                    if self.source_code[self.curr_idx - 1] == '\n' {
                        self.curr_line = self.curr_line + 1;
                    }
                    proof {
                        if k < s.len() {
                            assert(scan_step(s, i).next == k + 1 && scan_step(s, i).delta == 1);
                        } else {
                            assert(s[self.pos() - 1] != '\n');
                            assert(scan_step(s, i).next == s.len() && scan_step(s, i).delta == 0);
                        }
                        assert(scan_step(s, i).toks =~= Seq::<TokenView>::empty());
                        assert(scan_step(s, i).errs =~= Seq::<Seq<char>>::empty());
                        lemma_step_skip(s, i, l);
                    }
                    continue ;
                } else {
                    proof {
                        assert(scan_step(s, i).next == i + 1 && scan_step(s, i).delta == 0);
                        assert(scan_step(s, i).toks =~= seq![TokenView::Slash]);
                        assert(scan_step(s, i).errs =~= Seq::<Seq<char>>::empty());
                    }
                    TokenType::Slash
                }
            } else if c == '"' {
                let t = self.get_string_token();
                proof {
                    let k = find_char(s, i + 1, '"');
                    if k < s.len() {
                        assert(scan_step(s, i).next == k + 1 && scan_step(s, i).delta == 0);
                        assert(scan_step(s, i).toks =~= seq![t@]);
                        assert(scan_step(s, i).errs =~= Seq::<Seq<char>>::empty());
                    } else {
                        inner = seq![unterminated_message()];
                        assert(t@ == TokenView::NoToken);
                        assert(scan_step(s, i).next == s.len() && scan_step(s, i).delta == 0);
                        assert(scan_step(s, i).toks =~= Seq::<TokenView>::empty());
                        assert(scan_step(s, i).errs =~= inner + seq![unexpected_message(c)]);
                    }
                }
                t
            } else {
                if c.is_whitespace() {
                    proof {
                        assert(scan_step(s, i).next == i + 1 && scan_step(s, i).delta == 0);
                        assert(scan_step(s, i).toks =~= Seq::<TokenView>::empty());
                        assert(scan_step(s, i).errs =~= Seq::<Seq<char>>::empty());
                        lemma_step_skip(s, i, l);
                    }
                    continue ;
                }
                let mut token = TokenType::NoToken;
                let mut key = String::new();
                push_char(&mut key, c);
                proof {
                    assert(key@ =~= seq![c]);
                }
                if let Some(t) = self.get_from_factory(key) {
                    token = t;
                    proof {
                        assert(single_char_kind(c) == Some(t@));
                        assert(scan_step(s, i).next == i + 1 && scan_step(s, i).delta == 0);
                        assert(scan_step(s, i).toks =~= seq![t@]);
                        assert(scan_step(s, i).errs =~= Seq::<Seq<char>>::empty());
                    }
                } else {
                    proof {
                        assert(single_char_kind(c) is None);
                    }
                    if c.is_numeric() {
                        token = match self.get_number() {
                            Some(t) => t,
                            None => TokenType::NoToken,
                        };
                        proof {
                            let e = number_run_end(s, i);
                            let lex = s.subrange(i, e);
                            assert(scan_step(s, i).next == e && scan_step(s, i).delta == 0);
                            if valid_number_lexeme(lex) {
                                assert(scan_step(s, i).toks =~= seq![token@]);
                                assert(scan_step(s, i).errs =~= Seq::<Seq<char>>::empty());
                            } else {
                                inner = seq![bad_number_message()];
                                assert(token@ == TokenView::NoToken);
                                assert(scan_step(s, i).toks =~= Seq::<TokenView>::empty());
                                assert(scan_step(s, i).errs =~= inner + seq![unexpected_message(c)]);
                            }
                        }
                    } else if c.is_alphanumeric() {
                        token = self.get_keyword_or_identifier();
                        proof {
                            let e = ident_run_end(s, i);
                            assert(scan_step(s, i).next == e && scan_step(s, i).delta == 0);
                            assert(scan_step(s, i).toks =~= seq![token@]);
                            assert(scan_step(s, i).errs =~= Seq::<Seq<char>>::empty());
                        }
                    } else {
                        proof {
                            assert(token@ == TokenView::NoToken);
                            assert(scan_step(s, i).next == i + 1 && scan_step(s, i).delta == 0);
                            assert(scan_step(s, i).toks =~= Seq::<TokenView>::empty());
                            assert(scan_step(s, i).errs =~= inner + seq![unexpected_message(c)]);
                        }
                    }
                }
                token
            };
            proof {
                assert(self.pos() == scan_step(s, i).next);
                lemma_scan_step_advances(s, i);
            }
            if token_type != TokenType::NoToken {
                proof {
                    lemma_step_token(s, i, l, token_type@);
                }
                tokens.push(Token::new(token_type, self.curr_line));
                proof {
                    toks_done = toks_done + seq![tokens@.last()@];
                    assert(token_views(tokens@) =~= toks_done);
                    assert(scan_from(s, i0, l0).toks =~= toks_done + scan_from(
                        s,
                        self.pos(),
                        self.line(),
                    ).toks);
                }
            } else {
                let ghost msgs = inner + seq![unexpected_message(c)];
                proof {
                    assert(scan_step(s, i).toks =~= Seq::<TokenView>::empty());
                    assert(scan_step(s, i).errs =~= msgs);
                    lemma_step_errors(s, i, l, msgs);
                }
                let mut msg = String::from_str("Unexpected character: ");
                push_char(&mut msg, c);
                self.error_handler.report(msg, self.curr_line);
                proof {
                    assert(msgs_to_errors(msgs, l) =~= msgs_to_errors(inner, l).push(
                        ErrorValue { msg: unexpected_message(c), line: l },
                    ));
                    errs_done = errs_done + msgs_to_errors(msgs, l);
                    assert(self.errors() =~= eh0 + errs_done);
                    assert(scan_from(s, i0, l0).errs =~= errs_done + scan_from(
                        s,
                        self.pos(),
                        self.line(),
                    ).errs);
                }
            }
        }
        tokens.push(Token::new(TokenType::EOF, self.curr_line));
        proof {
            assert(scan_from(s, self.pos(), self.line()).toks =~= seq![
                TokenValue { kind: TokenView::EOF, line: self.line() },
            ]);
            assert(scan_from(s, self.pos(), self.line()).errs =~= Seq::<ErrorValue>::empty());
            assert(token_views(tokens@) =~= scan_from(s, i0, l0).toks);
            assert(self.errors() =~= eh0 + scan_from(s, i0, l0).errs);
        }
        tokens
    }

    /// Whether the character under the cursor is `c`; the cursor does not
    /// move, and the end of input matches nothing.
    pub fn is_next(&self, c: char) -> (r: bool)
        ensures
            r == (self.pos() < self.chars().len() && self.chars()[self.pos()] == c),
    {
        if let Some(next) = self.peek() {
            next == c
        } else {
            false
        }
    }

    /// Consumes characters until `end` has been consumed, or the input is
    /// exhausted; the line counter and the diagnostics are untouched.
    #[verifier::loop_isolation(false)]
    pub fn read_until(&mut self, end: char)
        requires
            old(self).wf(),
        ensures
            final(self).wf(),
            final(self).chars() == old(self).chars(),
            final(self).line() == old(self).line(),
            final(self).errors() == old(self).errors(),
            ({
                let k = find_char(old(self).chars(), old(self).pos(), end);
                final(self).pos() == if k < old(self).chars().len() {
                    k + 1
                } else {
                    k
                }
            }),
    {
        let ghost s = self.source_code@;
        let ghost p0 = self.pos();
        while self.curr_idx < self.source_code.len()
            invariant
                self.wf(),
                self.chars() == s,
                self.line() == old(self).line(),
                self.error_handler == old(self).error_handler,
                p0 <= self.pos(),
                forall|k: int| p0 <= k < self.pos() ==> s[k] != end,
            decreases s.len() - self.pos(),
        {
            let c = self.source_code[self.curr_idx];
            self.curr_idx = self.curr_idx + 1;
            if c == end {
                proof {
                    lemma_find_char_is(s, p0, end, self.pos() - 1);
                }
                return ;
            }
        }
        proof {
            lemma_find_char_is(s, p0, end, s.len() as int);
        }
    }

    /// Reads the rest of a string literal, the opening quote already
    /// consumed: everything up to the closing quote becomes the literal's
    /// text, and input ending first is recorded as a diagnostic, with the
    /// sentinel kind returned in place of a token.
    #[verifier::loop_isolation(false)]
    fn get_string_token(&mut self) -> (r: TokenType)
        requires
            old(self).wf(),
        ensures
            final(self).wf(),
            final(self).chars() == old(self).chars(),
            final(self).line() == old(self).line(),
            ({
                let s = old(self).chars();
                let k = find_char(s, old(self).pos(), '"');
                if k < s.len() {
                    &&& r@ == TokenView::Str(s.subrange(old(self).pos(), k))
                    &&& final(self).pos() == k + 1
                    &&& final(self).error_handler == old(self).error_handler
                } else {
                    &&& r@ == TokenView::NoToken
                    &&& final(self).pos() == s.len()
                    &&& final(self).error_handler@ == old(self).error_handler@.push(
                        ErrorValue { msg: unterminated_message(), line: old(self).line() },
                    )
                }
            }),
    {
        let ghost s = self.source_code@;
        let ghost p0 = self.pos();
        let mut string_chars: Vec<char> = Vec::new();
        proof {
            assert(string_chars@ =~= s.subrange(p0, p0));
        }
        while self.curr_idx < self.source_code.len()
            invariant
                self.wf(),
                self.chars() == s,
                self.line() == old(self).line(),
                self.error_handler == old(self).error_handler,
                0 <= p0 <= self.pos(),
                string_chars@ == s.subrange(p0, self.pos()),
                forall|k: int| p0 <= k < self.pos() ==> s[k] != '"',
            decreases s.len() - self.pos(),
        {
            let c = self.source_code[self.curr_idx];
            self.curr_idx = self.curr_idx + 1;
            if c == '"' {
                proof {
                    lemma_find_char_is(s, p0, '"', self.pos() - 1);
                }
                return TokenType::String(string_from_chars(&string_chars));
            }
            string_chars.push(c);
            proof {
                assert(string_chars@ =~= s.subrange(p0, self.pos()));
            }
        }
        proof {
            lemma_find_char_is(s, p0, '"', s.len() as int);
        }
        self.error_handler.report(String::from_str("Non-terminated string value"), self.curr_line);
        TokenType::NoToken
    }

    /// Reads a keyword or identifier whose first character was already
    /// consumed: steps back once, accumulates the alphanumeric run, and
    /// looks the word up in the table — an exact match is the keyword,
    /// anything else an identifier carrying its own text.
    #[verifier::loop_isolation(false)]
    fn get_keyword_or_identifier(&mut self) -> (r: TokenType)
        requires
            old(self).wf(),
            old(self).pos() >= 1,
            old(self).line() <= old(self).pos(),
        ensures
            final(self).wf(),
            final(self).chars() == old(self).chars(),
            final(self).line() == old(self).line(),
            final(self).error_handler == old(self).error_handler,
            ({
                let s = old(self).chars();
                let i = old(self).pos() - 1;
                let e = ident_run_end(s, i);
                &&& final(self).pos() == e
                &&& r@ == ident_kind(s.subrange(i, e))
            }),
    {
        let ghost s = self.source_code@;
        self.curr_idx = self.curr_idx - 1;
        let ghost i0 = self.pos();
        let mut keyword_chars: Vec<char> = Vec::new();
        proof {
            assert(keyword_chars@ =~= s.subrange(i0, i0));
        }
        while self.curr_idx < self.source_code.len() && self.source_code[self.curr_idx].is_alphanumeric()
            invariant
                self.wf(),
                self.chars() == s,
                self.line() == old(self).line(),
                self.error_handler == old(self).error_handler,
                0 <= i0 <= self.pos(),
                keyword_chars@ == s.subrange(i0, self.pos()),
                forall|k: int| i0 <= k < self.pos() ==> alphanumeric_pred()(s[k]),
            decreases s.len() - self.pos(),
        {
            keyword_chars.push(self.source_code[self.curr_idx]);
            self.curr_idx = self.curr_idx + 1;
            proof {
                assert(keyword_chars@ =~= s.subrange(i0, self.pos()));
            }
        }
        proof {
            lemma_run_end_is(s, i0, alphanumeric_pred(), self.pos());
        }
        match TokenType::from_lexeme(&keyword_chars) {
            Some(kw) => kw,
            None => TokenType::Identifier(string_from_chars(&keyword_chars)),
        }
    }

    /// Reads a numeric literal whose first character was already consumed:
    /// steps back once, accumulates the digit-and-point run, and either
    /// yields the number token or records the parse failure and yields
    /// nothing.
    #[verifier::loop_isolation(false)]
    fn get_number(&mut self) -> (r: Option<TokenType>)
        requires
            old(self).wf(),
            old(self).pos() >= 1,
            old(self).line() <= old(self).pos(),
        ensures
            final(self).wf(),
            final(self).chars() == old(self).chars(),
            final(self).line() == old(self).line(),
            ({
                let s = old(self).chars();
                let i = old(self).pos() - 1;
                let e = number_run_end(s, i);
                let lex = s.subrange(i, e);
                &&& final(self).pos() == e
                &&& if valid_number_lexeme(lex) {
                    &&& r matches Some(t) && t@ == TokenView::Num(number_of_lexeme(lex))
                    &&& final(self).error_handler == old(self).error_handler
                } else {
                    &&& r is None
                    &&& final(self).error_handler@ == old(self).error_handler@.push(
                        ErrorValue { msg: bad_number_message(), line: old(self).line() },
                    )
                }
            }),
    {
        let ghost s = self.source_code@;
        self.curr_idx = self.curr_idx - 1;
        let ghost i0 = self.pos();
        let mut number_chars: Vec<char> = Vec::new();
        proof {
            assert(number_chars@ =~= s.subrange(i0, i0));
        }
        while self.curr_idx < self.source_code.len() && (self.source_code[self.curr_idx].is_numeric()
            || self.source_code[self.curr_idx] == '.')
            invariant
                self.wf(),
                self.chars() == s,
                self.line() == old(self).line(),
                self.error_handler == old(self).error_handler,
                0 <= i0 <= self.pos(),
                number_chars@ == s.subrange(i0, self.pos()),
                forall|k: int| i0 <= k < self.pos() ==> numeric_or_dot()(s[k]),
            decreases s.len() - self.pos(),
        {
            number_chars.push(self.source_code[self.curr_idx]);
            self.curr_idx = self.curr_idx + 1;
            proof {
                assert(number_chars@ =~= s.subrange(i0, self.pos()));
            }
        }
        proof {
            lemma_run_end_is(s, i0, numeric_or_dot(), self.pos());
        }
        match Number::from_lexeme(&number_chars) {
            Some(n) => Some(TokenType::Number(n)),
            None => {
                self.error_handler.report(
                    String::from_str("impossible to parse a number"),
                    self.curr_line,
                );
                None
            },
        }
    }

    /// Looks one spelling up in the lexeme correspondence table.
    fn get_from_factory(&self, key: String) -> (r: Option<TokenType>)
        ensures
            (r is None) == (lexeme_kind(key@) is None),
            r matches Some(t) ==> lexeme_kind(key@) == Some(t@),
    {
        TokenType::from_lexeme(&str_chars(key.as_str()))
    }
}

impl SuperIterator for Scanner {
    type Item = char;

    closed spec fn elements(&self) -> Seq<char> {
        self.source_code@
    }

    closed spec fn position(&self) -> int {
        self.curr_idx as int
    }

    fn next(&mut self) -> (r: Option<char>) {
        if self.curr_idx < self.source_code.len() {
            let curr_char = self.source_code[self.curr_idx];
            self.curr_idx = self.curr_idx + 1;
            Some(curr_char)
        } else {
            None
        }
    }

    fn prev(&mut self) -> (r: Option<char>) {
        if self.curr_idx > 0 && self.curr_idx <= self.source_code.len() {
            let expected_idx = self.curr_idx - 1;
            let curr_char = self.source_code[expected_idx];
            self.curr_idx = expected_idx;
            Some(curr_char)
        } else {
            None
        }
    }

    fn peek(&self) -> (r: Option<char>) {
        if self.curr_idx < self.source_code.len() {
            Some(self.source_code[self.curr_idx])
        } else {
            None
        }
    }

    fn peek_next(&self) -> (r: Option<char>) {
        if self.curr_idx < self.source_code.len() {
            let expected_idx = self.curr_idx + 1;
            if expected_idx < self.source_code.len() {
                Some(self.source_code[expected_idx])
            } else {
                None
            }
        } else {
            None
        }
    }
}

} // verus!
