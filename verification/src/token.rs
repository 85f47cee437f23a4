//! The token model: the closed set of token kinds, the fixed lexeme
//! correspondence table, and the textual renderings of tokens.

pub mod number;

use crate::text::dec_str;
use crate::token::number::{number_rendering, Number, NumberValue};
use vstd::prelude::*;
use vstd::string::StringExecFns;

verus! {

/// A classified lexical unit. `NoToken` is an internal sentinel meaning "no
/// token produced"; it is never appended to a scan's output.
#[derive(Debug)]
pub enum TokenType {
    NoToken,
    EOF,
    String(String),
    Number(Number),
    Identifier(String),
    Semicolon,
    LeftParen,
    RightParen,
    LeftBrace,
    RightBrace,
    Comma,
    Dot,
    Minus,
    Plus,
    Star,
    Slash,
    Equal,
    EqualEqual,
    Bang,
    BangEqual,
    Less,
    LessEqual,
    Greater,
    GreaterEqual,
    And,
    Or,
    Var,
    True,
    False,
    If,
    Else,
    While,
    Class,
    Super,
    For,
    Fun,
    Nil,
}

/// The mathematical content of a token kind.
#[verifier::ext_equal]
pub enum TokenView {
    NoToken,
    EOF,
    Str(Seq<char>),
    Num(NumberValue),
    Ident(Seq<char>),
    Semicolon,
    LeftParen,
    RightParen,
    LeftBrace,
    RightBrace,
    Comma,
    Dot,
    Minus,
    Plus,
    Star,
    Slash,
    Equal,
    EqualEqual,
    Bang,
    BangEqual,
    Less,
    LessEqual,
    Greater,
    GreaterEqual,
    And,
    Or,
    Var,
    True,
    False,
    If,
    Else,
    While,
    Class,
    Super,
    For,
    Fun,
    Nil,
}

impl View for TokenType {
    type V = TokenView;

    open spec fn view(&self) -> TokenView {
        match self {
            TokenType::NoToken => TokenView::NoToken,
            TokenType::EOF => TokenView::EOF,
            TokenType::String(s) => TokenView::Str(s@),
            TokenType::Number(n) => TokenView::Num(n@),
            TokenType::Identifier(s) => TokenView::Ident(s@),
            TokenType::Semicolon => TokenView::Semicolon,
            TokenType::LeftParen => TokenView::LeftParen,
            TokenType::RightParen => TokenView::RightParen,
            TokenType::LeftBrace => TokenView::LeftBrace,
            TokenType::RightBrace => TokenView::RightBrace,
            TokenType::Comma => TokenView::Comma,
            TokenType::Dot => TokenView::Dot,
            TokenType::Minus => TokenView::Minus,
            TokenType::Plus => TokenView::Plus,
            TokenType::Star => TokenView::Star,
            TokenType::Slash => TokenView::Slash,
            TokenType::Equal => TokenView::Equal,
            TokenType::EqualEqual => TokenView::EqualEqual,
            TokenType::Bang => TokenView::Bang,
            TokenType::BangEqual => TokenView::BangEqual,
            TokenType::Less => TokenView::Less,
            TokenType::LessEqual => TokenView::LessEqual,
            TokenType::Greater => TokenView::Greater,
            TokenType::GreaterEqual => TokenView::GreaterEqual,
            TokenType::And => TokenView::And,
            TokenType::Or => TokenView::Or,
            TokenType::Var => TokenView::Var,
            TokenType::True => TokenView::True,
            TokenType::False => TokenView::False,
            TokenType::If => TokenView::If,
            TokenType::Else => TokenView::Else,
            TokenType::While => TokenView::While,
            TokenType::Class => TokenView::Class,
            TokenType::Super => TokenView::Super,
            TokenType::For => TokenView::For,
            TokenType::Fun => TokenView::Fun,
            TokenType::Nil => TokenView::Nil,
        }
    }
}

/// The fixed kind for a one-character lexeme, if the table holds it.
pub open spec fn single_char_kind(c: char) -> Option<TokenView> {
    if c == ';' {
        Some(TokenView::Semicolon)
    } else if c == '(' {
        Some(TokenView::LeftParen)
    } else if c == ')' {
        Some(TokenView::RightParen)
    } else if c == '{' {
        Some(TokenView::LeftBrace)
    } else if c == '}' {
        Some(TokenView::RightBrace)
    } else if c == ',' {
        Some(TokenView::Comma)
    } else if c == '.' {
        Some(TokenView::Dot)
    } else if c == '-' {
        Some(TokenView::Minus)
    } else if c == '+' {
        Some(TokenView::Plus)
    } else if c == '*' {
        Some(TokenView::Star)
    } else if c == '/' {
        Some(TokenView::Slash)
    } else if c == '=' {
        Some(TokenView::Equal)
    } else if c == '!' {
        Some(TokenView::Bang)
    } else if c == '<' {
        Some(TokenView::Less)
    } else if c == '>' {
        Some(TokenView::Greater)
    } else if c == '&' {
        Some(TokenView::And)
    } else if c == '|' {
        Some(TokenView::Or)
    } else {
        None
    }
}

/// The lexeme correspondence table, read from spelling to kind: the empty
/// spelling stands for end of input, then the one-character marks, the
/// two-character operators, and the keywords, matched exactly.
pub open spec fn lexeme_kind(w: Seq<char>) -> Option<TokenView> {
    if w.len() == 0 {
        Some(TokenView::EOF)
    } else if w.len() == 1 {
        single_char_kind(w[0])
    } else if w.len() == 2 {
        if w[0] == '=' && w[1] == '=' {
            Some(TokenView::EqualEqual)
        } else if w[0] == '!' && w[1] == '=' {
            Some(TokenView::BangEqual)
        } else if w[0] == '<' && w[1] == '=' {
            Some(TokenView::LessEqual)
        } else if w[0] == '>' && w[1] == '=' {
            Some(TokenView::GreaterEqual)
        } else if w[0] == 'i' && w[1] == 'f' {
            Some(TokenView::If)
        } else {
            None
        }
    } else if w.len() == 3 {
        if w[0] == 'v' && w[1] == 'a' && w[2] == 'r' {
            Some(TokenView::Var)
        } else if w[0] == 'f' && w[1] == 'o' && w[2] == 'r' {
            Some(TokenView::For)
        } else if w[0] == 'f' && w[1] == 'u' && w[2] == 'n' {
            Some(TokenView::Fun)
        } else if w[0] == 'N' && w[1] == 'i' && w[2] == 'l' {
            Some(TokenView::Nil)
        } else {
            None
        }
    } else if w.len() == 4 {
        if w[0] == 't' && w[1] == 'r' && w[2] == 'u' && w[3] == 'e' {
            Some(TokenView::True)
        } else if w[0] == 'e' && w[1] == 'l' && w[2] == 's' && w[3] == 'e' {
            Some(TokenView::Else)
        } else {
            None
        }
    } else if w.len() == 5 {
        if w[0] == 'f' && w[1] == 'a' && w[2] == 'l' && w[3] == 's' && w[4] == 'e' {
            Some(TokenView::False)
        } else if w[0] == 'w' && w[1] == 'h' && w[2] == 'i' && w[3] == 'l' && w[4] == 'e' {
            Some(TokenView::While)
        } else if w[0] == 'c' && w[1] == 'l' && w[2] == 'a' && w[3] == 's' && w[4] == 's' {
            Some(TokenView::Class)
        } else if w[0] == 's' && w[1] == 'u' && w[2] == 'p' && w[3] == 'e' && w[4] == 'r' {
            Some(TokenView::Super)
        } else {
            None
        }
    } else {
        None
    }
}

/// The table read the other way: the canonical spelling of a fixed kind.
/// End of input and the sentinel have no spelling of their own; the kinds
/// that carry a payload are spelled by `token_text`, not here.
pub open spec fn kind_lexeme(k: TokenView) -> Seq<char> {
    match k {
        TokenView::Semicolon => seq![';'],
        TokenView::LeftParen => seq!['('],
        TokenView::RightParen => seq![')'],
        TokenView::LeftBrace => seq!['{'],
        TokenView::RightBrace => seq!['}'],
        TokenView::Comma => seq![','],
        TokenView::Dot => seq!['.'],
        TokenView::Minus => seq!['-'],
        TokenView::Plus => seq!['+'],
        TokenView::Star => seq!['*'],
        TokenView::Slash => seq!['/'],
        TokenView::Equal => seq!['='],
        TokenView::EqualEqual => seq!['=', '='],
        TokenView::Bang => seq!['!'],
        TokenView::BangEqual => seq!['!', '='],
        TokenView::Less => seq!['<'],
        TokenView::LessEqual => seq!['<', '='],
        TokenView::Greater => seq!['>'],
        TokenView::GreaterEqual => seq!['>', '='],
        TokenView::And => seq!['&'],
        TokenView::Or => seq!['|'],
        TokenView::Var => seq!['v', 'a', 'r'],
        TokenView::True => seq!['t', 'r', 'u', 'e'],
        TokenView::False => seq!['f', 'a', 'l', 's', 'e'],
        TokenView::If => seq!['i', 'f'],
        TokenView::Else => seq!['e', 'l', 's', 'e'],
        TokenView::While => seq!['w', 'h', 'i', 'l', 'e'],
        TokenView::Class => seq!['c', 'l', 'a', 's', 's'],
        TokenView::Super => seq!['s', 'u', 'p', 'e', 'r'],
        TokenView::For => seq!['f', 'o', 'r'],
        TokenView::Fun => seq!['f', 'u', 'n'],
        TokenView::Nil => seq!['N', 'i', 'l'],
        _ => Seq::empty(),
    }
}

/// The canonical text of a token kind: a literal's own text, a number's
/// rendering, and the table spelling for every fixed kind.
pub open spec fn token_text(k: TokenView) -> Seq<char> {
    match k {
        TokenView::Str(t) => t,
        TokenView::Num(n) => number_rendering(n),
        TokenView::Ident(t) => t,
        _ => kind_lexeme(k),
    }
}

/// The upper-snake-case label of a fixed kind, as diagnostics spell it.
pub open spec fn kind_label(k: TokenView) -> Seq<char> {
    match k {
        TokenView::EOF => "EOF"@,
        TokenView::Semicolon => "SEMICOLON"@,
        TokenView::LeftParen => "LEFT_PAREN"@,
        TokenView::RightParen => "RIGHT_PAREN"@,
        TokenView::LeftBrace => "LEFT_BRACE"@,
        TokenView::RightBrace => "RIGHT_BRACE"@,
        TokenView::Comma => "COMMA"@,
        TokenView::Dot => "DOT"@,
        TokenView::Minus => "MINUS"@,
        TokenView::Plus => "PLUS"@,
        TokenView::Star => "STAR"@,
        TokenView::Slash => "SLASH"@,
        TokenView::Equal => "EQUAL"@,
        TokenView::EqualEqual => "EQUAL_EQUAL"@,
        TokenView::Bang => "BANG"@,
        TokenView::BangEqual => "BANG_EQUAL"@,
        TokenView::Less => "LESS"@,
        TokenView::LessEqual => "LESS_EQUAL"@,
        TokenView::Greater => "GREATER"@,
        TokenView::GreaterEqual => "GREATER_EQUAL"@,
        TokenView::And => "AND"@,
        TokenView::Or => "OR"@,
        TokenView::Var => "VAR"@,
        TokenView::True => "TRUE"@,
        TokenView::False => "FALSE"@,
        TokenView::If => "IF"@,
        TokenView::Else => "ELSE"@,
        TokenView::While => "WHILE"@,
        TokenView::Class => "CLASS"@,
        TokenView::Super => "SUPER"@,
        TokenView::For => "FOR"@,
        TokenView::Fun => "FUN"@,
        TokenView::Nil => "NIL"@,
        _ => Seq::empty(),
    }
}

/// The diagnostic line of a token kind: literals show their payload twice,
/// fixed kinds show label and spelling, and the sentinel is called out as
/// invalid rather than rendered.
pub open spec fn token_display(k: TokenView) -> Seq<char> {
    match k {
        TokenView::Str(t) => "STRING \""@ + t + "\" "@ + t,
        TokenView::Num(n) => "NUMBER "@ + number_rendering(n) + " "@ + number_rendering(n),
        TokenView::Ident(t) => "IDENTIFIER "@ + t + " null"@,
        TokenView::NoToken => "INVALID TOKEN"@,
        _ => kind_label(k) + " "@ + kind_lexeme(k) + " null"@,
    }
}

impl TokenType {
    /// Looks a spelling up in the lexeme correspondence table.
    pub fn from_lexeme(w: &Vec<char>) -> (r: Option<TokenType>)
        ensures
            (r is None) == (lexeme_kind(w@) is None),
            r matches Some(t) ==> lexeme_kind(w@) == Some(t@),
    {
        let n = w.len();
        if n == 0 {
            Some(TokenType::EOF)
        } else if n == 1 {
            TokenType::from_single(w[0])
        } else if n == 2 {
            if w[0] == '=' && w[1] == '=' {
                Some(TokenType::EqualEqual)
            } else if w[0] == '!' && w[1] == '=' {
                Some(TokenType::BangEqual)
            } else if w[0] == '<' && w[1] == '=' {
                Some(TokenType::LessEqual)
            } else if w[0] == '>' && w[1] == '=' {
                Some(TokenType::GreaterEqual)
            } else if w[0] == 'i' && w[1] == 'f' {
                Some(TokenType::If)
            } else {
                None
            }
        } else if n == 3 {
            if w[0] == 'v' && w[1] == 'a' && w[2] == 'r' {
                Some(TokenType::Var)
            } else if w[0] == 'f' && w[1] == 'o' && w[2] == 'r' {
                Some(TokenType::For)
            } else if w[0] == 'f' && w[1] == 'u' && w[2] == 'n' {
                Some(TokenType::Fun)
            } else if w[0] == 'N' && w[1] == 'i' && w[2] == 'l' {
                Some(TokenType::Nil)
            } else {
                None
            }
        } else if n == 4 {
            if w[0] == 't' && w[1] == 'r' && w[2] == 'u' && w[3] == 'e' {
                Some(TokenType::True)
            } else if w[0] == 'e' && w[1] == 'l' && w[2] == 's' && w[3] == 'e' {
                Some(TokenType::Else)
            } else {
                None
            }
        } else if n == 5 {
            if w[0] == 'f' && w[1] == 'a' && w[2] == 'l' && w[3] == 's' && w[4] == 'e' {
                Some(TokenType::False)
            } else if w[0] == 'w' && w[1] == 'h' && w[2] == 'i' && w[3] == 'l' && w[4] == 'e' {
                Some(TokenType::While)
            } else if w[0] == 'c' && w[1] == 'l' && w[2] == 'a' && w[3] == 's' && w[4] == 's' {
                Some(TokenType::Class)
            } else if w[0] == 's' && w[1] == 'u' && w[2] == 'p' && w[3] == 'e' && w[4] == 'r' {
                Some(TokenType::Super)
            } else {
                None
            }
        } else {
            None
        }
    }

    fn from_single(c: char) -> (r: Option<TokenType>)
        ensures
            (r is None) == (single_char_kind(c) is None),
            r matches Some(t) ==> single_char_kind(c) == Some(t@),
    {
        match c {
            ';' => Some(TokenType::Semicolon),
            '(' => Some(TokenType::LeftParen),
            ')' => Some(TokenType::RightParen),
            '{' => Some(TokenType::LeftBrace),
            '}' => Some(TokenType::RightBrace),
            ',' => Some(TokenType::Comma),
            '.' => Some(TokenType::Dot),
            '-' => Some(TokenType::Minus),
            '+' => Some(TokenType::Plus),
            '*' => Some(TokenType::Star),
            '/' => Some(TokenType::Slash),
            '=' => Some(TokenType::Equal),
            '!' => Some(TokenType::Bang),
            '<' => Some(TokenType::Less),
            '>' => Some(TokenType::Greater),
            '&' => Some(TokenType::And),
            '|' => Some(TokenType::Or),
            _ => None,
        }
    }

    /// The canonical text of this kind: payloads as themselves, fixed kinds
    /// by their table spelling, end of input and the sentinel as empty.
    pub fn to_str(&self) -> (r: String)
        ensures
            r@ == token_text(self@),
    {
        match self {
            TokenType::String(s) => s.clone(),
            TokenType::Number(n) => n.render(),
            TokenType::Identifier(s) => s.clone(),
            _ => self.lexeme_text(),
        }
    }

    fn lexeme_text(&self) -> (r: String)
        ensures
            r@ == kind_lexeme(self@),
    {
        let w: Vec<char> = match self {
            TokenType::Semicolon => vec![';'],
            TokenType::LeftParen => vec!['('],
            TokenType::RightParen => vec![')'],
            TokenType::LeftBrace => vec!['{'],
            TokenType::RightBrace => vec!['}'],
            TokenType::Comma => vec![','],
            TokenType::Dot => vec!['.'],
            TokenType::Minus => vec!['-'],
            TokenType::Plus => vec!['+'],
            TokenType::Star => vec!['*'],
            TokenType::Slash => vec!['/'],
            TokenType::Equal => vec!['='],
            TokenType::EqualEqual => vec!['=', '='],
            TokenType::Bang => vec!['!'],
            TokenType::BangEqual => vec!['!', '='],
            TokenType::Less => vec!['<'],
            TokenType::LessEqual => vec!['<', '='],
            TokenType::Greater => vec!['>'],
            TokenType::GreaterEqual => vec!['>', '='],
            TokenType::And => vec!['&'],
            TokenType::Or => vec!['|'],
            TokenType::Var => vec!['v', 'a', 'r'],
            TokenType::True => vec!['t', 'r', 'u', 'e'],
            TokenType::False => vec!['f', 'a', 'l', 's', 'e'],
            TokenType::If => vec!['i', 'f'],
            TokenType::Else => vec!['e', 'l', 's', 'e'],
            TokenType::While => vec!['w', 'h', 'i', 'l', 'e'],
            TokenType::Class => vec!['c', 'l', 'a', 's', 's'],
            TokenType::Super => vec!['s', 'u', 'p', 'e', 'r'],
            TokenType::For => vec!['f', 'o', 'r'],
            TokenType::Fun => vec!['f', 'u', 'n'],
            TokenType::Nil => vec!['N', 'i', 'l'],
            _ => Vec::new(),
        };
        crate::text::string_from_chars(&w)
    }

    /// The diagnostic line of this kind, label first, then the canonical
    /// text, then the payload or a placeholder.
    pub fn display(&self) -> (r: String)
        ensures
            r@ == token_display(self@),
    {
        match self {
            TokenType::String(s) => {
                let mut r = String::from_str("STRING \"");
                r.append(s.as_str());
                r.append("\" ");
                r.append(s.as_str());
                assert(r@ =~= token_display(self@));
                r
            },
            TokenType::Number(n) => {
                let t = n.render();
                let mut r = String::from_str("NUMBER ");
                r.append(t.as_str());
                r.append(" ");
                r.append(t.as_str());
                assert(r@ =~= token_display(self@));
                r
            },
            TokenType::Identifier(s) => {
                let mut r = String::from_str("IDENTIFIER ");
                r.append(s.as_str());
                r.append(" null");
                assert(r@ =~= token_display(self@));
                r
            },
            TokenType::NoToken => String::from_str("INVALID TOKEN"),
            _ => {
                let mut r = self.label_text();
                r.append(" ");
                let lex = self.lexeme_text();
                r.append(lex.as_str());
                r.append(" null");
                assert(r@ =~= token_display(self@));
                r
            },
        }
    }

    fn label_text(&self) -> (r: String)
        ensures
            r@ == kind_label(self@),
    {
        match self {
            TokenType::EOF => String::from_str("EOF"),
            TokenType::Semicolon => String::from_str("SEMICOLON"),
            TokenType::LeftParen => String::from_str("LEFT_PAREN"),
            TokenType::RightParen => String::from_str("RIGHT_PAREN"),
            TokenType::LeftBrace => String::from_str("LEFT_BRACE"),
            TokenType::RightBrace => String::from_str("RIGHT_BRACE"),
            TokenType::Comma => String::from_str("COMMA"),
            TokenType::Dot => String::from_str("DOT"),
            TokenType::Minus => String::from_str("MINUS"),
            TokenType::Plus => String::from_str("PLUS"),
            TokenType::Star => String::from_str("STAR"),
            TokenType::Slash => String::from_str("SLASH"),
            TokenType::Equal => String::from_str("EQUAL"),
            TokenType::EqualEqual => String::from_str("EQUAL_EQUAL"),
            TokenType::Bang => String::from_str("BANG"),
            TokenType::BangEqual => String::from_str("BANG_EQUAL"),
            TokenType::Less => String::from_str("LESS"),
            TokenType::LessEqual => String::from_str("LESS_EQUAL"),
            TokenType::Greater => String::from_str("GREATER"),
            TokenType::GreaterEqual => String::from_str("GREATER_EQUAL"),
            TokenType::And => String::from_str("AND"),
            TokenType::Or => String::from_str("OR"),
            TokenType::Var => String::from_str("VAR"),
            TokenType::True => String::from_str("TRUE"),
            TokenType::False => String::from_str("FALSE"),
            TokenType::If => String::from_str("IF"),
            TokenType::Else => String::from_str("ELSE"),
            TokenType::While => String::from_str("WHILE"),
            TokenType::Class => String::from_str("CLASS"),
            TokenType::Super => String::from_str("SUPER"),
            TokenType::For => String::from_str("FOR"),
            TokenType::Fun => String::from_str("FUN"),
            TokenType::Nil => String::from_str("NIL"),
            _ => String::new(),
        }
    }
}

impl PartialEq for TokenType {
    #[verifier::rlimit(60)]
    fn eq(&self, other: &TokenType) -> (r: bool) {
        match self {
            TokenType::NoToken => matches!(other, TokenType::NoToken),
            TokenType::EOF => matches!(other, TokenType::EOF),
            TokenType::String(a) => match other {
                TokenType::String(b) => *a == *b,
                _ => false,
            },
            TokenType::Number(a) => match other {
                TokenType::Number(b) => *a == *b,
                _ => false,
            },
            TokenType::Identifier(a) => match other {
                TokenType::Identifier(b) => *a == *b,
                _ => false,
            },
            TokenType::Semicolon => matches!(other, TokenType::Semicolon),
            TokenType::LeftParen => matches!(other, TokenType::LeftParen),
            TokenType::RightParen => matches!(other, TokenType::RightParen),
            TokenType::LeftBrace => matches!(other, TokenType::LeftBrace),
            TokenType::RightBrace => matches!(other, TokenType::RightBrace),
            TokenType::Comma => matches!(other, TokenType::Comma),
            TokenType::Dot => matches!(other, TokenType::Dot),
            TokenType::Minus => matches!(other, TokenType::Minus),
            TokenType::Plus => matches!(other, TokenType::Plus),
            TokenType::Star => matches!(other, TokenType::Star),
            TokenType::Slash => matches!(other, TokenType::Slash),
            TokenType::Equal => matches!(other, TokenType::Equal),
            TokenType::EqualEqual => matches!(other, TokenType::EqualEqual),
            TokenType::Bang => matches!(other, TokenType::Bang),
            TokenType::BangEqual => matches!(other, TokenType::BangEqual),
            TokenType::Less => matches!(other, TokenType::Less),
            TokenType::LessEqual => matches!(other, TokenType::LessEqual),
            TokenType::Greater => matches!(other, TokenType::Greater),
            TokenType::GreaterEqual => matches!(other, TokenType::GreaterEqual),
            TokenType::And => matches!(other, TokenType::And),
            TokenType::Or => matches!(other, TokenType::Or),
            TokenType::Var => matches!(other, TokenType::Var),
            TokenType::True => matches!(other, TokenType::True),
            TokenType::False => matches!(other, TokenType::False),
            TokenType::If => matches!(other, TokenType::If),
            TokenType::Else => matches!(other, TokenType::Else),
            TokenType::While => matches!(other, TokenType::While),
            TokenType::Class => matches!(other, TokenType::Class),
            TokenType::Super => matches!(other, TokenType::Super),
            TokenType::For => matches!(other, TokenType::For),
            TokenType::Fun => matches!(other, TokenType::Fun),
            TokenType::Nil => matches!(other, TokenType::Nil),
        }
    }
}

impl Eq for TokenType {

}

impl vstd::std_specs::cmp::PartialEqSpecImpl for TokenType {
    open spec fn obeys_eq_spec() -> bool {
        true
    }

    open spec fn eq_spec(&self, other: &TokenType) -> bool {
        self@ == other@
    }
}

/// An immutable classified unit of output: a kind and the line it ended on.
#[derive(Debug)]
pub struct Token {
    pub token_type: TokenType,
    pub line: usize,
}

/// The mathematical content of a token.
#[verifier::ext_equal]
pub struct TokenValue {
    pub kind: TokenView,
    pub line: int,
}

impl View for Token {
    type V = TokenValue;

    open spec fn view(&self) -> TokenValue {
        TokenValue { kind: self.token_type@, line: self.line as int }
    }
}

impl Token {
    pub fn new(token_type: TokenType, line: usize) -> (r: Token)
        ensures
            r@ == (TokenValue { kind: token_type@, line: line as int }),
    {
        Token { token_type, line }
    }

    /// The diagnostic form of the whole token, kind first, then its line.
    pub fn display(&self) -> (r: String)
        ensures
            r@ == "token_type: "@ + token_display(self@.kind) + "\nline: "@ + dec_str(
                self.line as nat,
            ),
    {
        let mut r = String::from_str("token_type: ");
        let t = self.token_type.display();
        r.append(t.as_str());
        r.append("\nline: ");
        let l = crate::text::usize_to_string(self.line);
        r.append(l.as_str());
        assert(r@ =~= "token_type: "@ + token_display(self@.kind) + "\nline: "@ + dec_str(
            self.line as nat,
        ));
        r
    }
}

impl PartialEq for Token {
    fn eq(&self, other: &Token) -> (r: bool) {
        self.token_type == other.token_type && self.line == other.line
    }
}

impl Eq for Token {

}

impl vstd::std_specs::cmp::PartialEqSpecImpl for Token {
    open spec fn obeys_eq_spec() -> bool {
        true
    }

    open spec fn eq_spec(&self, other: &Token) -> bool {
        self@ == other@
    }
}

} // verus!
