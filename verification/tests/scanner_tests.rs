use lox_lexer::errors::ErrorHandler;
use lox_lexer::scanner::Scanner;
use lox_lexer::superiterator::SuperIterator;
use lox_lexer::token::number::Number;
use lox_lexer::token::{Token, TokenType};

#[test]
fn test_whitespaces() {
    let error_handler = ErrorHandler::new();
    let source_code = "\
(        
                ) ";
    let mut scanner = Scanner::new(source_code, error_handler);
    let expected = vec![
        Token::new(TokenType::LeftParen, 1),
        Token::new(TokenType::RightParen, 2),
        Token::new(TokenType::EOF, 2),
    ];
    let got = scanner.scan_source();
    assert_eq!(expected, got);
}

#[test]
fn test_slash() {
    let error_handler = ErrorHandler::new();
    let source_code = "()// Comment";
    let mut scanner = Scanner::new(source_code, error_handler);
    let expected = vec![
        Token::new(TokenType::LeftParen, 1),
        Token::new(TokenType::RightParen, 1),
        Token::new(TokenType::EOF, 1),
    ];
    let got = scanner.scan_source();
    assert_eq!(expected, got);
}

#[test]
fn test_equal_equal() {
    let error_handler = ErrorHandler::new();
    let source_code = "={===}";
    let mut scanner = Scanner::new(source_code, error_handler);
    let expected = vec![
        Token::new(TokenType::Equal, 1),
        Token::new(TokenType::LeftBrace, 1),
        Token::new(TokenType::EqualEqual, 1),
        Token::new(TokenType::Equal, 1),
        Token::new(TokenType::RightBrace, 1),
        Token::new(TokenType::EOF, 1),
    ];
    let got = scanner.scan_source();
    assert_eq!(expected, got);
}

#[test]
fn test_scanner_as_iterator() {
    let error_handler = ErrorHandler::new();
    let source_code = "code";
    let mut scanner = Scanner::new(source_code, error_handler);
    assert_eq!(scanner.prev(), None);
    assert_eq!(scanner.next(), Some('c'));
    assert_eq!(scanner.peek(), Some('o'));
    assert_eq!(scanner.peek_next(), Some('d'));
    assert_eq!(scanner.next(), Some('o'));
    assert_eq!(scanner.next(), Some('d'));
    assert_eq!(scanner.next(), Some('e'));
    assert_eq!(scanner.prev(), Some('e'));
    assert_eq!(scanner.next(), Some('e'));
    assert_eq!(scanner.next(), None);
}

#[test]
fn test_paren() {
    let error_handler = ErrorHandler::new();
    let source_code = "(()";
    let mut scanner = Scanner::new(source_code, error_handler);
    assert_eq!(
        vec![
            Token::new(TokenType::LeftParen, 1),
            Token::new(TokenType::LeftParen, 1),
            Token::new(TokenType::RightParen, 1),
            Token::new(TokenType::EOF, 1)
        ],
        scanner.scan_source()
    );
}

#[test]
fn test_language_scan() {
    let error_handler = ErrorHandler::new();
    let source_code = "\
var x = 9;
var y = x + 8.8;
";
    let mut scanner = Scanner::new(source_code, error_handler);
    let tokens = scanner.scan_source();
    assert_eq!(tokens.len(), 13);
}

#[test]
fn greedy_pair_operator_beats_two_single_ones() {
    let mut scanner = Scanner::new("==", ErrorHandler::new());
    assert_eq!(
        vec![
            Token::new(TokenType::EqualEqual, 1),
            Token::new(TokenType::EOF, 1)
        ],
        scanner.scan_source()
    );
    let mut scanner = Scanner::new("=", ErrorHandler::new());
    assert_eq!(
        vec![Token::new(TokenType::Equal, 1), Token::new(TokenType::EOF, 1)],
        scanner.scan_source()
    );
}

#[test]
fn every_fixed_table_entry_round_trips() {
    let entries: Vec<(&str, TokenType)> = vec![
        (";", TokenType::Semicolon),
        ("(", TokenType::LeftParen),
        (")", TokenType::RightParen),
        ("{", TokenType::LeftBrace),
        ("}", TokenType::RightBrace),
        (",", TokenType::Comma),
        (".", TokenType::Dot),
        ("-", TokenType::Minus),
        ("+", TokenType::Plus),
        ("*", TokenType::Star),
        ("/", TokenType::Slash),
        ("=", TokenType::Equal),
        ("==", TokenType::EqualEqual),
        ("!", TokenType::Bang),
        ("!=", TokenType::BangEqual),
        ("<", TokenType::Less),
        ("<=", TokenType::LessEqual),
        (">", TokenType::Greater),
        (">=", TokenType::GreaterEqual),
        ("&", TokenType::And),
        ("|", TokenType::Or),
        ("true", TokenType::True),
        ("false", TokenType::False),
        ("if", TokenType::If),
        ("else", TokenType::Else),
        ("while", TokenType::While),
        ("class", TokenType::Class),
        ("super", TokenType::Super),
        ("for", TokenType::For),
        ("fun", TokenType::Fun),
        ("Nil", TokenType::Nil),
        ("var", TokenType::Var),
    ];
    for (lexeme, kind) in entries {
        let mut scanner = Scanner::new(lexeme, ErrorHandler::new());
        let got = scanner.scan_source();
        assert_eq!(
            vec![Token::new(kind, 1), Token::new(TokenType::EOF, 1)],
            got,
            "round trip failed for {:?}",
            lexeme
        );
        assert!(!scanner.error_handler.has_error());
    }
}

#[test]
fn string_literal_keeps_inner_text() {
    let mut scanner = Scanner::new("\"hello world\"", ErrorHandler::new());
    let expected = vec![
        Token::new(TokenType::String(String::from("hello world")), 1),
        Token::new(TokenType::EOF, 1),
    ];
    assert_eq!(expected, scanner.scan_source());
    assert!(!scanner.error_handler.has_error());
}

#[test]
fn unterminated_string_yields_no_token_and_one_non_termination_entry() {
    let mut scanner = Scanner::new("\"abc", ErrorHandler::new());
    let tokens = scanner.scan_source();
    assert_eq!(vec![Token::new(TokenType::EOF, 1)], tokens);
    assert!(scanner.error_handler.has_error());
    let report = scanner.error_handler.display_errors("\"abc");
    assert_eq!(
        "[line 1] Error: Non-terminated string value\n[line 1] Error: Unexpected character: \"\n",
        report
    );
    assert_eq!(1, report.matches("Non-terminated").count());
}

#[test]
fn keywords_and_identifiers_are_told_apart() {
    let mut scanner = Scanner::new("var x = 9;", ErrorHandler::new());
    let expected = vec![
        Token::new(TokenType::Var, 1),
        Token::new(TokenType::Identifier(String::from("x")), 1),
        Token::new(TokenType::Equal, 1),
        Token::new(TokenType::Number(Number::from_text("9").unwrap()), 1),
        Token::new(TokenType::Semicolon, 1),
        Token::new(TokenType::EOF, 1),
    ];
    assert_eq!(expected, scanner.scan_source());
}

#[test]
fn comment_closed_by_line_break_moves_to_next_line() {
    let mut scanner = Scanner::new("// note\n(", ErrorHandler::new());
    let expected = vec![
        Token::new(TokenType::LeftParen, 2),
        Token::new(TokenType::EOF, 2),
    ];
    assert_eq!(expected, scanner.scan_source());
}

#[test]
fn unexpected_character_is_recorded_and_scanning_goes_on() {
    let mut scanner = Scanner::new("#;", ErrorHandler::new());
    let expected = vec![
        Token::new(TokenType::Semicolon, 1),
        Token::new(TokenType::EOF, 1),
    ];
    assert_eq!(expected, scanner.scan_source());
    let report = scanner.error_handler.display_errors("#;");
    assert_eq!("[line 1] Error: Unexpected character: #\n", report);
}

#[test]
fn two_decimal_points_fail_only_at_the_parse_step() {
    let mut scanner = Scanner::new("1.2.3", ErrorHandler::new());
    let tokens = scanner.scan_source();
    assert_eq!(vec![Token::new(TokenType::EOF, 1)], tokens);
    let report = scanner.error_handler.display_errors("1.2.3");
    assert_eq!(
        "[line 1] Error: impossible to parse a number\n[line 1] Error: Unexpected character: 1\n",
        report
    );
}

#[test]
fn empty_source_yields_only_end_of_input() {
    let mut scanner = Scanner::new("", ErrorHandler::new());
    assert_eq!(vec![Token::new(TokenType::EOF, 1)], scanner.scan_source());
    assert!(!scanner.error_handler.has_error());
}

#[test]
fn read_until_consumes_through_the_mark() {
    let mut scanner = Scanner::new("ab;cd", ErrorHandler::new());
    scanner.read_until(';');
    assert_eq!(scanner.peek(), Some('c'));
    assert!(!scanner.is_next('d'));
    assert!(scanner.is_next('c'));
}
