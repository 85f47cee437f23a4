use lox_lexer::token::number::Number;
use lox_lexer::token::{Token, TokenType};

#[test]
fn test_display() {
    assert_eq!(
        String::from("NUMBER 90.1 90.1"),
        TokenType::Number(Number::from_text("90.1").unwrap()).display()
    );
    assert_eq!(String::from("EOF  null"), TokenType::EOF.display());
    assert_eq!(String::from("SEMICOLON ; null"), TokenType::Semicolon.display());
    assert_eq!(
        String::from("IDENTIFIER myident null"),
        TokenType::Identifier(String::from("myident")).display()
    );
    assert_eq!(
        String::from("STRING \"hello world\" hello world"),
        TokenType::String(String::from("hello world")).display()
    );
}

#[test]
fn integral_value_renders_with_one_decimal_place() {
    assert_eq!(String::from("9.0"), Number::from_text("9.0").unwrap().render());
    assert_eq!(String::from("9.0"), Number::from_text("9").unwrap().render());
    assert_eq!(String::from("8.8"), Number::from_text("8.8").unwrap().render());
}

#[test]
fn number_equality_ignores_redundant_zeros() {
    assert_eq!(Number::from_text("9"), Number::from_text("9.0"));
    assert_eq!(Number::from_text("009.100"), Number::from_text("9.1"));
    assert_ne!(Number::from_text("9.1"), Number::from_text("9.2"));
    assert_ne!(Number::from_text("90"), Number::from_text("9"));
}

#[test]
fn malformed_numbers_are_rejected() {
    assert_eq!(None, Number::from_text("1.2.3"));
    assert_eq!(None, Number::from_text(""));
    assert_eq!(None, Number::from_text(".5"));
    assert_eq!(None, Number::from_text("NaN"));
    assert!(Number::from_text("5.").is_some());
}

#[test]
fn canonical_text_of_fixed_kinds_is_the_table_spelling() {
    assert_eq!(String::from(";"), TokenType::Semicolon.to_str());
    assert_eq!(String::from("=="), TokenType::EqualEqual.to_str());
    assert_eq!(String::from("var"), TokenType::Var.to_str());
    assert_eq!(String::from(""), TokenType::EOF.to_str());
    assert_eq!(String::from("abc"), TokenType::Identifier(String::from("abc")).to_str());
    assert_eq!(
        String::from("90.1"),
        TokenType::Number(Number::from_text("90.1").unwrap()).to_str()
    );
    assert_eq!(String::from("hi"), TokenType::String(String::from("hi")).to_str());
}

#[test]
fn whole_token_display_names_kind_and_line() {
    let token = Token::new(TokenType::Semicolon, 41);
    assert_eq!(
        String::from("token_type: SEMICOLON ; null\nline: 41"),
        token.display()
    );
}

#[test]
fn token_equality_is_by_kind_and_line() {
    assert_eq!(
        Token::new(TokenType::LeftParen, 3),
        Token::new(TokenType::LeftParen, 3)
    );
    assert_ne!(
        Token::new(TokenType::LeftParen, 3),
        Token::new(TokenType::LeftParen, 4)
    );
    assert_ne!(
        Token::new(TokenType::LeftParen, 3),
        Token::new(TokenType::RightParen, 3)
    );
    assert_eq!(
        TokenType::Number(Number::from_text("9").unwrap()),
        TokenType::Number(Number::from_text("9.00").unwrap())
    );
}
