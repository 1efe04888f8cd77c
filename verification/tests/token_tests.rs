use rlox::error::{LexicalErrorKind, LoxError};
use rlox::token::{Object, Span, Token, Token_Type};

#[test]
fn span_new_keeps_its_bounds() {
    let s = Span::new(3, 9);
    assert_eq!(s.start, 3);
    assert_eq!(s.end, 9);
}

#[test]
fn span_merge_covers_all_spans_minimally() {
    let a = Span::new(4, 7);
    let b = Span::new(1, 5);
    let c = Span::new(6, 12);
    let merged = Span::merge(vec![&a, &b, &c]);
    assert_eq!(merged.start, 1);
    assert_eq!(merged.end, 12);
}

#[test]
fn span_merge_of_nothing_is_the_empty_extremes() {
    let merged = Span::merge(Vec::new());
    assert_eq!(merged.start, usize::MAX);
    assert_eq!(merged.end, 0);
}

#[test]
fn token_new_keeps_its_parts() {
    let t = Token::new(
        Token_Type::Number,
        String::from("42"),
        Some(Object::Num(String::from("42"))),
        7,
    );
    assert_eq!(t.token_type, Token_Type::Number);
    assert_eq!(t.lexeme, "42");
    assert_eq!(t.literal, Some(Object::Num(String::from("42"))));
    assert_eq!(t.line, 7);
}

#[test]
fn token_renders_kind_lexeme_and_literal() {
    let t = Token::new(
        Token_Type::Number,
        String::from("123.45"),
        Some(Object::Num(String::from("123.45"))),
        1,
    );
    assert_eq!(t.to_string(), "number 123.45 123.45");
    let bare = Token::new(Token_Type::LeftParen, String::from("("), None, 1);
    assert_eq!(bare.to_string(), "left_paren ( None");
}

#[test]
fn kind_names_are_lowercase_words() {
    assert_eq!(Token_Type::BangEqual.name(), "bang_equal");
    assert_eq!(Token_Type::EndOfFile.name(), "end_of_file");
    assert_eq!(Token_Type::Identifier.name(), "identifier");
}

#[test]
fn errors_carry_their_line_and_message() {
    let e = LoxError::error(5, LexicalErrorKind::UnexpectedCharacter);
    assert_eq!(e.line, 5);
    assert_eq!(e.message(), "Unexpected character");
    let u = LoxError::error(2, LexicalErrorKind::UnterminatedString);
    assert_eq!(u.message(), "Unterminated string");
}
