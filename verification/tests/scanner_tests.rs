use rlox::error::LexicalErrorKind;
use rlox::scanner::Scanner;
use rlox::token::{Object, Token, Token_Type};

fn scan_ok(source: &str) -> Vec<Token> {
    let mut scanner = Scanner::new(String::from(source));
    scanner.scan_tokens().expect("expected a clean scan")
}

fn scan_err(source: &str) -> Vec<rlox::error::LoxError> {
    let mut scanner = Scanner::new(String::from(source));
    match scanner.scan_tokens() {
        Ok(_) => panic!("expected lexical errors"),
        Err(errors) => errors,
    }
}

fn kinds(tokens: &[Token]) -> Vec<Token_Type> {
    tokens.iter().map(|t| t.token_type).collect()
}

#[test]
fn empty_source_scans_to_eof_only() {
    let tokens = scan_ok("");
    assert_eq!(tokens.len(), 1);
    assert_eq!(tokens[0].token_type, Token_Type::EndOfFile);
    assert_eq!(tokens[0].lexeme, "");
    assert_eq!(tokens[0].literal, None);
    assert_eq!(tokens[0].line, 1);
}

#[test]
fn eof_line_is_newline_count_plus_one() {
    let tokens = scan_ok("a\nb\n");
    let last = tokens.last().unwrap();
    assert_eq!(last.token_type, Token_Type::EndOfFile);
    assert_eq!(last.line, 3);
    let eof_count = tokens
        .iter()
        .filter(|t| t.token_type == Token_Type::EndOfFile)
        .count();
    assert_eq!(eof_count, 1);
}

#[test]
fn whitespace_and_comments_scan_to_eof_only() {
    let tokens = scan_ok("  // a comment\n\t \r\n// another");
    assert_eq!(kinds(&tokens), vec![Token_Type::EndOfFile]);
    assert_eq!(tokens[0].line, 3);
}

#[test]
fn bang_equal_is_one_token() {
    let tokens = scan_ok("!=");
    assert_eq!(
        kinds(&tokens),
        vec![Token_Type::BangEqual, Token_Type::EndOfFile]
    );
    assert_eq!(tokens[0].lexeme, "!=");
}

#[test]
fn bang_before_space_is_bang() {
    let tokens = scan_ok("! ");
    assert_eq!(kinds(&tokens), vec![Token_Type::Bang, Token_Type::EndOfFile]);
    assert_eq!(tokens[0].lexeme, "!");
}

#[test]
fn all_two_character_operators_are_greedy() {
    let tokens = scan_ok("== <= >= != = < > !");
    assert_eq!(
        kinds(&tokens),
        vec![
            Token_Type::EqualEqual,
            Token_Type::LessEqual,
            Token_Type::GreaterEqual,
            Token_Type::BangEqual,
            Token_Type::Equal,
            Token_Type::Less,
            Token_Type::Greater,
            Token_Type::Bang,
            Token_Type::EndOfFile,
        ]
    );
}

#[test]
fn punctuation_maps_directly() {
    let tokens = scan_ok("(){};,.-+*/");
    assert_eq!(
        kinds(&tokens),
        vec![
            Token_Type::LeftParen,
            Token_Type::RightParen,
            Token_Type::LeftBrace,
            Token_Type::RightBrace,
            Token_Type::Semicolon,
            Token_Type::Comma,
            Token_Type::Dot,
            Token_Type::Minus,
            Token_Type::Plus,
            Token_Type::Star,
            Token_Type::Slash,
            Token_Type::EndOfFile,
        ]
    );
}

#[test]
fn escaped_quote_stays_in_string() {
    let tokens = scan_ok("\"a\\\"b\"");
    assert_eq!(
        kinds(&tokens),
        vec![Token_Type::String, Token_Type::EndOfFile]
    );
    assert_eq!(
        tokens[0].literal,
        Some(Object::Str(String::from("a\"b")))
    );
    assert_eq!(tokens[0].lexeme, "\"a\\\"b\"");
}

#[test]
fn escaped_backslash_does_not_escape_the_closing_quote() {
    let tokens = scan_ok("\"a\\\\\"");
    assert_eq!(
        kinds(&tokens),
        vec![Token_Type::String, Token_Type::EndOfFile]
    );
    assert_eq!(tokens[0].literal, Some(Object::Str(String::from("a\\"))));
}

#[test]
fn unterminated_string_is_an_error_at_its_starting_line() {
    let errors = scan_err("\"unterminated");
    assert_eq!(errors.len(), 1);
    assert_eq!(errors[0].kind, LexicalErrorKind::UnterminatedString);
    assert_eq!(errors[0].line, 1);
}

#[test]
fn unterminated_multiline_string_reports_its_starting_line() {
    let errors = scan_err("\n\"abc\ndef");
    assert_eq!(errors.len(), 1);
    assert_eq!(errors[0].kind, LexicalErrorKind::UnterminatedString);
    assert_eq!(errors[0].line, 2);
}

#[test]
fn string_newlines_count_toward_the_line_number() {
    let tokens = scan_ok("\"a\nb\"c");
    assert_eq!(
        kinds(&tokens),
        vec![
            Token_Type::String,
            Token_Type::Identifier,
            Token_Type::EndOfFile,
        ]
    );
    assert_eq!(tokens[0].line, 2);
    assert_eq!(tokens[0].literal, Some(Object::Str(String::from("a\nb"))));
    assert_eq!(tokens[1].line, 2);
}

#[test]
fn trailing_dot_is_not_part_of_a_number() {
    let tokens = scan_ok("123.");
    assert_eq!(
        kinds(&tokens),
        vec![Token_Type::Number, Token_Type::Dot, Token_Type::EndOfFile]
    );
    assert_eq!(tokens[0].lexeme, "123");
    assert_eq!(tokens[0].literal, Some(Object::Num(String::from("123"))));
}

#[test]
fn fractional_number_is_one_token() {
    let tokens = scan_ok("123.45");
    assert_eq!(
        kinds(&tokens),
        vec![Token_Type::Number, Token_Type::EndOfFile]
    );
    assert_eq!(tokens[0].lexeme, "123.45");
    assert_eq!(
        tokens[0].literal,
        Some(Object::Num(String::from("123.45")))
    );
}

#[test]
fn dot_without_leading_digit_is_a_dot() {
    let tokens = scan_ok(".5");
    assert_eq!(
        kinds(&tokens),
        vec![Token_Type::Dot, Token_Type::Number, Token_Type::EndOfFile]
    );
    assert_eq!(tokens[1].literal, Some(Object::Num(String::from("5"))));
}

#[test]
fn keyword_precedence_needs_an_exact_match() {
    let tokens = scan_ok("classic");
    assert_eq!(
        kinds(&tokens),
        vec![Token_Type::Identifier, Token_Type::EndOfFile]
    );
    assert_eq!(tokens[0].lexeme, "classic");
}

#[test]
fn exact_keyword_is_a_keyword_token() {
    let tokens = scan_ok("class");
    assert_eq!(kinds(&tokens), vec![Token_Type::Class, Token_Type::EndOfFile]);
}

#[test]
fn all_reserved_words_are_keywords() {
    let source =
        "and class else false fun for if nil or print return super this true var while";
    let tokens = scan_ok(source);
    assert_eq!(
        kinds(&tokens),
        vec![
            Token_Type::And,
            Token_Type::Class,
            Token_Type::Else,
            Token_Type::False,
            Token_Type::Fun,
            Token_Type::For,
            Token_Type::If,
            Token_Type::Nil,
            Token_Type::Or,
            Token_Type::Print,
            Token_Type::Return,
            Token_Type::Super,
            Token_Type::This,
            Token_Type::True,
            Token_Type::Var,
            Token_Type::While,
            Token_Type::EndOfFile,
        ]
    );
}

#[test]
fn underscore_starts_and_continues_identifiers() {
    let tokens = scan_ok("_private my_var");
    assert_eq!(
        kinds(&tokens),
        vec![
            Token_Type::Identifier,
            Token_Type::Identifier,
            Token_Type::EndOfFile,
        ]
    );
    assert_eq!(tokens[0].lexeme, "_private");
    assert_eq!(tokens[1].lexeme, "my_var");
}

#[test]
fn comment_runs_to_the_end_of_the_line_only() {
    let tokens = scan_ok("// x\n(");
    assert_eq!(
        kinds(&tokens),
        vec![Token_Type::LeftParen, Token_Type::EndOfFile]
    );
    assert_eq!(tokens[0].line, 2);
}

#[test]
fn two_unexpected_characters_are_both_reported_in_order() {
    let errors = scan_err("@\n#");
    assert_eq!(errors.len(), 2);
    assert_eq!(errors[0].kind, LexicalErrorKind::UnexpectedCharacter);
    assert_eq!(errors[0].line, 1);
    assert_eq!(errors[1].kind, LexicalErrorKind::UnexpectedCharacter);
    assert_eq!(errors[1].line, 2);
}

#[test]
fn scanning_continues_after_an_unexpected_character() {
    let errors = scan_err("@+(");
    assert_eq!(errors.len(), 1);
    assert_eq!(errors[0].kind, LexicalErrorKind::UnexpectedCharacter);
}

#[test]
fn a_small_program_scans_token_by_token() {
    let tokens = scan_ok("var answer = 42;\nprint answer; // report\n");
    assert_eq!(
        kinds(&tokens),
        vec![
            Token_Type::Var,
            Token_Type::Identifier,
            Token_Type::Equal,
            Token_Type::Number,
            Token_Type::Semicolon,
            Token_Type::Print,
            Token_Type::Identifier,
            Token_Type::Semicolon,
            Token_Type::EndOfFile,
        ]
    );
    assert_eq!(tokens[1].lexeme, "answer");
    assert_eq!(tokens[3].literal, Some(Object::Num(String::from("42"))));
    assert_eq!(tokens[5].line, 2);
    assert_eq!(tokens[8].line, 3);
}
