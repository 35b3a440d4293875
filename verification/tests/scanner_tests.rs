use lox::scanner::{clone_tokens, keyword_or_identifier, Scanner};
use lox::token::{Literal, Token, TokenType};

fn parse_number(text: String) -> u64 {
    text.parse::<f64>().unwrap().to_bits()
}

fn scan(source: &str) -> (Vec<Token>, Vec<usize>, bool) {
    let mut scanner = Scanner::new(source.to_string(), parse_number as fn(String) -> u64);
    let result = scanner.scan_tokens();
    let lines = scanner.errors().iter().map(|e| e.line).collect();
    (scanner.tokens(), lines, result.is_ok())
}

fn kinds(source: &str) -> Vec<TokenType> {
    scan(source).0.iter().map(|t| t.get_token_type()).collect()
}

fn lexemes(source: &str) -> Vec<String> {
    scan(source).0.iter().map(|t| t.get_lexeme()).collect()
}

#[test]
fn empty_source_gives_only_the_end_token() {
    let (tokens, errors, ok) = scan("");
    assert!(ok);
    assert!(errors.is_empty());
    assert_eq!(tokens.len(), 1);
    assert_eq!(tokens[0].get_token_type(), TokenType::Eof);
    assert_eq!(tokens[0].get_lexeme(), "");
    assert_eq!(tokens[0].get_line(), 1);
    assert_eq!(*tokens[0].get_literal(), None);
}

#[test]
fn single_character_tokens() {
    assert_eq!(
        kinds("(){},.-+;*/"),
        vec![
            TokenType::LeftParen,
            TokenType::RightParen,
            TokenType::LeftBrace,
            TokenType::RightBrace,
            TokenType::Comma,
            TokenType::Dot,
            TokenType::Minus,
            TokenType::Plus,
            TokenType::Semicolon,
            TokenType::Star,
            TokenType::Slash,
            TokenType::Eof,
        ]
    );
}

#[test]
fn one_or_two_character_operators() {
    assert_eq!(
        kinds("! != = == < <= > >="),
        vec![
            TokenType::Bang,
            TokenType::BangEqual,
            TokenType::Equal,
            TokenType::EqualEqual,
            TokenType::Less,
            TokenType::LessEqual,
            TokenType::Greater,
            TokenType::GreaterEqual,
            TokenType::Eof,
        ]
    );
    assert_eq!(lexemes("!=="), vec!["!=", "=", ""]);
    assert_eq!(kinds("==="), vec![TokenType::EqualEqual, TokenType::Equal, TokenType::Eof]);
}

#[test]
fn comment_runs_to_the_end_of_the_line() {
    let (tokens, errors, ok) = scan("1 // two three\n4");
    assert!(ok);
    assert!(errors.is_empty());
    assert_eq!(tokens.len(), 3);
    assert_eq!(tokens[0].get_lexeme(), "1");
    assert_eq!(tokens[0].get_line(), 1);
    assert_eq!(tokens[1].get_lexeme(), "4");
    assert_eq!(tokens[1].get_line(), 2);
    assert_eq!(kinds("// only a comment"), vec![TokenType::Eof]);
}

#[test]
fn white_space_is_dropped_and_lines_are_counted() {
    let (tokens, _, ok) = scan(" \t\r\n\n +\n");
    assert!(ok);
    assert_eq!(tokens.len(), 2);
    assert_eq!(tokens[0].get_token_type(), TokenType::Plus);
    assert_eq!(tokens[0].get_line(), 3);
    assert_eq!(tokens[1].get_token_type(), TokenType::Eof);
    assert_eq!(tokens[1].get_line(), 4);
}

#[test]
fn string_literal_keeps_its_quotes_in_the_lexeme_only() {
    let (tokens, _, ok) = scan("\"hello world\"");
    assert!(ok);
    assert_eq!(tokens.len(), 2);
    assert_eq!(tokens[0].get_token_type(), TokenType::String);
    assert_eq!(tokens[0].get_lexeme(), "\"hello world\"");
    assert_eq!(*tokens[0].get_literal(), Some(Literal::String("hello world".to_string())));
}

#[test]
fn empty_string_literal() {
    let (tokens, _, ok) = scan("\"\"");
    assert!(ok);
    assert_eq!(*tokens[0].get_literal(), Some(Literal::String(String::new())));
    assert_eq!(tokens[0].get_lexeme(), "\"\"");
}

#[test]
fn string_with_line_feeds_ends_on_a_later_line() {
    let (tokens, _, ok) = scan("\"a\nb\nc\" 1");
    assert!(ok);
    assert_eq!(*tokens[0].get_literal(), Some(Literal::String("a\nb\nc".to_string())));
    assert_eq!(tokens[0].get_line(), 3);
    assert_eq!(tokens[1].get_line(), 3);
}

#[test]
fn string_of_characters_beyond_ascii() {
    let (tokens, _, ok) = scan("\"héllo wörld ✓\" + 1");
    assert!(ok);
    assert_eq!(*tokens[0].get_literal(), Some(Literal::String("héllo wörld ✓".to_string())));
    assert_eq!(tokens[1].get_token_type(), TokenType::Plus);
    assert_eq!(*tokens[2].get_literal(), Some(Literal::Number(1.0f64.to_bits())));
}

#[test]
fn unterminated_string_fails_on_the_last_line() {
    let mut scanner = Scanner::new("\"unterminated".to_string(), parse_number as fn(String) -> u64);
    let e = scanner.scan_tokens().err().unwrap();
    assert_eq!(e.line, 1);
    assert_eq!(e.message, "Unexpected character");
    assert_eq!(e.location, "");
    assert!(e.token.is_none());
    let tokens = scanner.tokens();
    assert_eq!(tokens.len(), 1);
    assert_eq!(tokens[0].get_token_type(), TokenType::Eof);
}

#[test]
fn unterminated_string_over_lines_cites_the_final_line() {
    let mut scanner =
        Scanner::new("1\n\"never\nclosed\n".to_string(), parse_number as fn(String) -> u64);
    let e = scanner.scan_tokens().err().unwrap();
    assert_eq!(e.line, 4);
    let tokens = scanner.tokens();
    assert_eq!(tokens.len(), 2);
    assert_eq!(tokens[0].get_token_type(), TokenType::Number);
    assert_eq!(tokens[1].get_token_type(), TokenType::Eof);
    assert_eq!(tokens[1].get_line(), 4);
}

#[test]
fn numbers() {
    let (tokens, _, ok) = scan("123 45.67 0.5 007");
    assert!(ok);
    assert_eq!(*tokens[0].get_literal(), Some(Literal::Number(123.0f64.to_bits())));
    assert_eq!(*tokens[1].get_literal(), Some(Literal::Number(45.67f64.to_bits())));
    assert_eq!(*tokens[2].get_literal(), Some(Literal::Number(0.5f64.to_bits())));
    assert_eq!(*tokens[3].get_literal(), Some(Literal::Number(7.0f64.to_bits())));
    assert_eq!(tokens[1].get_lexeme(), "45.67");
    assert_eq!(tokens[3].get_lexeme(), "007");
}

#[test]
fn trailing_dot_is_not_part_of_a_number() {
    let (tokens, _, ok) = scan("1.");
    assert!(ok);
    assert_eq!(tokens.len(), 3);
    assert_eq!(tokens[0].get_lexeme(), "1");
    assert_eq!(*tokens[0].get_literal(), Some(Literal::Number(1.0f64.to_bits())));
    assert_eq!(tokens[1].get_token_type(), TokenType::Dot);
    assert_eq!(lexemes("1.2.3"), vec!["1.2", ".", "3", ""]);
    assert_eq!(lexemes(".5"), vec![".", "5", ""]);
    assert_eq!(lexemes("1.a"), vec!["1", ".", "a", ""]);
}

#[test]
fn keywords_and_identifiers() {
    assert_eq!(
        kinds("and class else false for fun if nil or print return super this true var while"),
        vec![
            TokenType::And,
            TokenType::Class,
            TokenType::Else,
            TokenType::False,
            TokenType::For,
            TokenType::Fun,
            TokenType::If,
            TokenType::Nil,
            TokenType::Or,
            TokenType::Print,
            TokenType::Return,
            TokenType::Super,
            TokenType::This,
            TokenType::True,
            TokenType::Var,
            TokenType::While,
            TokenType::Eof,
        ]
    );
    assert_eq!(
        kinds("andy nils foo_bar True"),
        vec![
            TokenType::Identifier,
            TokenType::Identifier,
            TokenType::Identifier,
            TokenType::Identifier,
            TokenType::Eof,
        ]
    );
    assert_eq!(lexemes("foo_bar"), vec!["foo_bar", ""]);
}

#[test]
fn keyword_lookup() {
    assert_eq!(keyword_or_identifier(&"while".to_string()), TokenType::While);
    assert_eq!(keyword_or_identifier(&"nil".to_string()), TokenType::Nil);
    assert_eq!(keyword_or_identifier(&"whil".to_string()), TokenType::Identifier);
    assert_eq!(keyword_or_identifier(&String::new()), TokenType::Identifier);
}

#[test]
fn identifier_stops_at_a_digit() {
    assert_eq!(lexemes("ab1"), vec!["ab", "1", ""]);
    assert_eq!(
        kinds("ab1"),
        vec![TokenType::Identifier, TokenType::Number, TokenType::Eof]
    );
}

#[test]
fn identifier_of_letters_beyond_ascii() {
    let (tokens, errors, ok) = scan("été + ñ");
    assert!(ok);
    assert!(errors.is_empty());
    assert_eq!(tokens[0].get_token_type(), TokenType::Identifier);
    assert_eq!(tokens[0].get_lexeme(), "été");
    assert_eq!(tokens[2].get_lexeme(), "ñ");
}

#[test]
fn character_that_begins_no_token_is_an_error_and_the_scan_goes_on() {
    let mut scanner = Scanner::new("1 @ 2\n# _".to_string(), parse_number as fn(String) -> u64);
    let e = scanner.scan_tokens().err().unwrap();
    assert_eq!(e.line, 1);
    assert_eq!(e.message, "Unexpected character");
    let lines: Vec<usize> = scanner.errors().iter().map(|e| e.line).collect();
    assert_eq!(lines, vec![1, 2, 2]);
    let tokens = scanner.tokens();
    assert_eq!(tokens.len(), 3);
    assert_eq!(tokens[0].get_lexeme(), "1");
    assert_eq!(tokens[1].get_lexeme(), "2");
    assert_eq!(tokens[2].get_token_type(), TokenType::Eof);
    assert_eq!(tokens[2].get_line(), 2);
}

#[test]
fn scan_returns_the_tokens_it_keeps() {
    let mut scanner = Scanner::new("(1 + 2)".to_string(), parse_number as fn(String) -> u64);
    let tokens = scanner.scan_tokens().ok().unwrap();
    let kept = scanner.tokens();
    assert_eq!(tokens.len(), 6);
    assert_eq!(kept.len(), 6);
    for i in 0..6 {
        assert_eq!(tokens[i].get_lexeme(), kept[i].get_lexeme());
        assert_eq!(tokens[i].get_token_type(), kept[i].get_token_type());
    }
    let copy = clone_tokens(&tokens);
    assert_eq!(copy.len(), 6);
    assert_eq!(copy[1].get_literal(), tokens[1].get_literal());
}

#[test]
fn the_reading_function_of_the_caller_gives_the_literal() {
    let constant = |_text: String| -> u64 { 42 };
    let mut scanner = Scanner::new("1 2.5".to_string(), constant);
    let tokens = scanner.scan_tokens().ok().unwrap();
    assert_eq!(*tokens[0].get_literal(), Some(Literal::Number(42)));
    assert_eq!(*tokens[1].get_literal(), Some(Literal::Number(42)));
}
