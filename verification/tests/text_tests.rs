use lox::error::{line_text, LoxError};
use lox::number::{
    number_equal, number_is_nan, number_less, number_less_equal, number_negated,
};
use lox::token::{clone_literal_option, Literal, Token, TokenType};
use lox::util::substring;

fn show_number(n: u64) -> String {
    format!("{}", f64::from_bits(n))
}

#[test]
fn substring_by_characters() {
    assert_eq!(substring("hello", 1, 3), "el");
    assert_eq!(substring("hello", 0, 5), "hello");
    assert_eq!(substring("hello", 0, 0), "");
    assert_eq!(substring("hello", 2, 2), "");
    assert_eq!(substring("hello", 4, 5), "o");
}

#[test]
fn substring_at_the_edges() {
    assert_eq!(substring("hello", 3, 2), "");
    assert_eq!(substring("hello", 5, 7), "");
    assert_eq!(substring("hello", 9, 12), "");
    assert_eq!(substring("hello", 2, 99), "llo");
    assert_eq!(substring("hello", 2, 5), "llo");
    assert_eq!(substring("", 0, 0), "");
    assert_eq!(substring("", 0, 3), "");
}

#[test]
fn substring_never_splits_a_character() {
    assert_eq!(substring("héllo ✓ wörld", 1, 4), "éll");
    assert_eq!(substring("héllo ✓ wörld", 6, 7), "✓");
    assert_eq!(substring("héllo ✓ wörld", 8, 100), "wörld");
    assert_eq!(substring("日本語", 1, 2), "本");
}

#[test]
fn line_numbers_in_decimal() {
    assert_eq!(line_text(0), "0");
    assert_eq!(line_text(7), "7");
    assert_eq!(line_text(10), "10");
    assert_eq!(line_text(1234567890), "1234567890");
    assert_eq!(line_text(usize::MAX), format!("{}", usize::MAX));
}

#[test]
fn report_formats_a_diagnostic() {
    assert_eq!(
        LoxError::report(3, "at end".to_string(), "Expect expression.".to_string()),
        "[line 3] Error at end: Expect expression."
    );
    assert_eq!(
        LoxError::report(12, String::new(), "Unexpected character".to_string()),
        "[line 12] Error : Unexpected character"
    );
}

#[test]
fn error_names_the_place_of_the_token() {
    let eof = Token::new(TokenType::Eof, String::new(), None, 4);
    assert_eq!(
        LoxError::error(eof, "Expect expression.".to_string()),
        "[line 4] Error at end: Expect expression."
    );
    let plus = Token::new(TokenType::Plus, "+".to_string(), None, 2);
    assert_eq!(
        LoxError::error(plus, "Illegal expression".to_string()),
        "[line 2] Error at '+': Illegal expression"
    );
}

#[test]
fn error_constructors() {
    let e = LoxError::new(5, "here".to_string(), "wrong".to_string());
    assert!(e.token.is_none());
    assert_eq!(e.line, 5);
    assert_eq!(e.location, "here");
    assert_eq!(e.message, "wrong");
    assert_eq!(e.describe(), "[line 5] Error here: wrong");
    assert_eq!(e.to_text(), "[line 5] error: wrong");
    let t = Token::new(TokenType::Star, "*".to_string(), None, 9);
    let e = LoxError::new_with_token(t, "bad".to_string());
    assert_eq!(e.line, 9);
    assert_eq!(e.location, "");
    assert_eq!(e.message, "bad");
    assert_eq!(e.token.as_ref().unwrap().get_lexeme(), "*");
    let copy = e.clone();
    assert_eq!(copy.line, 9);
    assert_eq!(copy.message, "bad");
    assert_eq!(copy.token.unwrap().get_token_type(), TokenType::Star);
}

#[test]
fn diagnostics_by_stage() {
    let scan = LoxError::new(3, String::new(), "Unexpected character".to_string());
    assert_eq!(scan.diagnostic(), "[line 3] Error : Unexpected character");
    let eof = Token::new(TokenType::Eof, String::new(), None, 2);
    let parse = LoxError::new_with_token(eof, "Expect expression.".to_string());
    assert_eq!(parse.diagnostic(), "[line 2] Error at end: Expect expression.");
    let plus = Token::new(TokenType::Plus, "+".to_string(), None, 1);
    let eval = LoxError::new_with_token(plus, "Illegal expression".to_string());
    assert_eq!(eval.diagnostic(), "[line 1] Error at '+': Illegal expression");
}

#[test]
fn token_getters() {
    let t = Token::new(
        TokenType::String,
        "\"a\"".to_string(),
        Some(Literal::String("a".to_string())),
        3,
    );
    assert_eq!(t.get_token_type(), TokenType::String);
    assert_eq!(t.get_lexeme(), "\"a\"");
    assert_eq!(t.get_line(), 3);
    assert_eq!(*t.get_literal(), Some(Literal::String("a".to_string())));
    let c = t.clone();
    assert_eq!(c.get_lexeme(), "\"a\"");
    assert_eq!(*c.get_literal(), Some(Literal::String("a".to_string())));
    assert_eq!(clone_literal_option(&None), None);
    assert_eq!(clone_literal_option(&Some(Literal::Nil)), Some(Literal::Nil));
}

#[test]
fn literal_display_forms() {
    assert_eq!(Literal::Number(1.0f64.to_bits()).to_text(&show_number), "1");
    assert_eq!(Literal::Number(2.5f64.to_bits()).to_text(&show_number), "2.5");
    assert_eq!(Literal::String("a b".to_string()).to_text(&show_number), "a b");
    assert_eq!(Literal::Bool(true).to_text(&show_number), "true");
    assert_eq!(Literal::Bool(false).to_text(&show_number), "false");
    assert_eq!(Literal::Nil.to_text(&show_number), "nil");
    assert_eq!(Literal::Number(3.0f64.to_bits()).clone(), Literal::Number(3.0f64.to_bits()));
}

#[test]
fn number_order_on_bit_patterns() {
    let values = [
        0.0,
        -0.0,
        1.0,
        -1.0,
        0.1,
        -0.1,
        5e-324,
        -5e-324,
        1e308,
        -1e308,
        f64::INFINITY,
        f64::NEG_INFINITY,
        f64::NAN,
    ];
    for a in values {
        assert_eq!(number_is_nan(a.to_bits()), a.is_nan());
        assert_eq!(number_negated(a.to_bits()), (-a).to_bits());
        for b in values {
            assert_eq!(number_equal(a.to_bits(), b.to_bits()), a == b, "{} == {}", a, b);
            assert_eq!(number_less(a.to_bits(), b.to_bits()), a < b, "{} < {}", a, b);
            assert_eq!(number_less_equal(a.to_bits(), b.to_bits()), a <= b, "{} <= {}", a, b);
        }
    }
}

#[test]
fn every_nan_is_a_nan() {
    for bits in [
        0x7ff0_0000_0000_0001u64,
        0x7ff8_0000_0000_0000,
        0x7fff_ffff_ffff_ffff,
        0xfff0_0000_0000_0001,
        0xffff_ffff_ffff_ffff,
    ] {
        assert!(number_is_nan(bits));
        assert!(f64::from_bits(bits).is_nan());
    }
    assert!(!number_is_nan(0x7ff0_0000_0000_0000));
    assert!(!number_is_nan(0xfff0_0000_0000_0000));
}
