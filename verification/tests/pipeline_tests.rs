use lox::number::Arithmetic;
use lox::pipeline::{run, Outcome, Report};
use lox::token::TokenType;

fn parse_number(text: String) -> u64 {
    text.parse::<f64>().unwrap().to_bits()
}

fn arithmetic(op: Arithmetic, a: u64, b: u64) -> u64 {
    let x = f64::from_bits(a);
    let y = f64::from_bits(b);
    let r = match op {
        Arithmetic::Add => x + y,
        Arithmetic::Subtract => x - y,
        Arithmetic::Multiply => x * y,
        Arithmetic::Divide => x / y,
    };
    r.to_bits()
}

fn show_number(n: u64) -> String {
    format!("{}", f64::from_bits(n))
}

fn report(source: &str) -> Report {
    run(source, parse_number, arithmetic, show_number).ok().unwrap()
}

fn value(source: &str) -> String {
    match report(source).outcome {
        Outcome::Evaluated { value: Ok(text), .. } => text,
        Outcome::Evaluated { value: Err(e), .. } => panic!("fails: {}", e.message),
        Outcome::NoTree(e) => panic!("no tree: {}", e.message),
    }
}

fn tree(source: &str) -> String {
    match report(source).outcome {
        Outcome::Evaluated { tree, .. } => tree,
        Outcome::NoTree(e) => panic!("no tree: {}", e.message),
    }
}

#[test]
fn negation_twice() {
    assert_eq!(value("-(-(5))"), "5");
    assert_eq!(value("--5"), "5");
}

#[test]
fn truthiness() {
    assert_eq!(value("!nil"), "true");
    assert_eq!(value("!false"), "true");
    assert_eq!(value("!0"), "false");
    assert_eq!(value("!\"\""), "false");
    assert_eq!(value("!true"), "false");
}

#[test]
fn string_equality() {
    assert_eq!(value("\"a\" == \"a\""), "true");
    assert_eq!(value("\"a\" == \"b\""), "false");
    assert_eq!(value("\"a\" != \"b\""), "true");
}

#[test]
fn multiplication_before_addition() {
    assert_eq!(value("1 + 2 * 3"), "7");
    assert_eq!(tree("1 + 2 * 3"), "(+ 1 (* 2 3))");
}

#[test]
fn grouping_before_multiplication() {
    assert_eq!(value("(1 + 2) * 3"), "9");
}

#[test]
fn string_and_number_concatenation() {
    assert_eq!(value("\"foo\" + 1"), "foo1");
    assert_eq!(value("1 + \"foo\""), "1foo");
    assert_eq!(value("\"foo\" + \"bar\""), "foobar");
}

#[test]
fn boolean_plus_number_is_an_evaluation_error_at_the_plus() {
    match report("true + 1").outcome {
        Outcome::Evaluated { tree, value: Err(e) } => {
            assert_eq!(tree, "(+ true 1)");
            assert_eq!(e.message, "Illegal expression");
            assert_eq!(e.line, 1);
            let token = e.token.unwrap();
            assert_eq!(token.get_token_type(), TokenType::Plus);
            assert_eq!(token.get_lexeme(), "+");
        }
        _ => panic!("no evaluation error"),
    }
}

#[test]
fn missing_closing_parenthesis_is_a_parse_error() {
    let r = report("(1 + 2");
    assert_eq!(r.tokens.len(), 5);
    match r.outcome {
        Outcome::NoTree(e) => {
            assert_eq!(e.message, "Expect ')' after expression.");
            assert_eq!(e.token.unwrap().get_token_type(), TokenType::Eof);
        }
        _ => panic!("a tree"),
    }
}

#[test]
fn unterminated_string_is_a_scan_error() {
    let errors = run("\"unterminated", parse_number, arithmetic, show_number).err().unwrap();
    assert_eq!(errors.len(), 1);
    assert_eq!(errors[0].line, 1);
    assert_eq!(errors[0].message, "Unexpected character");
    let errors =
        run("1 +\n\n\"unterminated\n", parse_number, arithmetic, show_number).err().unwrap();
    assert_eq!(errors.len(), 1);
    assert_eq!(errors[0].line, 4);
}

#[test]
fn every_scan_error_is_reported_in_order() {
    let errors = run("@ 1\n# 2\n\"open", parse_number, arithmetic, show_number).err().unwrap();
    let lines: Vec<usize> = errors.iter().map(|e| e.line).collect();
    assert_eq!(lines, vec![1, 2, 3]);
}

#[test]
fn arithmetic_and_comparison_through_the_pipeline() {
    assert_eq!(value("10 / 4"), "2.5");
    assert_eq!(value("1 - 2 - 3"), "-4");
    assert_eq!(value("0.1 + 0.2"), "0.30000000000000004");
    assert_eq!(value("1 / 0"), "inf");
    assert_eq!(value("1 < 2"), "true");
    assert_eq!(value("2 <= 1"), "false");
    assert_eq!(value("1 == 1"), "true");
    assert_eq!(value("1 != 1"), "false");
    assert_eq!(value("(0 / 0) == (0 / 0)"), "false");
    assert_eq!(value("nil == nil"), "true");
    assert_eq!(value("nil == 1"), "false");
    assert_eq!(value("1 != nil"), "true");
    assert_eq!(value("-\"a\""), "nil");
}

#[test]
fn report_holds_the_tokens() {
    let r = report("1 + 2 // sum");
    let kinds: Vec<TokenType> = r.tokens.iter().map(|t| t.get_token_type()).collect();
    assert_eq!(
        kinds,
        vec![TokenType::Number, TokenType::Plus, TokenType::Number, TokenType::Eof]
    );
}

#[test]
fn empty_source_has_no_tree() {
    match report("").outcome {
        Outcome::NoTree(e) => assert_eq!(e.message, "Expect expression."),
        _ => panic!("a tree"),
    }
}
