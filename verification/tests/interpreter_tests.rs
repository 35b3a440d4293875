use lox::error::LoxError;
use lox::expr::{BinaryExpr, Expr, GroupingExpr, LiteralExpr, UnaryExpr};
use lox::interpreter::{decide_equality, plan_binary, Interpreter, Step};
use lox::number::Arithmetic;
use lox::token::{Literal, Token, TokenType};

fn arithmetic(op: Arithmetic, a: u64, b: u64) -> u64 {
    let x = f64::from_bits(a);
    let y = f64::from_bits(b);
    let r = match op {
        Arithmetic::Add => x + y,
        Arithmetic::Subtract => x - y,
        Arithmetic::Multiply => x * y,
        Arithmetic::Divide => x / y,
    };
    r.to_bits()
}

fn show_number(n: u64) -> String {
    format!("{}", f64::from_bits(n))
}

fn interpreter() -> Interpreter<fn(Arithmetic, u64, u64) -> u64, fn(u64) -> String> {
    Interpreter::new(
        arithmetic as fn(Arithmetic, u64, u64) -> u64,
        show_number as fn(u64) -> String,
    )
}

fn number(x: f64) -> Literal {
    Literal::Number(x.to_bits())
}

fn make_literal(o: Literal) -> Box<Expr> {
    Box::new(Expr::Literal(LiteralExpr { value: Some(o) }))
}

fn make_literal_string(s: &str) -> Box<Expr> {
    make_literal(Literal::String(s.to_string()))
}

fn op(ty: TokenType, lexeme: &str) -> Token {
    Token::new(ty, lexeme.to_string(), None, 1)
}

fn binary(left: Box<Expr>, ty: TokenType, lexeme: &str, right: Box<Expr>) -> Expr {
    Expr::Binary(BinaryExpr { left, operator: op(ty, lexeme), right })
}

fn unary(ty: TokenType, lexeme: &str, right: Box<Expr>) -> Expr {
    Expr::Unary(UnaryExpr { operator: op(ty, lexeme), right })
}

fn value_of(e: &Expr) -> Result<Literal, LoxError> {
    interpreter().evaluate(e)
}

#[test]
fn test_unary_minus() {
    let terp = interpreter();
    let unary_expr = UnaryExpr {
        operator: Token::new(TokenType::Minus, "-".to_string(), None, 123),
        right: make_literal(number(123.0)),
    };
    let result = terp.visit_unary_expr(&unary_expr);
    assert!(result.is_ok());
    assert_eq!(result.ok(), Some(number(-123.0)));
}

#[test]
fn test_equals_string() {
    let terp = interpreter();
    let binary_expr = BinaryExpr {
        left: make_literal_string("world"),
        operator: Token::new(TokenType::Equal, "==".to_string(), None, 123),
        right: make_literal_string("world"),
    };
    let result = terp.visit_binary_expr(&binary_expr);
    assert!(result.is_ok());
    assert_eq!(result.ok(), Some(Literal::Bool(true)));
}

#[test]
fn literal_evaluates_to_its_value() {
    for x in [0.0, 1.0, -2.5, 1e300, f64::INFINITY] {
        let e = Expr::Literal(LiteralExpr { value: Some(number(x)) });
        assert_eq!(value_of(&e).ok(), Some(number(x)));
    }
    let s = Expr::Literal(LiteralExpr { value: Some(Literal::String("hi".to_string())) });
    assert_eq!(value_of(&s).ok(), Some(Literal::String("hi".to_string())));
}

#[test]
fn literal_without_value_is_nil() {
    let e = Expr::Literal(LiteralExpr { value: None });
    assert_eq!(value_of(&e).ok(), Some(Literal::Nil));
}

#[test]
fn grouping_evaluates_to_its_inner_value() {
    let e = Expr::Grouping(GroupingExpr { expression: make_literal(number(4.0)) });
    assert_eq!(value_of(&e).ok(), Some(number(4.0)));
}

#[test]
fn double_negation_gives_the_number_back() {
    for x in [5.0, -5.0, 0.0, -0.0, 1.5e-7, f64::INFINITY] {
        let inner = unary(TokenType::Minus, "-", make_literal(number(x)));
        let e = unary(TokenType::Minus, "-", Box::new(inner));
        assert_eq!(value_of(&e).ok(), Some(number(x)));
    }
}

#[test]
fn negation_of_zero_is_negative_zero() {
    let e = unary(TokenType::Minus, "-", make_literal(number(0.0)));
    assert_eq!(value_of(&e).ok(), Some(Literal::Number((-0.0f64).to_bits())));
}

#[test]
fn minus_on_a_non_number_is_nil() {
    for v in [Literal::String("a".to_string()), Literal::Bool(true), Literal::Nil] {
        let e = unary(TokenType::Minus, "-", make_literal(v));
        assert_eq!(value_of(&e).ok(), Some(Literal::Nil));
    }
}

#[test]
fn bang_negates_truthiness() {
    let cases = [
        (Literal::Nil, true),
        (Literal::Bool(false), true),
        (Literal::Bool(true), false),
        (number(0.0), false),
        (Literal::String(String::new()), false),
        (Literal::String("x".to_string()), false),
    ];
    for (v, expected) in cases {
        let e = unary(TokenType::Bang, "!", make_literal(v));
        assert_eq!(value_of(&e).ok(), Some(Literal::Bool(expected)));
    }
}

#[test]
fn is_truthy_is_false_only_for_nil_and_false() {
    let terp = interpreter();
    assert!(!terp.is_truthy(&Literal::Nil));
    assert!(!terp.is_truthy(&Literal::Bool(false)));
    assert!(terp.is_truthy(&Literal::Bool(true)));
    assert!(terp.is_truthy(&number(0.0)));
    assert!(terp.is_truthy(&Literal::String(String::new())));
}

#[test]
fn unary_with_another_operator_fails_at_the_operator() {
    let e = unary(TokenType::Plus, "+", make_literal(number(1.0)));
    let err = value_of(&e).err().unwrap();
    assert_eq!(err.message, "Unreachable according to Nystrom");
    assert_eq!(err.token.unwrap().get_token_type(), TokenType::Plus);
}

#[test]
fn number_arithmetic() {
    let cases = [
        (TokenType::Plus, "+", 7.5, 2.5, 10.0),
        (TokenType::Minus, "-", 7.5, 2.5, 5.0),
        (TokenType::Star, "*", 7.5, 2.0, 15.0),
        (TokenType::Slash, "/", 7.5, 2.5, 3.0),
    ];
    for (ty, lexeme, a, b, expected) in cases {
        let e = binary(make_literal(number(a)), ty, lexeme, make_literal(number(b)));
        assert_eq!(value_of(&e).ok(), Some(number(expected)));
    }
}

#[test]
fn division_by_zero_is_not_an_error() {
    let e = binary(make_literal(number(1.0)), TokenType::Slash, "/", make_literal(number(0.0)));
    assert_eq!(value_of(&e).ok(), Some(number(f64::INFINITY)));
    let z = binary(make_literal(number(0.0)), TokenType::Slash, "/", make_literal(number(0.0)));
    match value_of(&z).ok() {
        Some(Literal::Number(bits)) => assert!(f64::from_bits(bits).is_nan()),
        other => panic!("not a number: {:?}", other),
    }
}

#[test]
fn number_comparisons_agree_with_the_machine() {
    let values = [
        0.0,
        -0.0,
        1.0,
        -1.0,
        2.5,
        -2.5,
        1e-320,
        -1e-320,
        f64::MAX,
        f64::MIN,
        f64::INFINITY,
        f64::NEG_INFINITY,
        f64::NAN,
        -f64::NAN,
        f64::MIN_POSITIVE,
    ];
    for a in values {
        for b in values {
            let cases = [
                (TokenType::Greater, ">", a > b),
                (TokenType::GreaterEqual, ">=", a >= b),
                (TokenType::Less, "<", a < b),
                (TokenType::LessEqual, "<=", a <= b),
                (TokenType::EqualEqual, "==", a == b),
                (TokenType::BangEqual, "!=", a != b),
            ];
            for (ty, lexeme, expected) in cases {
                let e = binary(make_literal(number(a)), ty, lexeme, make_literal(number(b)));
                assert_eq!(
                    value_of(&e).ok(),
                    Some(Literal::Bool(expected)),
                    "{} {} {}",
                    a,
                    lexeme,
                    b
                );
            }
        }
    }
}

#[test]
fn number_with_an_operator_that_is_not_binary_is_illegal() {
    let e = binary(make_literal(number(1.0)), TokenType::Bang, "!", make_literal(number(2.0)));
    assert_eq!(value_of(&e).err().unwrap().message, "Illegal expression");
}

#[test]
fn string_equality_compares_by_value() {
    let same = binary(
        make_literal_string("a"),
        TokenType::EqualEqual,
        "==",
        make_literal_string("a"),
    );
    assert_eq!(value_of(&same).ok(), Some(Literal::Bool(true)));
    let other = binary(
        make_literal_string("a"),
        TokenType::EqualEqual,
        "==",
        make_literal_string("b"),
    );
    assert_eq!(value_of(&other).ok(), Some(Literal::Bool(false)));
    let differ = binary(
        make_literal_string("a"),
        TokenType::BangEqual,
        "!=",
        make_literal_string("b"),
    );
    assert_eq!(value_of(&differ).ok(), Some(Literal::Bool(true)));
}

#[test]
fn strings_concatenate() {
    let e = binary(make_literal_string("foo"), TokenType::Plus, "+", make_literal_string("bar"));
    assert_eq!(value_of(&e).ok(), Some(Literal::String("foobar".to_string())));
}

#[test]
fn string_and_number_concatenate_as_text() {
    let a = binary(make_literal_string("foo"), TokenType::Plus, "+", make_literal(number(1.0)));
    assert_eq!(value_of(&a).ok(), Some(Literal::String("foo1".to_string())));
    let b = binary(make_literal(number(1.0)), TokenType::Plus, "+", make_literal_string("foo"));
    assert_eq!(value_of(&b).ok(), Some(Literal::String("1foo".to_string())));
    let c = binary(make_literal(number(2.5)), TokenType::Plus, "+", make_literal_string("x"));
    assert_eq!(value_of(&c).ok(), Some(Literal::String("2.5x".to_string())));
}

#[test]
fn string_and_number_under_another_operator_is_illegal() {
    let a = binary(make_literal_string("foo"), TokenType::Minus, "-", make_literal(number(1.0)));
    assert_eq!(value_of(&a).err().unwrap().message, "Illegal expression");
    let b = binary(
        make_literal(number(1.0)),
        TokenType::EqualEqual,
        "==",
        make_literal_string("1"),
    );
    assert_eq!(value_of(&b).err().unwrap().message, "Illegal expression");
    let c = binary(make_literal_string("a"), TokenType::Less, "<", make_literal_string("b"));
    assert_eq!(value_of(&c).err().unwrap().message, "Illegal expression");
}

#[test]
fn boolean_equality() {
    let cases = [
        (true, TokenType::EqualEqual, "==", true, true),
        (true, TokenType::EqualEqual, "==", false, false),
        (true, TokenType::BangEqual, "!=", false, true),
        (false, TokenType::BangEqual, "!=", false, false),
    ];
    for (a, ty, lexeme, b, expected) in cases {
        let e = binary(make_literal(Literal::Bool(a)), ty, lexeme, make_literal(Literal::Bool(b)));
        assert_eq!(value_of(&e).ok(), Some(Literal::Bool(expected)));
    }
    let e = binary(
        make_literal(Literal::Bool(true)),
        TokenType::Less,
        "<",
        make_literal(Literal::Bool(false)),
    );
    assert_eq!(value_of(&e).err().unwrap().message, "Illegal expression");
}

#[test]
fn nil_equality() {
    let both = binary(
        make_literal(Literal::Nil),
        TokenType::EqualEqual,
        "==",
        make_literal(Literal::Nil),
    );
    assert_eq!(value_of(&both).ok(), Some(Literal::Bool(true)));
    let both_ne = binary(
        make_literal(Literal::Nil),
        TokenType::BangEqual,
        "!=",
        make_literal(Literal::Nil),
    );
    assert_eq!(value_of(&both_ne).ok(), Some(Literal::Bool(false)));
    let left = binary(
        make_literal(Literal::Nil),
        TokenType::EqualEqual,
        "==",
        make_literal(number(1.0)),
    );
    assert_eq!(value_of(&left).ok(), Some(Literal::Bool(false)));
    let right = binary(
        make_literal_string("a"),
        TokenType::BangEqual,
        "!=",
        make_literal(Literal::Nil),
    );
    assert_eq!(value_of(&right).ok(), Some(Literal::Bool(true)));
    let plus = binary(make_literal(Literal::Nil), TokenType::Plus, "+", make_literal(Literal::Nil));
    assert_eq!(value_of(&plus).err().unwrap().message, "Illegal expression");
}

#[test]
fn boolean_plus_number_fails_at_the_plus_token() {
    let e = Expr::Binary(BinaryExpr {
        left: make_literal(Literal::Bool(true)),
        operator: Token::new(TokenType::Plus, "+".to_string(), None, 7),
        right: make_literal(number(1.0)),
    });
    let err = value_of(&e).err().unwrap();
    assert_eq!(err.message, "Illegal expression");
    assert_eq!(err.line, 7);
    assert_eq!(err.location, "");
    let token = err.token.unwrap();
    assert_eq!(token.get_token_type(), TokenType::Plus);
    assert_eq!(token.get_lexeme(), "+");
}

#[test]
fn left_failure_comes_before_right_failure() {
    let left = binary(
        make_literal(Literal::Bool(true)),
        TokenType::Minus,
        "-",
        make_literal(number(1.0)),
    );
    let right = binary(
        make_literal(Literal::Bool(true)),
        TokenType::Star,
        "*",
        make_literal(number(1.0)),
    );
    let e = binary(Box::new(left), TokenType::Plus, "+", Box::new(right));
    let err = value_of(&e).err().unwrap();
    assert_eq!(err.token.unwrap().get_token_type(), TokenType::Minus);
}

#[test]
fn plan_binary_decides_without_arithmetic() {
    match plan_binary(number(1.0), TokenType::Plus, number(2.0)) {
        Step::Compute(Arithmetic::Add, a, b) => {
            assert_eq!(a, 1.0f64.to_bits());
            assert_eq!(b, 2.0f64.to_bits());
        }
        _ => panic!("not an addition"),
    }
    match plan_binary(number(1.0), TokenType::Plus, Literal::String("x".to_string())) {
        Step::NumberThenText(a, s) => {
            assert_eq!(a, 1.0f64.to_bits());
            assert_eq!(s, "x");
        }
        _ => panic!("not a concatenation"),
    }
    match plan_binary(Literal::String("x".to_string()), TokenType::Plus, number(1.0)) {
        Step::TextThenNumber(s, b) => {
            assert_eq!(b, 1.0f64.to_bits());
            assert_eq!(s, "x");
        }
        _ => panic!("not a concatenation"),
    }
    match plan_binary(Literal::Bool(true), TokenType::Plus, number(1.0)) {
        Step::Done(v) => assert_eq!(v, Literal::ArithmeticError),
        _ => panic!("not decided"),
    }
}

#[test]
fn perform_runs_the_functions_of_the_caller() {
    let terp = interpreter();
    assert_eq!(
        terp.perform(Step::Compute(Arithmetic::Multiply, 3.0f64.to_bits(), 4.0f64.to_bits())),
        number(12.0)
    );
    assert_eq!(
        terp.perform(Step::NumberThenText(3.0f64.to_bits(), "x".to_string())),
        Literal::String("3x".to_string())
    );
    assert_eq!(
        terp.perform(Step::TextThenNumber("x".to_string(), 3.5f64.to_bits())),
        Literal::String("x3.5".to_string())
    );
    assert_eq!(terp.perform(Step::Done(Literal::Nil)), Literal::Nil);
}

#[test]
fn decide_equality_by_operator() {
    assert_eq!(decide_equality(TokenType::EqualEqual, true), Literal::Bool(true));
    assert_eq!(decide_equality(TokenType::Equal, false), Literal::Bool(false));
    assert_eq!(decide_equality(TokenType::BangEqual, true), Literal::Bool(false));
    assert_eq!(decide_equality(TokenType::Plus, true), Literal::ArithmeticError);
}

#[test]
fn interpret_gives_the_display_form() {
    let terp = interpreter();
    let e = binary(make_literal(number(1.0)), TokenType::Plus, "+", make_literal(number(2.0)));
    assert_eq!(terp.interpret(&e).ok(), Some("3".to_string()));
    let s = Expr::Literal(LiteralExpr { value: Some(Literal::String("hi".to_string())) });
    assert_eq!(terp.interpret(&s).ok(), Some("hi".to_string()));
    let t = Expr::Literal(LiteralExpr { value: Some(Literal::Bool(true)) });
    assert_eq!(terp.interpret(&t).ok(), Some("true".to_string()));
    let n = Expr::Literal(LiteralExpr { value: None });
    assert_eq!(terp.interpret(&n).ok(), Some("nil".to_string()));
    let bad = binary(
        make_literal(Literal::Bool(true)),
        TokenType::Plus,
        "+",
        make_literal(number(1.0)),
    );
    assert_eq!(terp.interpret(&bad).err().unwrap().message, "Illegal expression");
}
