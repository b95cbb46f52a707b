use izanami::callable::{Callable, CallableTrait, NativeFunction};
use izanami::environment::{Environment, EnvironmentError};
use izanami::interpreter::{is_equal, is_truthy, RuntimeError};
use izanami::token::{LiteralType, Token, TokenType};
use izanami::value::{
    binary, negate, numbers_equal, numbers_less, render, unary, ArithmeticOp, Outcome, Printable,
};

fn samples() -> Vec<f64> {
    vec![
        0.0,
        -0.0,
        1.0,
        -1.0,
        0.5,
        -0.5,
        1e300,
        -1e300,
        5e-324,
        -5e-324,
        f64::MAX,
        f64::MIN,
        f64::INFINITY,
        f64::NEG_INFINITY,
        f64::NAN,
        -f64::NAN,
        f64::from_bits(0x7ff0_0000_0000_0001),
        f64::from_bits(0xfff8_0000_0000_0001),
        123.456,
        -123.456,
    ]
}

fn token(kind: TokenType, text: &str) -> Token {
    Token::new(kind, text, None, 1)
}

fn name(text: &str) -> Token {
    token(TokenType::Identifier, text)
}

fn number(value: f64) -> LiteralType {
    LiteralType::Number(value.to_bits())
}

fn string(text: &str) -> LiteralType {
    LiteralType::String(text.to_string())
}

#[test]
fn numbers_compare_as_doubles_do() {
    for a in samples() {
        for b in samples() {
            assert_eq!(numbers_equal(a.to_bits(), b.to_bits()), a == b, "{a} == {b}");
            assert_eq!(numbers_less(a.to_bits(), b.to_bits()), a < b, "{a} < {b}");
        }
    }
}

#[test]
fn negation_is_that_of_doubles() {
    for a in samples() {
        assert_eq!(negate(a.to_bits()), (-a).to_bits(), "-{a}");
    }
}

#[test]
fn comparison_operators_are_those_of_doubles() {
    for a in samples() {
        for b in samples() {
            for (kind, text, expected) in [
                (TokenType::Greater, ">", a > b),
                (TokenType::GreaterEqual, ">=", a >= b),
                (TokenType::Less, "<", a < b),
                (TokenType::LessEqual, "<=", a <= b),
                (TokenType::EqualEqual, "==", a == b),
                (TokenType::BangEqual, "!=", a != b),
            ] {
                match binary(&number(a), &number(b), &token(kind, text)) {
                    Outcome::Value(LiteralType::Bool(found)) => {
                        assert_eq!(found, expected, "{a} {text} {b}")
                    }
                    other => panic!("{a} {text} {b} comes to {other:?}"),
                }
            }
        }
    }
}

#[test]
fn arithmetic_is_asked_of_the_host() {
    for (kind, text, expected) in [
        (TokenType::Plus, "+", ArithmeticOp::Add),
        (TokenType::Minus, "-", ArithmeticOp::Subtract),
        (TokenType::Star, "*", ArithmeticOp::Multiply),
        (TokenType::Slash, "/", ArithmeticOp::Divide),
    ] {
        match binary(&number(6.0), &number(3.0), &token(kind, text)) {
            Outcome::Arithmetic { op, left, right } => {
                assert_eq!(op, expected);
                assert_eq!(left, 6.0f64.to_bits());
                assert_eq!(right, 3.0f64.to_bits());
            }
            other => panic!("comes to {other:?}"),
        }
    }
}

#[test]
fn plus_on_strings() {
    let plus = token(TokenType::Plus, "+");
    assert!(matches!(
        binary(&string("ab"), &string("cd"), &plus),
        Outcome::Value(LiteralType::String(s)) if s == "abcd"
    ));
    assert!(matches!(
        binary(&string("ab"), &number(1.0), &plus),
        Outcome::Join { number, text, number_first: false } if number == 1.0f64.to_bits() && text == "ab"
    ));
    assert!(matches!(
        binary(&number(2.0), &string("cd"), &plus),
        Outcome::Join { number, text, number_first: true } if number == 2.0f64.to_bits() && text == "cd"
    ));
    match binary(&LiteralType::Nil, &string("cd"), &plus) {
        Outcome::Error(RuntimeError { token: Some(t), message }) => {
            assert_eq!(message, "Operands must be two numbers or two strings");
            assert_eq!(t.t_type, TokenType::Plus);
        }
        other => panic!("comes to {other:?}"),
    }
}

#[test]
fn operators_that_are_none() {
    match binary(&number(1.0), &number(2.0), &token(TokenType::Dot, ".")) {
        Outcome::Error(error) => assert_eq!(error.message, "Unknown binary operator"),
        other => panic!("comes to {other:?}"),
    }
    match unary(&number(1.0), &token(TokenType::Plus, "+")) {
        Err(error) => assert_eq!(error.message, "Unknown unary operator"),
        other => panic!("comes to {other:?}"),
    }
    assert!(matches!(
        binary(&number(1.0), &string("x"), &token(TokenType::Comma, ",")),
        Outcome::Value(LiteralType::String(s)) if s == "x"
    ));
}

#[test]
fn unary_operators() {
    let minus = token(TokenType::Minus, "-");
    let bang = token(TokenType::Bang, "!");
    assert!(matches!(unary(&number(2.5), &minus), Ok(LiteralType::Number(b)) if f64::from_bits(b) == -2.5));
    assert!(matches!(unary(&LiteralType::Nil, &bang), Ok(LiteralType::Bool(true))));
    assert!(matches!(unary(&number(0.0), &bang), Ok(LiteralType::Bool(false))));
    match unary(&string("a"), &minus) {
        Err(RuntimeError { token: Some(t), message }) => {
            assert_eq!(message, "Operand must be a number");
            assert_eq!(t.lexeme, "-");
        }
        other => panic!("comes to {other:?}"),
    }
}

#[test]
fn truthiness_of_values() {
    assert!(!is_truthy(&LiteralType::Nil));
    assert!(!is_truthy(&LiteralType::Bool(false)));
    assert!(is_truthy(&LiteralType::Bool(true)));
    assert!(is_truthy(&number(0.0)));
    assert!(is_truthy(&string("")));
    assert!(is_truthy(&LiteralType::Callable(Callable::NativeFunction(NativeFunction::new(
        "clock".to_string(),
        0
    )))));
}

#[test]
fn equality_of_values() {
    assert!(is_equal(&LiteralType::Nil, &LiteralType::Nil));
    assert!(!is_equal(&LiteralType::Nil, &LiteralType::Bool(false)));
    assert!(!is_equal(&LiteralType::Bool(false), &LiteralType::Nil));
    assert!(is_equal(&string("a"), &string("a")));
    assert!(!is_equal(&string("a"), &string("b")));
    assert!(is_equal(&number(1.0), &number(1.0)));
    assert!(is_equal(&number(0.0), &number(-0.0)));
    assert!(!is_equal(&number(f64::NAN), &number(f64::NAN)));
    assert!(!is_equal(&number(1.0), &string("1")));
    assert!(is_equal(&LiteralType::Bool(true), &LiteralType::Bool(true)));
    let clock = LiteralType::Callable(Callable::NativeFunction(NativeFunction::new(
        "clock".to_string(),
        0,
    )));
    assert!(!is_equal(&clock, &clock.clone()));
}

#[test]
fn values_are_rendered() {
    assert!(matches!(render(&string("hi")), Printable::Text(s) if s == "hi"));
    assert!(matches!(render(&number(1.5)), Printable::Number(b) if b == 1.5f64.to_bits()));
    assert!(matches!(render(&LiteralType::Bool(true)), Printable::Text(s) if s == "true"));
    assert!(matches!(render(&LiteralType::Bool(false)), Printable::Text(s) if s == "false"));
    assert!(matches!(render(&LiteralType::Nil), Printable::Text(s) if s == "nil"));
    let native = Callable::NativeFunction(NativeFunction::new("clock".to_string(), 0));
    assert!(matches!(render(&LiteralType::Callable(native)), Printable::Text(s) if s == "<fn clock>"));
    let function = Callable::Function {
        name: Box::new(name("area")),
        params: vec![name("w"), name("h")],
        body: Vec::new(),
        closure: 0,
    };
    assert!(matches!(render(&LiteralType::Callable(function)), Printable::Text(s) if s == "<fn area>"));
}

#[test]
fn arity_of_callables() {
    let native = Callable::NativeFunction(NativeFunction::new("f".to_string(), 3));
    assert_eq!(native.arity(), 3);
    let function = Callable::Function {
        name: Box::new(name("area")),
        params: vec![name("w"), name("h")],
        body: Vec::new(),
        closure: 0,
    };
    assert_eq!(function.arity(), 2);
    let many = Callable::Function {
        name: Box::new(name("many")),
        params: (0..300).map(|_| name("p")).collect(),
        body: Vec::new(),
        closure: 0,
    };
    assert_eq!(many.arity(), 300);
}

#[test]
fn runtime_errors_are_made() {
    let error = RuntimeError::new(&name("x"), "wrong".to_string());
    assert_eq!(error.message, "wrong");
    assert_eq!(error.token.unwrap().lexeme, "x");
    let error = RuntimeError::no_token("worse".to_string());
    assert_eq!(error.message, "worse");
    assert!(error.token.is_none());
}

#[test]
fn environment_defines_in_the_scope_itself() {
    let mut environment = Environment::new();
    assert_eq!(environment.len(), 1);
    let inner = environment.with_enclosing(0);
    assert_eq!(inner, 1);
    environment.define(0, "a", Some(number(1.0)));
    environment.define(inner, "a", Some(number(2.0)));
    assert!(matches!(environment.get(inner, &name("a")), Some(Some(LiteralType::Number(b))) if f64::from_bits(b) == 2.0));
    assert!(matches!(environment.get(0, &name("a")), Some(Some(LiteralType::Number(b))) if f64::from_bits(b) == 1.0));
    environment.define(0, "a", Some(string("again")));
    assert!(matches!(environment.get(0, &name("a")), Some(Some(LiteralType::String(s))) if s == "again"));
}

#[test]
fn environment_looks_outward() {
    let mut environment = Environment::new();
    let middle = environment.with_enclosing(0);
    let inner = environment.with_enclosing(middle);
    let other = environment.with_enclosing(0);
    environment.define(0, "g", Some(number(1.0)));
    environment.define(middle, "m", None);
    assert!(matches!(environment.get(inner, &name("g")), Some(Some(_))));
    assert!(matches!(environment.get(inner, &name("m")), Some(None)));
    assert!(environment.get(other, &name("m")).is_none());
    assert!(environment.get(inner, &name("nothing")).is_none());
    assert!(environment.get(0, &name("m")).is_none());
}

#[test]
fn environment_assigns_where_the_name_is_defined() {
    let mut environment = Environment::new();
    let inner = environment.with_enclosing(0);
    environment.define(0, "a", Some(number(1.0)));
    assert!(environment.assign(inner, &name("a"), number(5.0)).is_ok());
    assert!(matches!(environment.get(0, &name("a")), Some(Some(LiteralType::Number(b))) if f64::from_bits(b) == 5.0));
    environment.define(inner, "a", None);
    assert!(environment.assign(inner, &name("a"), number(6.0)).is_ok());
    assert!(matches!(environment.get(inner, &name("a")), Some(Some(LiteralType::Number(b))) if f64::from_bits(b) == 6.0));
    assert!(matches!(environment.get(0, &name("a")), Some(Some(LiteralType::Number(b))) if f64::from_bits(b) == 5.0));
    assert!(matches!(
        environment.assign(inner, &name("b"), number(1.0)),
        Err(EnvironmentError::AssignError)
    ));
    assert!(environment.get(inner, &name("b")).is_none());
    assert!(environment.get(0, &name("b")).is_none());
}

#[test]
fn environment_gives_up_the_last_scope_only() {
    let mut environment = Environment::new();
    let first = environment.with_enclosing(0);
    let second = environment.with_enclosing(first);
    assert!(!environment.release(0));
    assert!(!environment.release(first));
    assert!(environment.release(second));
    assert_eq!(environment.len(), 2);
    environment.capture(first);
    assert!(!environment.release(first));
    assert_eq!(environment.len(), 2);
    assert_eq!(environment.with_enclosing(first), 2);
}
