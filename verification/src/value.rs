//! What the operators of the language do to values.
//!
//! A number is the bit pattern of an IEEE 754 double. Comparing two numbers
//! and changing the sign of one are done here, on the bit patterns; the four
//! arithmetic operations and the text of a number are the host's to give.

use vstd::prelude::*;
use vstd::string::StringExecFns;
use crate::callable::{Callable, CallableView};
use crate::token::{LiteralType, LiteralView, Token, TokenType, TokenView};

verus! {

/// A runtime error: the token that is responsible, if there is one, and what is wrong.
#[derive(Debug)]
pub struct RuntimeError {
    pub token: Option<Token>,
    pub message: String,
}

/// The mathematical value of a [`RuntimeError`].
#[verifier::ext_equal]
pub struct RuntimeErrorView {
    pub token: Option<TokenView>,
    pub message: Seq<char>,
}

impl View for RuntimeError {
    type V = RuntimeErrorView;

    open spec fn view(&self) -> RuntimeErrorView {
        RuntimeErrorView {
            token: match self.token {
                Some(t) => Some(t@),
                None => None,
            },
            message: self.message@,
        }
    }
}

impl RuntimeError {
    /// The error `message` at `token`.
    pub fn new(token: &Token, message: String) -> (r: Self)
        ensures
            r@ == (RuntimeErrorView { token: Some(token@), message: message@ }),
    {
        RuntimeError { token: Some(token.clone()), message }
    }

    /// The error `message`, at no token.
    pub fn no_token(message: String) -> (r: Self)
        ensures
            r@ == (RuntimeErrorView { token: None, message: message@ }),
    {
        RuntimeError { token: None, message }
    }
}

/// The four operations on numbers that the host performs.
#[derive(Debug, Clone, Copy, PartialEq, Eq, Structural)]
pub enum ArithmeticOp {
    Add,
    Subtract,
    Multiply,
    Divide,
}

/// The bit of the sign, and the bound of the bits behind it.
pub const SIGN: u64 = 0x8000_0000_0000_0000;

/// The largest magnitude that is a number: that of the two infinities.
pub const INFINITY: u64 = 0x7ff0_0000_0000_0000;

/// The bits of `bits` but the sign.
pub open spec fn magnitude(bits: u64) -> int {
    if bits >= SIGN {
        bits - SIGN
    } else {
        bits as int
    }
}

/// Whether `bits` is not a number.
pub open spec fn is_nan(bits: u64) -> bool {
    magnitude(bits) > INFINITY
}

/// The place of `bits` in the order of the numbers: the magnitude, negative
/// under the sign. Both zeros have the same place.
pub open spec fn place(bits: u64) -> int {
    if bits >= SIGN {
        -magnitude(bits)
    } else {
        magnitude(bits)
    }
}

/// Whether the number `a` equals the number `b`: neither is a NaN, and they
/// have the same place.
pub open spec fn number_equal(a: u64, b: u64) -> bool {
    !is_nan(a) && !is_nan(b) && place(a) == place(b)
}

/// Whether the number `a` is less than the number `b`: neither is a NaN, and
/// `a` has the lower place.
pub open spec fn number_less(a: u64, b: u64) -> bool {
    !is_nan(a) && !is_nan(b) && place(a) < place(b)
}

/// The number `bits` with the other sign.
pub open spec fn number_negated(bits: u64) -> u64 {
    if bits >= SIGN {
        (bits - SIGN) as u64
    } else {
        (bits + SIGN) as u64
    }
}

fn nan(bits: u64) -> (r: bool)
    ensures
        r == is_nan(bits),
{
    if bits >= SIGN {
        bits - SIGN > INFINITY
    } else {
        bits > INFINITY
    }
}

/// Whether the number `a` equals the number `b`.
pub fn numbers_equal(a: u64, b: u64) -> (r: bool)
    ensures
        r == number_equal(a, b),
{
    if nan(a) || nan(b) {
        return false;
    }
    let zero_a = a == 0 || a == SIGN;
    let zero_b = b == 0 || b == SIGN;
    a == b || (zero_a && zero_b)
}

/// Whether the number `a` is less than the number `b`.
pub fn numbers_less(a: u64, b: u64) -> (r: bool)
    ensures
        r == number_less(a, b),
{
    if nan(a) || nan(b) {
        return false;
    }
    if a >= SIGN {
        if b >= SIGN {
            a > b
        } else {
            a - SIGN > 0 || b > 0
        }
    } else {
        if b >= SIGN {
            false
        } else {
            a < b
        }
    }
}

/// The number `bits` with the other sign.
pub fn negate(bits: u64) -> (r: u64)
    ensures
        r == number_negated(bits),
{
    if bits >= SIGN {
        bits - SIGN
    } else {
        bits + SIGN
    }
}

/// Whether a value counts as true: every value but `nil` and `false` does.
pub open spec fn truthy(value: LiteralView) -> bool {
    match value {
        LiteralView::Nil => false,
        LiteralView::Bool(b) => b,
        _ => true,
    }
}

/// Whether two values are equal. `nil` equals `nil` only; strings, numbers
/// and booleans equal their like of the same value; every other pair is unequal.
pub open spec fn equal(left: LiteralView, right: LiteralView) -> bool {
    match (left, right) {
        (LiteralView::Nil, LiteralView::Nil) => true,
        (LiteralView::String(a), LiteralView::String(b)) => a == b,
        (LiteralView::Number(a), LiteralView::Number(b)) => number_equal(a, b),
        (LiteralView::Bool(a), LiteralView::Bool(b)) => a == b,
        _ => false,
    }
}

/// Whether `literal` counts as true.
pub fn is_truthy(literal: &LiteralType) -> (r: bool)
    ensures
        r == truthy(literal@),
{
    match literal {
        LiteralType::Nil => false,
        LiteralType::Bool(val) => *val,
        _ => true,
    }
}

/// Whether `left` and `right` are equal.
pub fn is_equal(left: &LiteralType, right: &LiteralType) -> (r: bool)
    ensures
        r == equal(left@, right@),
{
    match (left, right) {
        (LiteralType::Nil, LiteralType::Nil) => true,
        (LiteralType::String(s), LiteralType::String(s2)) => *s == *s2,
        (LiteralType::Number(n1), LiteralType::Number(n2)) => numbers_equal(*n1, *n2),
        (LiteralType::Bool(t1), LiteralType::Bool(t2)) => *t1 == *t2,
        _ => false,
    }
}

/// What a binary operator comes to on two values.
#[derive(Debug)]
pub enum Outcome {
    /// The result is this value.
    Value(LiteralType),
    /// The result is what the host computes from the two numbers.
    Arithmetic { op: ArithmeticOp, left: u64, right: u64 },
    /// The result is the text of the number `number`, as the host gives it,
    /// joined with `text`: the number first where `number_first` holds.
    Join { number: u64, text: String, number_first: bool },
    /// The operator does not take these values.
    Error(RuntimeError),
}

/// The mathematical value of an [`Outcome`].
#[verifier::ext_equal]
pub enum OutcomeView {
    Value(LiteralView),
    Arithmetic { op: ArithmeticOp, left: u64, right: u64 },
    Join { number: u64, text: Seq<char>, number_first: bool },
    Error(RuntimeErrorView),
}

impl View for Outcome {
    type V = OutcomeView;

    open spec fn view(&self) -> OutcomeView {
        match self {
            Outcome::Value(v) => OutcomeView::Value(v@),
            Outcome::Arithmetic { op, left, right } => OutcomeView::Arithmetic {
                op: *op,
                left: *left,
                right: *right,
            },
            Outcome::Join { number, text, number_first } => OutcomeView::Join {
                number: *number,
                text: text@,
                number_first: *number_first,
            },
            Outcome::Error(e) => OutcomeView::Error(e@),
        }
    }
}

/// The error `message` at the operator `op`.
pub open spec fn operator_error(op: TokenView, message: Seq<char>) -> OutcomeView {
    OutcomeView::Error(RuntimeErrorView { token: Some(op), message })
}

/// What the binary operator `op` comes to on `left` and `right`.
///
/// The four comparisons take two numbers. `==` and `!=` take any two values.
/// `-`, `/` and `*` take two numbers, and so does `+`, which also joins two
/// strings, or a string and the text of a number. The comma gives its right
/// operand.
pub open spec fn binary_outcome(left: LiteralView, right: LiteralView, op: TokenView) -> OutcomeView {
    let t = op.t_type;
    if t == TokenType::BangEqual {
        OutcomeView::Value(LiteralView::Bool(!equal(left, right)))
    } else if t == TokenType::EqualEqual {
        OutcomeView::Value(LiteralView::Bool(equal(left, right)))
    } else if t == TokenType::Comma {
        OutcomeView::Value(right)
    } else if t == TokenType::Greater || t == TokenType::GreaterEqual || t == TokenType::Less || t
        == TokenType::LessEqual || t == TokenType::Minus || t == TokenType::Slash || t
        == TokenType::Star {
        match (left, right) {
            (LiteralView::Number(a), LiteralView::Number(b)) => if t == TokenType::Greater {
                OutcomeView::Value(LiteralView::Bool(number_less(b, a)))
            } else if t == TokenType::GreaterEqual {
                OutcomeView::Value(LiteralView::Bool(number_less(b, a) || number_equal(a, b)))
            } else if t == TokenType::Less {
                OutcomeView::Value(LiteralView::Bool(number_less(a, b)))
            } else if t == TokenType::LessEqual {
                OutcomeView::Value(LiteralView::Bool(number_less(a, b) || number_equal(a, b)))
            } else if t == TokenType::Minus {
                OutcomeView::Arithmetic { op: ArithmeticOp::Subtract, left: a, right: b }
            } else if t == TokenType::Slash {
                OutcomeView::Arithmetic { op: ArithmeticOp::Divide, left: a, right: b }
            } else {
                OutcomeView::Arithmetic { op: ArithmeticOp::Multiply, left: a, right: b }
            },
            _ => operator_error(op, "Operands must be numbers"@),
        }
    } else if t == TokenType::Plus {
        match (left, right) {
            (LiteralView::Number(a), LiteralView::Number(b)) => OutcomeView::Arithmetic {
                op: ArithmeticOp::Add,
                left: a,
                right: b,
            },
            (LiteralView::String(a), LiteralView::String(b)) => OutcomeView::Value(
                LiteralView::String(a + b),
            ),
            (LiteralView::String(a), LiteralView::Number(b)) => OutcomeView::Join {
                number: b,
                text: a,
                number_first: false,
            },
            (LiteralView::Number(a), LiteralView::String(b)) => OutcomeView::Join {
                number: a,
                text: b,
                number_first: true,
            },
            _ => operator_error(op, "Operands must be two numbers or two strings"@),
        }
    } else {
        operator_error(op, "Unknown binary operator"@)
    }
}

/// What the binary operator `op` comes to on `left` and `right`.
pub fn binary(left: &LiteralType, right: &LiteralType, op: &Token) -> (r: Outcome)
    ensures
        r@ == binary_outcome(left@, right@, op@),
{
    let t = op.t_type;
    if t == TokenType::BangEqual {
        Outcome::Value(LiteralType::Bool(!is_equal(left, right)))
    } else if t == TokenType::EqualEqual {
        Outcome::Value(LiteralType::Bool(is_equal(left, right)))
    } else if t == TokenType::Comma {
        Outcome::Value(right.clone())
    } else if t == TokenType::Greater || t == TokenType::GreaterEqual || t == TokenType::Less || t
        == TokenType::LessEqual || t == TokenType::Minus || t == TokenType::Slash || t
        == TokenType::Star {
        match (left, right) {
            (LiteralType::Number(a), LiteralType::Number(b)) => if t == TokenType::Greater {
                Outcome::Value(LiteralType::Bool(numbers_less(*b, *a)))
            } else if t == TokenType::GreaterEqual {
                Outcome::Value(LiteralType::Bool(numbers_less(*b, *a) || numbers_equal(*a, *b)))
            } else if t == TokenType::Less {
                Outcome::Value(LiteralType::Bool(numbers_less(*a, *b)))
            } else if t == TokenType::LessEqual {
                Outcome::Value(LiteralType::Bool(numbers_less(*a, *b) || numbers_equal(*a, *b)))
            } else if t == TokenType::Minus {
                Outcome::Arithmetic { op: ArithmeticOp::Subtract, left: *a, right: *b }
            } else if t == TokenType::Slash {
                Outcome::Arithmetic { op: ArithmeticOp::Divide, left: *a, right: *b }
            } else {
                Outcome::Arithmetic { op: ArithmeticOp::Multiply, left: *a, right: *b }
            },
            _ => Outcome::Error(RuntimeError::new(op, "Operands must be numbers".to_owned())),
        }
    } else if t == TokenType::Plus {
        match (left, right) {
            (LiteralType::Number(a), LiteralType::Number(b)) => Outcome::Arithmetic {
                op: ArithmeticOp::Add,
                left: *a,
                right: *b,
            },
            (LiteralType::String(a), LiteralType::String(b)) => Outcome::Value(
                LiteralType::String(a.clone().concat(b.as_str())),
            ),
            (LiteralType::String(a), LiteralType::Number(b)) => Outcome::Join {
                number: *b,
                text: a.clone(),
                number_first: false,
            },
            (LiteralType::Number(a), LiteralType::String(b)) => Outcome::Join {
                number: *a,
                text: b.clone(),
                number_first: true,
            },
            _ => Outcome::Error(
                RuntimeError::new(op, "Operands must be two numbers or two strings".to_owned()),
            ),
        }
    } else {
        Outcome::Error(RuntimeError::new(op, "Unknown binary operator".to_owned()))
    }
}

/// What the unary operator `op` makes of `right`: `-` changes the sign of a
/// number, `!` gives whether the value counts as false.
pub open spec fn unary_outcome(right: LiteralView, op: TokenView) -> Result<
    LiteralView,
    RuntimeErrorView,
> {
    if op.t_type == TokenType::Bang {
        Ok(LiteralView::Bool(!truthy(right)))
    } else if op.t_type == TokenType::Minus {
        match right {
            LiteralView::Number(bits) => Ok(LiteralView::Number(number_negated(bits))),
            _ => Err(RuntimeErrorView { token: Some(op), message: "Operand must be a number"@ }),
        }
    } else {
        Err(RuntimeErrorView { token: Some(op), message: "Unknown unary operator"@ })
    }
}

/// Whether the outcome `r` is the outcome `s`.
pub open spec fn is_value(r: Result<LiteralType, RuntimeError>, s: Result<LiteralView, RuntimeErrorView>)
    -> bool {
    match (r, s) {
        (Ok(v), Ok(w)) => v@ == w,
        (Err(e), Err(f)) => e@ == f,
        _ => false,
    }
}

/// What the unary operator `op` makes of `right`.
pub fn unary(right: &LiteralType, op: &Token) -> (r: Result<LiteralType, RuntimeError>)
    ensures
        is_value(r, unary_outcome(right@, op@)),
{
    if op.t_type == TokenType::Bang {
        Ok(LiteralType::Bool(!is_truthy(right)))
    } else if op.t_type == TokenType::Minus {
        match right {
            LiteralType::Number(num) => Ok(LiteralType::Number(negate(*num))),
            _ => Err(RuntimeError::new(op, "Operand must be a number".to_owned())),
        }
    } else {
        Err(RuntimeError::new(op, "Unknown unary operator".to_owned()))
    }
}

/// What is printed for a value: a text, or a number, whose text with two
/// decimals is the host's to give.
#[derive(Debug)]
pub enum Printable {
    Text(String),
    Number(u64),
}

/// The mathematical value of a [`Printable`].
#[verifier::ext_equal]
pub enum PrintableView {
    Text(Seq<char>),
    Number(u64),
}

impl View for Printable {
    type V = PrintableView;

    open spec fn view(&self) -> PrintableView {
        match self {
            Printable::Text(s) => PrintableView::Text(s@),
            Printable::Number(bits) => PrintableView::Number(*bits),
        }
    }
}

/// The name of a callable.
pub open spec fn callable_name(c: CallableView) -> Seq<char> {
    match c {
        CallableView::Function { name, .. } => name.lexeme,
        CallableView::NativeFunction { name, .. } => name,
    }
}

/// What is printed for `value`: a string as it is, a boolean as `true` or
/// `false`, `nil` as `nil`, a callable as `<fn NAME>`.
pub open spec fn rendering(value: LiteralView) -> PrintableView {
    match value {
        LiteralView::String(s) => PrintableView::Text(s),
        LiteralView::Number(bits) => PrintableView::Number(bits),
        LiteralView::Bool(b) => PrintableView::Text(
            if b {
                "true"@
            } else {
                "false"@
            },
        ),
        LiteralView::Nil => PrintableView::Text("nil"@),
        LiteralView::Callable(c) => PrintableView::Text("<fn "@ + callable_name(c) + ">"@),
    }
}

/// What is printed for `value`.
pub fn render(value: &LiteralType) -> (r: Printable)
    ensures
        r@ == rendering(value@),
{
    match value {
        LiteralType::String(s) => Printable::Text(s.clone()),
        LiteralType::Number(bits) => Printable::Number(*bits),
        LiteralType::Bool(b) => Printable::Text(
            if *b {
                "true".to_owned()
            } else {
                "false".to_owned()
            },
        ),
        LiteralType::Nil => Printable::Text("nil".to_owned()),
        LiteralType::Callable(c) => {
            let mut text = "<fn ".to_owned();
            match c {
                Callable::Function { name, .. } => {
                    text.append(name.lexeme.as_str());
                },
                Callable::NativeFunction(native) => {
                    text.append(native.name.as_str());
                },
            }
            text.append(">");
            Printable::Text(text)
        },
    }
}

/// The decimal digits of `n`.
pub open spec fn decimal(n: nat) -> Seq<char>
    decreases n,
{
    if n < 10 {
        seq![digit(n)]
    } else {
        decimal(n / 10).push(digit(n % 10))
    }
}

/// The character of the digit `d`.
pub open spec fn digit(d: nat) -> char {
    if d == 0 {
        '0'
    } else if d == 1 {
        '1'
    } else if d == 2 {
        '2'
    } else if d == 3 {
        '3'
    } else if d == 4 {
        '4'
    } else if d == 5 {
        '5'
    } else if d == 6 {
        '6'
    } else if d == 7 {
        '7'
    } else if d == 8 {
        '8'
    } else {
        '9'
    }
}

fn digit_of(d: usize) -> (c: char)
    requires
        d < 10,
    ensures
        c == digit(d as nat),
{
    if d == 0 {
        '0'
    } else if d == 1 {
        '1'
    } else if d == 2 {
        '2'
    } else if d == 3 {
        '3'
    } else if d == 4 {
        '4'
    } else if d == 5 {
        '5'
    } else if d == 6 {
        '6'
    } else if d == 7 {
        '7'
    } else if d == 8 {
        '8'
    } else {
        '9'
    }
}

/// The decimal digits of `n`, behind the text `text`.
pub fn push_decimal(text: &mut String, n: usize)
    ensures
        final(text)@ == old(text)@ + decimal(n as nat),
    decreases n,
{
    if n < 10 {
        text.push(digit_of(n));
        assert(text@ =~= old(text)@ + decimal(n as nat));
    } else {
        push_decimal(text, n / 10);
        text.push(digit_of(n % 10));
        assert(text@ =~= old(text)@ + decimal(n as nat));
    }
}

} // verus!
