//! The state of the evaluator: what it is doing, and what it has yet to do.
//!
//! The evaluator is a machine that the host drives step by step. Its state is
//! the environment, the handle of the current scope, the control (what is
//! being evaluated, executed or handed on) and a stack of frames (what is to
//! be done with the result).

use vstd::prelude::*;
use crate::ast::{Expr, ExprView, Stmt, StmtView, exprs_model, stmts_model, stmt_option_model};
use crate::environment::ScopeView;
use crate::token::{LiteralType, LiteralView, Token, TokenView};
use crate::value::{ArithmeticOp, Printable, PrintableView, RuntimeError, RuntimeErrorView};

verus! {

/// What ends the normal course of execution.
#[derive(Debug)]
pub enum InterpreterSignal {
    /// Evaluation failed.
    RuntimeError(RuntimeError),
    /// A `break` statement was executed.
    Break,
    /// A `return` statement was executed, with this value.
    Return(LiteralType),
}

/// The mathematical value of an [`InterpreterSignal`].
#[verifier::ext_equal]
pub enum SignalView {
    RuntimeError(RuntimeErrorView),
    Break,
    Return(LiteralView),
}

impl View for InterpreterSignal {
    type V = SignalView;

    open spec fn view(&self) -> SignalView {
        match self {
            InterpreterSignal::RuntimeError(e) => SignalView::RuntimeError(e@),
            InterpreterSignal::Break => SignalView::Break,
            InterpreterSignal::Return(v) => SignalView::Return(v@),
        }
    }
}

impl From<RuntimeError> for InterpreterSignal {
    fn from(value: RuntimeError) -> (r: Self) {
        InterpreterSignal::RuntimeError(value)
    }
}

impl vstd::std_specs::convert::FromSpecImpl<RuntimeError> for InterpreterSignal {
    open spec fn obeys_from_spec() -> bool {
        true
    }

    open spec fn from_spec(value: RuntimeError) -> Self {
        InterpreterSignal::RuntimeError(value)
    }
}

impl InterpreterSignal {
    /// The runtime error that the signal is. A `break` and a `return` are no
    /// errors: they are not to be asked for one.
    pub fn into_error(self) -> (r: RuntimeError)
        requires
            self is RuntimeError,
        ensures
            r == self->RuntimeError_0,
    {
        match self {
            InterpreterSignal::RuntimeError(runtime_error) => runtime_error,
            _ => RuntimeError::no_token(String::new()),
        }
    }
}

/// The two scopes that evaluation goes by: the global one and the current one.
#[derive(Debug, Clone, Copy, PartialEq, Eq, Structural)]
pub struct InterpreterEnvironment {
    pub globals: usize,
    pub environment: usize,
}

/// What is to be done with the result of what the machine is doing now.
#[derive(Debug)]
pub enum Frame {
    /// The value is the condition of a ternary: one of the two is evaluated next.
    Ternary { second: Expr, third: Expr },
    /// The value is the left operand: the right one is evaluated next.
    BinaryRight { op: Token, right: Expr },
    /// The value is the right operand: the operator is applied.
    BinaryApply { op: Token, left: LiteralType },
    /// The value is the operand of a unary operator.
    Unary { op: Token },
    /// The value is assigned to the variable.
    Assign { name: Token },
    /// The value is the left operand of `and` or `or`.
    Logical { op: Token, right: Expr },
    /// The value is what is called: the arguments are evaluated next.
    Callee { paren: Token, args: Vec<Expr> },
    /// The value is the argument behind the arguments `done`.
    Arguments { paren: Token, callee: LiteralType, args: Vec<Expr>, done: Vec<LiteralType> },
    /// The value is that of an expression statement.
    Discard,
    /// The value is printed.
    Print,
    /// The value is what the variable is declared with.
    Define { name: Token },
    /// The value is the condition of an `if`.
    Branch { then_branch: Stmt, else_branch: Option<Stmt> },
    /// The value is the condition of a loop.
    LoopTest { condition: Expr, body: Stmt },
    /// The body of a loop is being executed. A `break` ends here.
    LoopBody { condition: Expr, body: Stmt },
    /// The value is returned.
    Return,
    /// Statements in a row: the one with index `next` comes next.
    Sequence { statements: Vec<Stmt>, next: usize },
    /// A scope was entered: behind it, `outer` is the current scope again.
    Scope { outer: usize },
    /// A function is being executed. A `return` ends here.
    Call { outer: usize },
}

/// The mathematical value of a [`Frame`].
#[verifier::ext_equal]
pub enum FrameView {
    Ternary { second: ExprView, third: ExprView },
    BinaryRight { op: TokenView, right: ExprView },
    BinaryApply { op: TokenView, left: LiteralView },
    Unary { op: TokenView },
    Assign { name: TokenView },
    Logical { op: TokenView, right: ExprView },
    Callee { paren: TokenView, args: Seq<ExprView> },
    Arguments { paren: TokenView, callee: LiteralView, args: Seq<ExprView>, done: Seq<LiteralView> },
    Discard,
    Print,
    Define { name: TokenView },
    Branch { then_branch: StmtView, else_branch: Option<StmtView> },
    LoopTest { condition: ExprView, body: StmtView },
    LoopBody { condition: ExprView, body: StmtView },
    Return,
    Sequence { statements: Seq<StmtView>, next: usize },
    Scope { outer: usize },
    Call { outer: usize },
}

/// The views of a sequence of values, one by one.
pub open spec fn values_model(values: Seq<LiteralType>) -> Seq<LiteralView> {
    Seq::new(values.len(), |i: int| values[i].model())
}

impl View for Frame {
    type V = FrameView;

    open spec fn view(&self) -> FrameView {
        match self {
            Frame::Ternary { second, third } => FrameView::Ternary {
                second: second@,
                third: third@,
            },
            Frame::BinaryRight { op, right } => FrameView::BinaryRight { op: op@, right: right@ },
            Frame::BinaryApply { op, left } => FrameView::BinaryApply { op: op@, left: left@ },
            Frame::Unary { op } => FrameView::Unary { op: op@ },
            Frame::Assign { name } => FrameView::Assign { name: name@ },
            Frame::Logical { op, right } => FrameView::Logical { op: op@, right: right@ },
            Frame::Callee { paren, args } => FrameView::Callee {
                paren: paren@,
                args: exprs_model(args@),
            },
            Frame::Arguments { paren, callee, args, done } => FrameView::Arguments {
                paren: paren@,
                callee: callee@,
                args: exprs_model(args@),
                done: values_model(done@),
            },
            Frame::Discard => FrameView::Discard,
            Frame::Print => FrameView::Print,
            Frame::Define { name } => FrameView::Define { name: name@ },
            Frame::Branch { then_branch, else_branch } => FrameView::Branch {
                then_branch: then_branch@,
                else_branch: stmt_option_model(*else_branch),
            },
            Frame::LoopTest { condition, body } => FrameView::LoopTest {
                condition: condition@,
                body: body@,
            },
            Frame::LoopBody { condition, body } => FrameView::LoopBody {
                condition: condition@,
                body: body@,
            },
            Frame::Return => FrameView::Return,
            Frame::Sequence { statements, next } => FrameView::Sequence {
                statements: stmts_model(statements@),
                next: *next,
            },
            Frame::Scope { outer } => FrameView::Scope { outer: *outer },
            Frame::Call { outer } => FrameView::Call { outer: *outer },
        }
    }
}

/// The views of a sequence of frames, one by one.
pub open spec fn frames_model(frames: Seq<Frame>) -> Seq<FrameView> {
    Seq::new(frames.len(), |i: int| frames[i]@)
}

/// What the machine waits for from the host.
#[derive(Debug)]
pub enum Pending {
    /// The result of an arithmetic operation.
    Arithmetic,
    /// The text of a number, to be joined with `text`.
    Join { text: String, number_first: bool },
    /// The result of a native function.
    Native,
}

/// The mathematical value of a [`Pending`].
#[verifier::ext_equal]
pub enum PendingView {
    Arithmetic,
    Join { text: Seq<char>, number_first: bool },
    Native,
}

impl View for Pending {
    type V = PendingView;

    open spec fn view(&self) -> PendingView {
        match self {
            Pending::Arithmetic => PendingView::Arithmetic,
            Pending::Join { text, number_first } => PendingView::Join {
                text: text@,
                number_first: *number_first,
            },
            Pending::Native => PendingView::Native,
        }
    }
}

/// What the machine is doing.
#[derive(Debug)]
pub enum Control {
    /// The expression is to be evaluated.
    Evaluate(Expr),
    /// The statement is to be executed.
    Execute(Stmt),
    /// The value is handed to the top frame.
    Value(LiteralType),
    /// A statement has been executed: the top frame goes on.
    Done,
    /// The signal goes up the stack.
    Signal(InterpreterSignal),
    /// The machine waits for the host.
    Await(Pending),
    /// The machine has come to its end.
    Halted,
}

/// The mathematical value of a [`Control`].
#[verifier::ext_equal]
pub enum ControlView {
    Evaluate(ExprView),
    Execute(StmtView),
    Value(LiteralView),
    Done,
    Signal(SignalView),
    Await(PendingView),
    Halted,
}

impl View for Control {
    type V = ControlView;

    open spec fn view(&self) -> ControlView {
        match self {
            Control::Evaluate(e) => ControlView::Evaluate(e@),
            Control::Execute(s) => ControlView::Execute(s@),
            Control::Value(v) => ControlView::Value(v@),
            Control::Done => ControlView::Done,
            Control::Signal(s) => ControlView::Signal(s@),
            Control::Await(p) => ControlView::Await(p@),
            Control::Halted => ControlView::Halted,
        }
    }
}

/// What the host is to do after a step of the machine, before the next one.
#[derive(Debug)]
pub enum Action {
    /// Nothing.
    Continue,
    /// Compute `left op right` and answer with [`Event::Number`].
    Arithmetic { op: ArithmeticOp, left: u64, right: u64 },
    /// Give the text of the number and answer with [`Event::Text`].
    Format { number: u64 },
    /// Print a line.
    Print(Printable),
    /// Call the native function `name` and answer with [`Event::Returned`].
    CallNative { name: String, args: Vec<LiteralType> },
    /// Nothing more: the program has been executed.
    Finished,
    /// Nothing more: the expression has this value.
    Result(LiteralType),
    /// Nothing more: the signal has left the program.
    Failed(InterpreterSignal),
}

/// The mathematical value of an [`Action`].
#[verifier::ext_equal]
pub enum ActionView {
    Continue,
    Arithmetic { op: ArithmeticOp, left: u64, right: u64 },
    Format { number: u64 },
    Print(PrintableView),
    CallNative { name: Seq<char>, args: Seq<LiteralView> },
    Finished,
    Result(LiteralView),
    Failed(SignalView),
}

impl View for Action {
    type V = ActionView;

    open spec fn view(&self) -> ActionView {
        match self {
            Action::Continue => ActionView::Continue,
            Action::Arithmetic { op, left, right } => ActionView::Arithmetic {
                op: *op,
                left: *left,
                right: *right,
            },
            Action::Format { number } => ActionView::Format { number: *number },
            Action::Print(p) => ActionView::Print(p@),
            Action::CallNative { name, args } => ActionView::CallNative {
                name: name@,
                args: values_model(args@),
            },
            Action::Finished => ActionView::Finished,
            Action::Result(v) => ActionView::Result(v@),
            Action::Failed(s) => ActionView::Failed(s@),
        }
    }
}

/// What the host hands to a step of the machine.
#[derive(Debug)]
pub enum Event {
    /// Nothing: the machine did not ask.
    Resume,
    /// The result of an arithmetic operation.
    Number(u64),
    /// The text of a number.
    Text(String),
    /// What a native function returned: a value, or the message of its failure.
    Returned(Result<LiteralType, String>),
}

/// The mathematical value of an [`Event`].
#[verifier::ext_equal]
pub enum EventView {
    Resume,
    Number(u64),
    Text(Seq<char>),
    Returned(Result<LiteralView, Seq<char>>),
}

impl View for Event {
    type V = EventView;

    open spec fn view(&self) -> EventView {
        match self {
            Event::Resume => EventView::Resume,
            Event::Number(bits) => EventView::Number(*bits),
            Event::Text(t) => EventView::Text(t@),
            Event::Returned(r) => EventView::Returned(
                match r {
                    Ok(v) => Ok(v@),
                    Err(m) => Err(m@),
                },
            ),
        }
    }
}

/// The state of the machine, as a mathematical value.
#[verifier::ext_equal]
pub struct MachineView {
    pub scopes: Seq<ScopeView>,
    pub globals: usize,
    pub scope: usize,
    pub control: ControlView,
    pub stack: Seq<FrameView>,
}

} // verus!
