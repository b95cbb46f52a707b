//! What holds of evaluation, whatever the program.
//!
//! The machine does no arithmetic: it asks the host. So what a numeric
//! expression evaluates to is stated for a host that answers each arithmetic
//! request by a function of the request.

use vstd::prelude::*;
use crate::ast::ExprView;
use crate::callable::CallableView;
use crate::machine::{ActionView, ControlView, EventView, FrameView, MachineView, SignalView};
use crate::semantics::{arity, call, error_at, pop, push, step, unwind, with_control, wrong_arity};
use crate::token::{LiteralView, TokenType, TokenView};
use crate::value::{ArithmeticOp, OutcomeView, RuntimeErrorView, binary_outcome, equal, number_negated};

verus! {

/// What a host whose arithmetic is `host` answers to `action`.
pub open spec fn answer(action: ActionView, host: spec_fn(ArithmeticOp, u64, u64) -> u64)
    -> EventView {
    match action {
        ActionView::Arithmetic { op, left, right } => EventView::Number(host(op, left, right)),
        _ => EventView::Resume,
    }
}

/// The state after `n` steps from the state `m` and the event `event`, and
/// the event for the step behind them, with a host whose arithmetic is `host`.
pub open spec fn drive(
    m: MachineView,
    event: EventView,
    host: spec_fn(ArithmeticOp, u64, u64) -> u64,
    n: nat,
) -> (MachineView, EventView)
    decreases n,
{
    if n == 0 {
        (m, event)
    } else {
        let next = step(m, event);
        drive(next.0, answer(next.1, host), host, (n - 1) as nat)
    }
}

/// The arithmetic operation of a token kind, if it is one.
pub open spec fn operation(t: TokenType) -> Option<ArithmeticOp> {
    if t == TokenType::Plus {
        Some(ArithmeticOp::Add)
    } else if t == TokenType::Minus {
        Some(ArithmeticOp::Subtract)
    } else if t == TokenType::Star {
        Some(ArithmeticOp::Multiply)
    } else if t == TokenType::Slash {
        Some(ArithmeticOp::Divide)
    } else {
        None
    }
}

/// A numeric expression: a number, a numeric expression in parentheses or
/// behind a minus sign, or two of them with `+`, `-`, `*` or `/` between them.
pub open spec fn numeric(e: ExprView) -> bool
    decreases e,
{
    match e {
        ExprView::Literal { value } => value is Number,
        ExprView::Grouping { expression } => numeric(*expression),
        ExprView::Unary { op, right } => op.t_type == TokenType::Minus && numeric(*right),
        ExprView::Binary { left, op, right } => operation(op.t_type) is Some && numeric(*left)
            && numeric(*right),
        _ => false,
    }
}

/// The number that a numeric expression stands for, with the arithmetic `host`.
pub open spec fn number_of(e: ExprView, host: spec_fn(ArithmeticOp, u64, u64) -> u64) -> u64
    decreases e,
{
    match e {
        ExprView::Literal { value } => match value {
            LiteralView::Number(bits) => bits,
            _ => 0,
        },
        ExprView::Grouping { expression } => number_of(*expression, host),
        ExprView::Unary { op, right } => number_negated(number_of(*right, host)),
        ExprView::Binary { left, op, right } => match operation(op.t_type) {
            Some(o) => host(o, number_of(*left, host), number_of(*right, host)),
            None => 0,
        },
        _ => 0,
    }
}

/// The number of steps that the evaluation of a numeric expression takes.
pub open spec fn steps(e: ExprView) -> nat
    decreases e,
{
    match e {
        ExprView::Grouping { expression } => 1 + steps(*expression),
        ExprView::Unary { op, right } => 2 + steps(*right),
        ExprView::Binary { left, op, right } => 4 + steps(*left) + steps(*right),
        _ => 1,
    }
}

/// Steps add up: `a + b` steps are `a` steps and then `b` steps.
pub proof fn lemma_drive_split(
    m: MachineView,
    event: EventView,
    host: spec_fn(ArithmeticOp, u64, u64) -> u64,
    a: nat,
    b: nat,
)
    ensures
        drive(m, event, host, a + b) == drive(
            drive(m, event, host, a).0,
            drive(m, event, host, a).1,
            host,
            b,
        ),
    decreases a,
{
    if a > 0 {
        let next = step(m, event);
        lemma_drive_split(next.0, answer(next.1, host), host, (a - 1) as nat, b);
        assert((a + b - 1) as nat == (a - 1) as nat + b);
    }
}

/// The evaluation of a numeric expression comes to an end, with the number
/// that the expression stands for, and leaves the scopes and the stack as
/// they were. The number depends on the expression and on the arithmetic of
/// the host alone: whenever and wherever the expression is evaluated again,
/// the same number comes out.
pub proof fn lemma_numeric_evaluation(
    e: ExprView,
    m: MachineView,
    event: EventView,
    host: spec_fn(ArithmeticOp, u64, u64) -> u64,
)
    requires
        numeric(e),
        m.control == ControlView::Evaluate(e),
    ensures
        drive(m, event, host, steps(e)) == (
            with_control(m, ControlView::Value(LiteralView::Number(number_of(e, host)))),
            EventView::Resume,
        ),
    decreases e,
{
    let done = with_control(m, ControlView::Value(LiteralView::Number(number_of(e, host))));
    match e {
        ExprView::Literal { value } => {
            let next = step(m, event);
            assert(drive(next.0, answer(next.1, host), host, 0) == (next.0, EventView::Resume));
        },
        ExprView::Grouping { expression } => {
            let m1 = with_control(m, ControlView::Evaluate(*expression));
            lemma_numeric_evaluation(*expression, m1, EventView::Resume, host);
            assert(with_control(m1, ControlView::Value(LiteralView::Number(number_of(e, host))))
                == done);
            lemma_drive_split(m, event, host, 1, steps(*expression));
            assert(drive(m, event, host, 1) == (m1, EventView::Resume)) by {
                let next = step(m, event);
                assert(drive(next.0, answer(next.1, host), host, 0) == (next.0, EventView::Resume));
            }
        },
        ExprView::Unary { op, right } => {
            let m1 = with_control(push(m, FrameView::Unary { op }), ControlView::Evaluate(*right));
            let v = number_of(*right, host);
            let m2 = with_control(m1, ControlView::Value(LiteralView::Number(v)));
            lemma_numeric_evaluation(*right, m1, EventView::Resume, host);
            assert(drive(m, event, host, 1) == (m1, EventView::Resume)) by {
                let next = step(m, event);
                assert(drive(next.0, answer(next.1, host), host, 0) == (next.0, EventView::Resume));
            }
            assert(drive(m2, EventView::Resume, host, 1) == (done, EventView::Resume)) by {
                let next = step(m2, EventView::Resume);
                assert(m2.stack.last() == (FrameView::Unary { op }));
                assert(pop(m2).stack =~= m.stack);
                assert(next.0 =~= done);
                assert(drive(next.0, answer(next.1, host), host, 0) == (next.0, EventView::Resume));
            }
            lemma_drive_split(m, event, host, 1, steps(*right));
            lemma_drive_split(m, event, host, 1 + steps(*right), 1);
        },
        ExprView::Binary { left, op, right } => {
            let a = number_of(*left, host);
            let b = number_of(*right, host);
            let o = operation(op.t_type)->0;
            let m1 = with_control(
                push(m, FrameView::BinaryRight { op, right: *right }),
                ControlView::Evaluate(*left),
            );
            let m2 = with_control(m1, ControlView::Value(LiteralView::Number(a)));
            let m3 = with_control(
                push(m, FrameView::BinaryApply { op, left: LiteralView::Number(a) }),
                ControlView::Evaluate(*right),
            );
            let m4 = with_control(m3, ControlView::Value(LiteralView::Number(b)));
            let m5 = with_control(m, ControlView::Await(crate::machine::PendingView::Arithmetic));
            let reply = EventView::Number(host(o, a, b));
            lemma_numeric_evaluation(*left, m1, EventView::Resume, host);
            lemma_numeric_evaluation(*right, m3, EventView::Resume, host);
            assert(drive(m, event, host, 1) == (m1, EventView::Resume)) by {
                let next = step(m, event);
                assert(drive(next.0, answer(next.1, host), host, 0) == (next.0, EventView::Resume));
            }
            assert(drive(m2, EventView::Resume, host, 1) == (m3, EventView::Resume)) by {
                let next = step(m2, EventView::Resume);
                assert(m2.stack.last() == (FrameView::BinaryRight { op, right: *right }));
                assert(pop(m2).stack =~= m.stack);
                assert(next.0 =~= m3);
                assert(drive(next.0, answer(next.1, host), host, 0) == (next.0, EventView::Resume));
            }
            assert(drive(m4, EventView::Resume, host, 1) == (m5, reply)) by {
                let next = step(m4, EventView::Resume);
                assert(m4.stack.last() == (FrameView::BinaryApply {
                    op,
                    left: LiteralView::Number(a),
                }));
                assert(pop(m4).stack =~= m.stack);
                assert(next.0 =~= m5);
                assert(next.1 == (ActionView::Arithmetic { op: o, left: a, right: b }));
                assert(drive(next.0, answer(next.1, host), host, 0) == (next.0, reply));
            }
            assert(drive(m5, reply, host, 1) == (done, EventView::Resume)) by {
                let next = step(m5, reply);
                assert(next.0 =~= done);
                assert(drive(next.0, answer(next.1, host), host, 0) == (next.0, EventView::Resume));
            }
            let l = steps(*left);
            let r = steps(*right);
            lemma_drive_split(m, event, host, 1, l);
            lemma_drive_split(m, event, host, 1 + l, 1);
            lemma_drive_split(m, event, host, 2 + l, r);
            lemma_drive_split(m, event, host, 2 + l + r, 1);
            lemma_drive_split(m, event, host, 3 + l + r, 1);
        },
        _ => {},
    }
}

/// `==` and `!=` take every two values: they come to a boolean, never to an error.
pub proof fn lemma_equality_is_total(left: LiteralView, right: LiteralView, op: TokenView)
    requires
        op.t_type == TokenType::EqualEqual || op.t_type == TokenType::BangEqual,
    ensures
        binary_outcome(left, right, op) == OutcomeView::Value(
            LiteralView::Bool(equal(left, right) == (op.t_type == TokenType::EqualEqual)),
        ),
{
}

/// A call with another number of arguments than the callable takes is a
/// runtime error at the token of the call, which names both numbers; the
/// callable is not entered, and no scope changes.
pub proof fn lemma_wrong_argument_count(
    m: MachineView,
    callee: CallableView,
    args: Seq<LiteralView>,
    paren: TokenView,
)
    requires
        args.len() != arity(callee),
    ensures
        call(m, LiteralView::Callable(callee), args, paren) == (
            with_control(m, error_at(paren, wrong_arity(arity(callee), args.len()))),
            ActionView::Continue,
        ),
{
}

/// What each frame does to each signal. A runtime error passes every frame.
/// A `break` ends at the frame of a loop body and passes every other frame.
/// A `return` ends at the frame of a call, as the value of the call, and
/// passes every other frame.
pub proof fn lemma_signals(m: MachineView, frame: FrameView, signal: SignalView)
    ensures
        signal is RuntimeError ==> unwind(m, frame, signal).control == ControlView::Signal(signal),
        signal is Break ==> unwind(m, frame, signal).control == if frame is LoopBody {
            ControlView::Done
        } else {
            ControlView::Signal(signal)
        },
        signal matches SignalView::Return(value) ==> unwind(m, frame, signal).control
            == if frame is Call {
            ControlView::Value(value)
        } else {
            ControlView::Signal(signal)
        },
        unwind(m, frame, signal).stack == m.stack,
{
}

} // verus!
