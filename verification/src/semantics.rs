//! What one step of the machine does, as a function from the state and the
//! host's event to the next state and the action asked of the host.
//!
//! Three things leave the normal course of execution, and each goes up the
//! stack until a frame takes it: a `break` is taken by the frame of a loop
//! body, a `return` by the frame of a call, and a runtime error by none, so
//! that it leaves the program.

use vstd::prelude::*;
use crate::ast::{ExprView, StmtView};
use crate::callable::CallableView;
use crate::environment::{ScopeView, bind, capture, defining_scope, empty_scope, lookup, releasable};
use crate::machine::{
    ActionView,
    ControlView,
    EventView,
    FrameView,
    MachineView,
    PendingView,
    SignalView,
};
use crate::token::{LiteralView, TokenType, TokenView};
use crate::value::{
    OutcomeView,
    RuntimeErrorView,
    binary_outcome,
    decimal,
    rendering,
    truthy,
    unary_outcome,
};

verus! {

/// The state `m` with the control `control`.
pub open spec fn with_control(m: MachineView, control: ControlView) -> MachineView {
    MachineView { control, ..m }
}

/// The state `m` with the frame `frame` on top of its stack.
pub open spec fn push(m: MachineView, frame: FrameView) -> MachineView {
    MachineView { stack: m.stack.push(frame), ..m }
}

/// The state `m` without the top frame of its stack.
pub open spec fn pop(m: MachineView) -> MachineView {
    MachineView { stack: m.stack.drop_last(), ..m }
}

/// The state `m` with the current scope `scope`.
pub open spec fn with_scope(m: MachineView, scope: usize) -> MachineView {
    MachineView { scope, ..m }
}

/// The state `m` with the scopes `scopes`.
pub open spec fn with_scopes(m: MachineView, scopes: Seq<ScopeView>) -> MachineView {
    MachineView { scopes, ..m }
}

/// The state `m` with a new, empty scope inside the scope `enclosing`.
pub open spec fn enter(m: MachineView, enclosing: usize) -> MachineView {
    with_scopes(m, m.scopes.push(empty_scope(Some(enclosing))))
}

/// The state `m` behind the way out of the current scope into the scope
/// `outer`. The scope that is left is given up where nothing can reach it any
/// more: where it was made last, no function holds on to it, and the scope
/// `outer` and the global one were made before it.
pub open spec fn leave(m: MachineView, outer: usize) -> MachineView {
    if releasable(m.scopes, m.scope as int) && outer < m.scope && m.globals < m.scope {
        with_scope(with_scopes(m, m.scopes.drop_last()), outer)
    } else {
        with_scope(m, outer)
    }
}

/// The control that raises the runtime error `message` at `token`.
pub open spec fn error_at(token: TokenView, message: Seq<char>) -> ControlView {
    ControlView::Signal(
        SignalView::RuntimeError(RuntimeErrorView { token: Some(token), message }),
    )
}

/// The control that raises the runtime error `message` at no token.
pub open spec fn error(message: Seq<char>) -> ControlView {
    ControlView::Signal(SignalView::RuntimeError(RuntimeErrorView { token: None, message }))
}

/// The message for a variable that no scope defines.
pub open spec fn undefined(name: TokenView) -> Seq<char> {
    "Undefined variable "@ + name.lexeme + "."@
}

/// The message for a variable that holds no value.
pub open spec fn uninitialized(name: TokenView) -> Seq<char> {
    "Uninitialized variable "@ + name.lexeme + "."@
}

/// The message for a call with `got` arguments of a callable that takes `expected`.
pub open spec fn wrong_arity(expected: nat, got: nat) -> Seq<char> {
    "Expected "@ + decimal(expected) + " arguments but got "@ + decimal(got) + "."@
}

/// How many arguments a callable takes.
pub open spec fn arity(c: CallableView) -> nat {
    match c {
        CallableView::Function { params, .. } => params.len(),
        CallableView::NativeFunction { arity, .. } => arity as nat,
    }
}

/// The state behind the start of the evaluation of `expr`.
pub open spec fn evaluate(m: MachineView, expr: ExprView) -> MachineView {
    match expr {
        ExprView::Ternary { first, second, third } => with_control(
            push(m, FrameView::Ternary { second: *second, third: *third }),
            ControlView::Evaluate(*first),
        ),
        ExprView::Binary { left, op, right } => with_control(
            push(m, FrameView::BinaryRight { op, right: *right }),
            ControlView::Evaluate(*left),
        ),
        ExprView::Call { callee, paren, args } => with_control(
            push(m, FrameView::Callee { paren, args }),
            ControlView::Evaluate(*callee),
        ),
        ExprView::Grouping { expression } => with_control(m, ControlView::Evaluate(*expression)),
        ExprView::Literal { value } => with_control(m, ControlView::Value(value)),
        ExprView::Unary { op, right } => with_control(
            push(m, FrameView::Unary { op }),
            ControlView::Evaluate(*right),
        ),
        ExprView::Variable { name } => match lookup(m.scopes, m.scope as int, name.lexeme) {
            Some(Some(value)) => with_control(m, ControlView::Value(value)),
            Some(None) => with_control(m, error_at(name, uninitialized(name))),
            None => with_control(m, error_at(name, undefined(name))),
        },
        ExprView::Assign { name, value } => with_control(
            push(m, FrameView::Assign { name }),
            ControlView::Evaluate(*value),
        ),
        ExprView::Logical { left, op, right } => with_control(
            push(m, FrameView::Logical { op, right: *right }),
            ControlView::Evaluate(*left),
        ),
    }
}

/// The state behind the entry into a block of the statements `statements`,
/// inside the scope `enclosing`: a new scope is the current one, and the
/// statements are next.
pub open spec fn execute_block(m: MachineView, statements: Seq<StmtView>, enclosing: usize)
    -> MachineView {
    let inner = m.scopes.len() as usize;
    with_control(
        with_scope(
            push(
                push(enter(m, enclosing), FrameView::Scope { outer: enclosing }),
                FrameView::Sequence { statements, next: 0 },
            ),
            inner,
        ),
        ControlView::Done,
    )
}

/// The state behind the start of the execution of `stmt`.
pub open spec fn execute(m: MachineView, stmt: StmtView) -> MachineView {
    match stmt {
        StmtView::Expression { expression } => with_control(
            push(m, FrameView::Discard),
            ControlView::Evaluate(expression),
        ),
        StmtView::Print { expression } => with_control(
            push(m, FrameView::Print),
            ControlView::Evaluate(expression),
        ),
        StmtView::Var { name, initializer } => match initializer {
            Some(expr) => with_control(
                push(m, FrameView::Define { name }),
                ControlView::Evaluate(expr),
            ),
            None => with_control(
                with_scopes(m, bind(m.scopes, m.scope as int, name.lexeme, None)),
                ControlView::Done,
            ),
        },
        StmtView::Block { statements } => execute_block(m, statements, m.scope),
        StmtView::If { condition, then_branch, else_branch } => with_control(
            push(
                m,
                FrameView::Branch {
                    then_branch: *then_branch,
                    else_branch: match else_branch {
                        Some(s) => Some(*s),
                        None => None,
                    },
                },
            ),
            ControlView::Evaluate(condition),
        ),
        StmtView::While { condition, body } => with_control(
            push(m, FrameView::LoopTest { condition, body: *body }),
            ControlView::Evaluate(condition),
        ),
        StmtView::Break => with_control(m, ControlView::Signal(SignalView::Break)),
        StmtView::Function { name, params, body } => with_control(
            with_scopes(
                m,
                capture(
                    bind(
                        m.scopes,
                        m.globals as int,
                        name.lexeme,
                        Some(
                            LiteralView::Callable(
                                CallableView::Function {
                                    name: Box::new(name),
                                    params,
                                    body,
                                    closure: m.scope,
                                },
                            ),
                        ),
                    ),
                    m.scope as int,
                ),
            ),
            ControlView::Done,
        ),
        StmtView::Return { keyword, value } => match value {
            Some(expr) => with_control(push(m, FrameView::Return), ControlView::Evaluate(expr)),
            None => with_control(m, ControlView::Signal(SignalView::Return(LiteralView::Nil))),
        },
    }
}

/// The scopes after the first `count` of the parameters `params` were bound
/// to the arguments `args` in the scope `scope`, one by one.
pub open spec fn bind_parameters(
    scopes: Seq<ScopeView>,
    scope: int,
    params: Seq<TokenView>,
    args: Seq<LiteralView>,
    count: int,
) -> Seq<ScopeView>
    decreases count,
{
    if count <= 0 {
        scopes
    } else {
        bind(
            bind_parameters(scopes, scope, params, args, count - 1),
            scope,
            params[count - 1].lexeme,
            Some(args[count - 1]),
        )
    }
}

/// The state and the action behind the entry into the callable `callee` with
/// the arguments `args`, which are as many as it takes.
///
/// A function gets a new scope inside the scope it was declared in, with its
/// parameters bound to the arguments, and its body is executed as a block in
/// that scope. A native function is the host's to call.
pub open spec fn invoke(m: MachineView, callee: CallableView, args: Seq<LiteralView>, paren: TokenView)
    -> (MachineView, ActionView) {
    match callee {
        CallableView::Function { name, params, body, closure } => if closure >= m.scopes.len() {
            (
                with_control(m, error_at(paren, "Function of another environment"@)),
                ActionView::Continue,
            )
        } else {
            let frame = m.scopes.len() as usize;
            let entered = enter(m, closure);
            let bound = with_scopes(
                entered,
                bind_parameters(entered.scopes, frame as int, params, args, params.len() as int),
            );
            (
                execute_block(push(bound, FrameView::Call { outer: m.scope }), body, frame),
                ActionView::Continue,
            )
        },
        CallableView::NativeFunction { name, arity } => (
            with_control(m, ControlView::Await(PendingView::Native)),
            ActionView::CallNative { name, args },
        ),
    }
}

/// The state and the action behind the call of `callee` with the arguments
/// `args`: what is called must be a callable, and the arguments as many as it
/// takes.
pub open spec fn call(m: MachineView, callee: LiteralView, args: Seq<LiteralView>, paren: TokenView)
    -> (MachineView, ActionView) {
    match callee {
        LiteralView::Callable(c) => if args.len() != arity(c) {
            (
                with_control(m, error_at(paren, wrong_arity(arity(c), args.len()))),
                ActionView::Continue,
            )
        } else {
            invoke(m, c, args, paren)
        },
        _ => (
            with_control(m, error_at(paren, "Can only call functions and classes"@)),
            ActionView::Continue,
        ),
    }
}

/// The state and the action behind a binary operator that comes to `outcome`:
/// a value is handed on, an error is raised, and for the rest the host is asked.
pub open spec fn settle(m: MachineView, outcome: OutcomeView) -> (MachineView, ActionView) {
    match outcome {
        OutcomeView::Value(v) => (with_control(m, ControlView::Value(v)), ActionView::Continue),
        OutcomeView::Arithmetic { op, left, right } => (
            with_control(m, ControlView::Await(PendingView::Arithmetic)),
            ActionView::Arithmetic { op, left, right },
        ),
        OutcomeView::Join { number, text, number_first } => (
            with_control(m, ControlView::Await(PendingView::Join { text, number_first })),
            ActionView::Format { number },
        ),
        OutcomeView::Error(e) => (
            with_control(m, ControlView::Signal(SignalView::RuntimeError(e))),
            ActionView::Continue,
        ),
    }
}

/// The state behind the assignment of `value` to the variable `name`: the
/// first scope from the current one outward that defines the name takes the
/// value, which is also the value of the assignment; where none defines it,
/// that is an error.
pub open spec fn assign(m: MachineView, name: TokenView, value: LiteralView) -> MachineView {
    match defining_scope(m.scopes, m.scope as int, name.lexeme) {
        Some(s) => with_control(
            with_scopes(m, bind(m.scopes, s, name.lexeme, Some(value))),
            ControlView::Value(value),
        ),
        None => with_control(m, error_at(name, undefined(name))),
    }
}

/// The state and the action behind the argument `value` of a call of
/// `callee`, behind the arguments `done`: the next argument is evaluated, or,
/// behind the last, the call is made.
pub open spec fn argument(
    m: MachineView,
    paren: TokenView,
    callee: LiteralView,
    args: Seq<ExprView>,
    done: Seq<LiteralView>,
    value: LiteralView,
) -> (MachineView, ActionView) {
    if done.len() + 1 < args.len() {
        (
            with_control(
                push(m, FrameView::Arguments { paren, callee, args, done: done.push(value) }),
                ControlView::Evaluate(args[done.len() as int + 1]),
            ),
            ActionView::Continue,
        )
    } else {
        call(m, callee, done.push(value), paren)
    }
}

/// The state and the action behind the delivery of `value` to the frame
/// `frame`, which was on top of the stack of `m` and has been taken off.
pub open spec fn deliver(m: MachineView, frame: FrameView, value: LiteralView) -> (
    MachineView,
    ActionView,
) {
    match frame {
        FrameView::Ternary { second, third } => (
            with_control(
                m,
                ControlView::Evaluate(
                    if truthy(value) {
                        second
                    } else {
                        third
                    },
                ),
            ),
            ActionView::Continue,
        ),
        FrameView::BinaryRight { op, right } => (
            with_control(
                push(m, FrameView::BinaryApply { op, left: value }),
                ControlView::Evaluate(right),
            ),
            ActionView::Continue,
        ),
        FrameView::BinaryApply { op, left } => settle(m, binary_outcome(left, value, op)),
        FrameView::Unary { op } => match unary_outcome(value, op) {
            Ok(v) => (with_control(m, ControlView::Value(v)), ActionView::Continue),
            Err(e) => (
                with_control(m, ControlView::Signal(SignalView::RuntimeError(e))),
                ActionView::Continue,
            ),
        },
        FrameView::Assign { name } => (assign(m, name, value), ActionView::Continue),
        FrameView::Logical { op, right } => (
            with_control(
                m,
                if (op.t_type == TokenType::OR) == truthy(value) {
                    ControlView::Value(value)
                } else {
                    ControlView::Evaluate(right)
                },
            ),
            ActionView::Continue,
        ),
        FrameView::Callee { paren, args } => if args.len() == 0 {
            call(m, value, Seq::empty(), paren)
        } else {
            (
                with_control(
                    push(
                        m,
                        FrameView::Arguments { paren, callee: value, args, done: Seq::empty() },
                    ),
                    ControlView::Evaluate(args[0]),
                ),
                ActionView::Continue,
            )
        },
        FrameView::Arguments { paren, callee, args, done } => argument(
            m,
            paren,
            callee,
            args,
            done,
            value,
        ),
        FrameView::Discard => (with_control(m, ControlView::Done), ActionView::Continue),
        FrameView::Print => (
            with_control(m, ControlView::Done),
            ActionView::Print(rendering(value)),
        ),
        FrameView::Define { name } => (
            with_control(
                with_scopes(m, bind(m.scopes, m.scope as int, name.lexeme, Some(value))),
                ControlView::Done,
            ),
            ActionView::Continue,
        ),
        FrameView::Branch { then_branch, else_branch } => (
            with_control(
                m,
                if truthy(value) {
                    ControlView::Execute(then_branch)
                } else {
                    match else_branch {
                        Some(s) => ControlView::Execute(s),
                        None => ControlView::Done,
                    }
                },
            ),
            ActionView::Continue,
        ),
        FrameView::LoopTest { condition, body } => (
            if truthy(value) {
                with_control(
                    push(m, FrameView::LoopBody { condition, body }),
                    ControlView::Execute(body),
                )
            } else {
                with_control(m, ControlView::Done)
            },
            ActionView::Continue,
        ),
        FrameView::Return => (
            with_control(m, ControlView::Signal(SignalView::Return(value))),
            ActionView::Continue,
        ),
        // A frame of statements is handed no value; if it were, it would go on
        // as behind a statement.
        _ => (proceed(m, frame), ActionView::Continue),
    }
}

/// The state and the action behind the end of a statement under the frame
/// `frame`, which was on top of the stack of `m` and has been taken off.
pub open spec fn proceed(m: MachineView, frame: FrameView) -> MachineView {
    match frame {
        FrameView::Sequence { statements, next } => if next < statements.len() {
            with_control(
                push(m, FrameView::Sequence { statements, next: (next + 1) as usize }),
                ControlView::Execute(statements[next as int]),
            )
        } else {
            with_control(m, ControlView::Done)
        },
        FrameView::Scope { outer } => with_control(leave(m, outer), ControlView::Done),
        FrameView::LoopBody { condition, body } => with_control(
            push(m, FrameView::LoopTest { condition, body }),
            ControlView::Evaluate(condition),
        ),
        FrameView::Call { outer } => with_control(
            leave(m, outer),
            ControlView::Value(LiteralView::Nil),
        ),
        // A frame of an expression sees no statement end; if it did, it would be dropped.
        _ => with_control(m, ControlView::Done),
    }
}

/// The state behind the passage of `signal` through the frame `frame`,
/// which was on top of the stack of `m` and has been taken off.
///
/// The frame of a loop body takes a `break`, and the loop is over. The frame
/// of a call takes a `return`, whose value is the value of the call. The
/// frames of a call and of a scope make the scope around them the current
/// one again. Every other frame lets the signal pass.
pub open spec fn unwind(m: MachineView, frame: FrameView, signal: SignalView) -> MachineView {
    match frame {
        FrameView::LoopBody { condition, body } => if signal is Break {
            with_control(m, ControlView::Done)
        } else {
            with_control(m, ControlView::Signal(signal))
        },
        FrameView::Call { outer } => match signal {
            SignalView::Return(value) => with_control(leave(m, outer), ControlView::Value(value)),
            _ => with_control(leave(m, outer), ControlView::Signal(signal)),
        },
        FrameView::Scope { outer } => with_control(leave(m, outer), ControlView::Signal(signal)),
        _ => with_control(m, ControlView::Signal(signal)),
    }
}

/// The control behind the host's answer `event` to what was `pending`.
pub open spec fn receive(pending: PendingView, event: EventView) -> ControlView {
    match (pending, event) {
        (PendingView::Arithmetic, EventView::Number(bits)) => ControlView::Value(
            LiteralView::Number(bits),
        ),
        (PendingView::Join { text, number_first }, EventView::Text(number)) => ControlView::Value(
            LiteralView::String(
                if number_first {
                    number + text
                } else {
                    text + number
                },
            ),
        ),
        (PendingView::Native, EventView::Returned(Ok(value))) => ControlView::Value(value),
        (PendingView::Native, EventView::Returned(Err(message))) => error(message),
        _ => error("Unexpected answer from the host"@),
    }
}

/// One step of the machine: the next state, and what the host is to do.
pub open spec fn step(m: MachineView, event: EventView) -> (MachineView, ActionView) {
    match m.control {
        ControlView::Evaluate(expr) => (evaluate(m, expr), ActionView::Continue),
        ControlView::Execute(stmt) => (execute(m, stmt), ActionView::Continue),
        ControlView::Value(value) => if m.stack.len() == 0 {
            (with_control(m, ControlView::Halted), ActionView::Result(value))
        } else {
            deliver(pop(m), m.stack.last(), value)
        },
        ControlView::Done => if m.stack.len() == 0 {
            (with_control(m, ControlView::Halted), ActionView::Finished)
        } else {
            (proceed(pop(m), m.stack.last()), ActionView::Continue)
        },
        ControlView::Signal(signal) => if m.stack.len() == 0 {
            (with_control(m, ControlView::Halted), ActionView::Failed(signal))
        } else {
            (unwind(pop(m), m.stack.last(), signal), ActionView::Continue)
        },
        ControlView::Await(pending) => (
            with_control(m, receive(pending, event)),
            ActionView::Continue,
        ),
        ControlView::Halted => (m, ActionView::Finished),
    }
}

/// The handle that a frame holds, if it holds one: that of the scope that is
/// the current one again behind the frame.
pub open spec fn handle_of(frame: FrameView) -> Option<usize> {
    match frame {
        FrameView::Scope { outer } => Some(outer),
        FrameView::Call { outer } => Some(outer),
        _ => None,
    }
}

/// Whether no frame of `stack` holds a handle above `bound`.
pub open spec fn below(stack: Seq<FrameView>, bound: int) -> bool {
    forall|i: int|
        0 <= i < stack.len() ==> match handle_of(#[trigger] stack[i]) {
            Some(h) => h <= bound,
            None => true,
        }
}

/// Whether the handles that the frames of `stack` hold do not fall, going up the stack.
pub open spec fn ordered(stack: Seq<FrameView>) -> bool {
    forall|i: int, j: int|
        0 <= i < j < stack.len() ==> match (handle_of(#[trigger] stack[i]), handle_of(
            #[trigger] stack[j],
        )) {
            (Some(a), Some(b)) => a <= b,
            _ => true,
        }
}

/// A state that the machine can be in: the two scopes it goes by are scopes,
/// the handles in the stack do not fall and none is above the current scope,
/// and each scope is enclosed by one with a smaller handle.
pub open spec fn valid(m: MachineView) -> bool {
    &&& m.globals < m.scopes.len()
    &&& m.scope < m.scopes.len()
    &&& below(m.stack, m.scope as int)
    &&& ordered(m.stack)
    &&& forall|i: int|
        0 <= i < m.scopes.len() ==> match (#[trigger] m.scopes[i]).enclosing {
            Some(outer) => outer < i,
            None => true,
        }
}

} // verus!
