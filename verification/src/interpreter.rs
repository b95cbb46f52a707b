//! The evaluator: a machine that executes a program one step at a time.
//!
//! The host calls [`Interpreter::step`] again and again. Each step does one
//! transition of [`crate::semantics::step`] and returns what the host is to
//! do before the next step: nothing, an arithmetic operation, the text of a
//! number, a line to print, or the call of a native function.

use vstd::prelude::*;
use vstd::string::StringExecFns;
use crate::ast::{Expr, Stmt, exprs_model, stmts_model};
use crate::callable::{Callable, CallableTrait, NativeFunction};
use crate::environment::{Environment, ScopeView, bind};
use crate::machine::{ControlView, FrameView, MachineView, frames_model, values_model};
use crate::semantics;
use crate::token::{LiteralType, LiteralView, Token, TokenType, literal_model, tokens_model};
use crate::value::{Outcome, binary, push_decimal, render, unary};

pub use crate::machine::{Action, Control, Event, Frame, InterpreterEnvironment, InterpreterSignal, Pending};
pub use crate::value::{RuntimeError, is_equal, is_truthy};

verus! {

/// The machine.
pub struct Interpreter {
    environment: Environment,
    globals: usize,
    scope: usize,
    control: Control,
    stack: Vec<Frame>,
}

impl View for Interpreter {
    type V = MachineView;

    closed spec fn view(&self) -> MachineView {
        MachineView {
            scopes: self.environment@,
            globals: self.globals,
            scope: self.scope,
            control: self.control@,
            stack: frames_model(self.stack@),
        }
    }
}

impl Interpreter {
    /// The machine is in a state that it can be in.
    pub closed spec fn wf(&self) -> bool {
        &&& self.environment.wf()
        &&& semantics::valid(self@)
    }

    /// What a machine that is well formed is, over its view.
    pub proof fn lemma_valid(&self)
        requires
            self.wf(),
        ensures
            semantics::valid(self@),
    {
    }

    /// A machine that evaluates `expression` in the scope `scopes.environment`
    /// of `environment`.
    pub fn evaluation(
        expression: Expr,
        environment: Environment,
        scopes: InterpreterEnvironment,
    ) -> (r: Self)
        requires
            environment.wf(),
            scopes.globals < environment@.len(),
            scopes.environment < environment@.len(),
        ensures
            r.wf(),
            r@ == (MachineView {
                scopes: environment@,
                globals: scopes.globals,
                scope: scopes.environment,
                control: ControlView::Evaluate(expression@),
                stack: Seq::empty(),
            }),
    {
        let r = Interpreter {
            environment,
            globals: scopes.globals,
            scope: scopes.environment,
            control: Control::Evaluate(expression),
            stack: Vec::new(),
        };
        proof {
            environment.lemma_wf();
            assert(r@.stack =~= Seq::<FrameView>::empty());
        }
        r
    }

    /// Gives up the machine for its environment.
    pub fn into_environment(self) -> (r: Environment)
        requires
            self.wf(),
        ensures
            r.wf(),
            r@ == self@.scopes,
    {
        self.environment
    }

    /// The two scopes that the machine goes by now.
    pub fn scopes(&self) -> (r: InterpreterEnvironment)
        ensures
            r.globals == self@.globals,
            r.environment == self@.scope,
    {
        InterpreterEnvironment { globals: self.globals, environment: self.scope }
    }

    fn push_frame(&mut self, frame: Frame)
        requires
            old(self).wf(),
            semantics::handle_of(frame@) matches Some(h) ==> h == old(self)@.scope,
        ensures
            final(self).wf(),
            final(self)@ == semantics::push(old(self)@, frame@),
    {
        self.stack.push(frame);
        assert(self@.stack =~= old(self)@.stack.push(frame@));
    }

    fn pop_frame(&mut self) -> (frame: Frame)
        requires
            old(self).wf(),
            old(self)@.stack.len() > 0,
        ensures
            final(self).wf(),
            final(self)@ == semantics::pop(old(self)@),
            frame@ == old(self)@.stack.last(),
            final(self).taken(frame@),
    {
        let top = self.stack.pop();
        assert(self@.stack =~= old(self)@.stack.drop_last());
        proof {
            let before = old(self)@.stack;
            let last = before.len() - 1;
            if semantics::handle_of(before[last]) is Some {
                let h = semantics::handle_of(before[last])->0;
                assert forall|i: int| 0 <= i < self@.stack.len() implies match semantics::handle_of(
                    #[trigger] self@.stack[i],
                ) {
                    Some(lower) => lower <= h,
                    None => true,
                } by {
                    assert(self@.stack[i] == before[i]);
                    assert(semantics::handle_of(before[i]) is Some ==> semantics::handle_of(
                        before[i],
                    )->0 <= semantics::handle_of(before[last])->0);
                }
            }
        }
        match top {
            Some(frame) => frame,
            None => Frame::Discard,
        }
    }

    fn set_control(&mut self, control: Control)
        requires
            old(self).wf(),
        ensures
            final(self).wf(),
            final(self)@ == semantics::with_control(old(self)@, control@),
    {
        self.control = control;
    }

    fn take_control(&mut self) -> (control: Control)
        requires
            old(self).wf(),
        ensures
            final(self).wf(),
            final(self)@ == semantics::with_control(old(self)@, ControlView::Halted),
            control@ == old(self)@.control,
    {
        let mut control = Control::Halted;
        std::mem::swap(&mut self.control, &mut control);
        control
    }

    /// The frame `frame` was taken off the stack: the handle it holds, if it
    /// holds one, is not above the current scope, and none in the stack is
    /// above it.
    spec fn taken(&self, frame: FrameView) -> bool {
        semantics::handle_of(frame) matches Some(h) ==> h <= self.scope && semantics::below(
            frames_model(self.stack@),
            h as int,
        )
    }

    /// Makes `inner` the current scope, with a frame on the stack behind
    /// which `enclosing` is the current one.
    fn open_scope(&mut self, enclosing: usize, inner: usize)
        requires
            old(self).wf(),
            old(self)@.scope <= enclosing <= inner < old(self)@.scopes.len(),
        ensures
            final(self).wf(),
            final(self)@ == semantics::with_scope(
                semantics::push(old(self)@, FrameView::Scope { outer: enclosing }),
                inner,
            ),
    {
        self.stack.push(Frame::Scope { outer: enclosing });
        self.scope = inner;
        assert(self@.stack =~= old(self)@.stack.push(FrameView::Scope { outer: enclosing }));
    }

    /// Leaves the current scope for the scope `outer`.
    fn leave(&mut self, outer: usize)
        requires
            old(self).wf(),
            outer <= old(self)@.scope,
            semantics::below(old(self)@.stack, outer as int),
        ensures
            final(self).wf(),
            final(self)@ == semantics::leave(old(self)@, outer),
    {
        if outer < self.scope && self.globals < self.scope {
            self.environment.release(self.scope);
        }
        self.scope = outer;
        proof {
            self.environment.lemma_wf();
        }
    }

    fn define(&mut self, scope: usize, name: &str, value: Option<LiteralType>)
        requires
            old(self).wf(),
            scope < old(self)@.scopes.len(),
        ensures
            final(self).wf(),
            final(self)@ == semantics::with_scopes(
                old(self)@,
                bind(old(self)@.scopes, scope as int, name@, literal_model(value)),
            ),
    {
        self.environment.define(scope, name, value);
        proof {
            self.environment.lemma_wf();
        }
    }

    /// Marks the current scope as held on to by a function.
    fn capture(&mut self)
        requires
            old(self).wf(),
        ensures
            final(self).wf(),
            final(self)@ == semantics::with_scopes(
                old(self)@,
                crate::environment::capture(old(self)@.scopes, old(self)@.scope as int),
            ),
    {
        self.environment.capture(self.scope);
        proof {
            self.environment.lemma_wf();
        }
    }

    fn enter(&mut self, enclosing: usize) -> (handle: usize)
        requires
            old(self).wf(),
            enclosing < old(self)@.scopes.len(),
        ensures
            final(self).wf(),
            final(self)@ == semantics::enter(old(self)@, enclosing),
            handle == old(self)@.scopes.len(),
    {
        let handle = self.environment.with_enclosing(enclosing);
        proof {
            self.environment.lemma_wf();
        }
        handle
    }

    /// Raises the runtime error `message` at `token`.
    fn fail(&mut self, token: &Token, message: String)
        requires
            old(self).wf(),
        ensures
            final(self).wf(),
            final(self)@ == semantics::with_control(
                old(self)@,
                semantics::error_at(token@, message@),
            ),
    {
        self.set_control(
            Control::Signal(InterpreterSignal::RuntimeError(RuntimeError::new(token, message))),
        );
    }

    /// Reads the variable `name`.
    fn variable(&mut self, name: Token)
        requires
            old(self).wf(),
        ensures
            final(self).wf(),
            final(self)@ == semantics::evaluate(old(self)@, crate::ast::ExprView::Variable { name: name@ }),
    {
        match self.environment.get(self.scope, &name) {
            Some(Some(value)) => {
                self.set_control(Control::Value(value));
            },
            Some(None) => {
                let message = variable_message("Uninitialized variable ", &name);
                self.fail(&name, message);
            },
            None => {
                let message = variable_message("Undefined variable ", &name);
                self.fail(&name, message);
            },
        }
    }

    /// Starts the evaluation of `expr`.
    fn evaluate(&mut self, expr: Expr)
        requires
            old(self).wf(),
        ensures
            final(self).wf(),
            final(self)@ == semantics::evaluate(old(self)@, expr@),
    {
        match expr {
            Expr::Ternary { first, second, third } => {
                self.push_frame(Frame::Ternary { second: *second, third: *third });
                self.set_control(Control::Evaluate(*first));
            },
            Expr::Binary { left, op, right } => {
                self.push_frame(Frame::BinaryRight { op, right: *right });
                self.set_control(Control::Evaluate(*left));
            },
            Expr::Call { callee, paren, args } => {
                assert(expr@->args =~= exprs_model(args@));
                self.push_frame(Frame::Callee { paren, args });
                self.set_control(Control::Evaluate(*callee));
            },
            Expr::Grouping { expression } => {
                self.set_control(Control::Evaluate(*expression));
            },
            Expr::Literal { value } => {
                self.set_control(Control::Value(value));
            },
            Expr::Unary { op, right } => {
                self.push_frame(Frame::Unary { op });
                self.set_control(Control::Evaluate(*right));
            },
            Expr::Variable { name } => {
                self.variable(name);
            },
            Expr::Assign { name, value } => {
                self.push_frame(Frame::Assign { name });
                self.set_control(Control::Evaluate(*value));
            },
            Expr::Logical { left, op, right } => {
                self.push_frame(Frame::Logical { op, right: *right });
                self.set_control(Control::Evaluate(*left));
            },
        }
    }

    /// Enters a block of the statements `statements` inside the scope `enclosing`.
    fn execute_block(&mut self, statements: Vec<Stmt>, enclosing: usize)
        requires
            old(self).wf(),
            old(self)@.scope <= enclosing < old(self)@.scopes.len(),
        ensures
            final(self).wf(),
            final(self)@ == semantics::execute_block(
                old(self)@,
                stmts_model(statements@),
                enclosing,
            ),
    {
        let inner = self.enter(enclosing);
        self.open_scope(enclosing, inner);
        self.push_frame(Frame::Sequence { statements, next: 0 });
        self.set_control(Control::Done);
    }

    /// Starts the execution of `stmt`.
    fn execute(&mut self, stmt: Stmt)
        requires
            old(self).wf(),
        ensures
            final(self).wf(),
            final(self)@ == semantics::execute(old(self)@, stmt@),
    {
        match stmt {
            Stmt::Expression { expression } => {
                self.push_frame(Frame::Discard);
                self.set_control(Control::Evaluate(expression));
            },
            Stmt::Print { expression } => {
                self.push_frame(Frame::Print);
                self.set_control(Control::Evaluate(expression));
            },
            Stmt::Var { name, initializer } => {
                match initializer {
                    Some(expr) => {
                        self.push_frame(Frame::Define { name });
                        self.set_control(Control::Evaluate(expr));
                    },
                    None => {
                        self.define(self.scope, name.lexeme.as_str(), None);
                        self.set_control(Control::Done);
                    },
                }
            },
            Stmt::Block { statements } => {
                assert(stmt@->statements =~= stmts_model(statements@));
                self.execute_block(statements, self.scope);
            },
            Stmt::If { condition, then_branch, else_branch } => {
                let other = match else_branch {
                    Some(s) => Some(*s),
                    None => None,
                };
                self.push_frame(Frame::Branch { then_branch: *then_branch, else_branch: other });
                self.set_control(Control::Evaluate(condition));
            },
            Stmt::While { condition, body } => {
                let test = condition.clone();
                self.push_frame(Frame::LoopTest { condition, body: *body });
                self.set_control(Control::Evaluate(test));
            },
            Stmt::Break => {
                self.set_control(Control::Signal(InterpreterSignal::Break));
            },
            Stmt::Function { name, params, body } => {
                let ghost param_views = stmt@->Function_params;
                let ghost body_views = stmt@->Function_body;
                let text = name.lexeme.clone();
                let function = Callable::Function {
                    name: Box::new(name),
                    params,
                    body,
                    closure: self.scope,
                };
                proof {
                    assert(function.model()->Function_params =~= param_views);
                    assert(function.model()->Function_body =~= body_views);
                }
                let value = LiteralType::Callable(function);
                self.define(self.globals, text.as_str(), Some(value));
                self.capture();
                self.set_control(Control::Done);
            },
            Stmt::Return { keyword, value } => {
                match value {
                    Some(expr) => {
                        self.push_frame(Frame::Return);
                        self.set_control(Control::Evaluate(expr));
                    },
                    None => {
                        self.set_control(
                            Control::Signal(InterpreterSignal::Return(LiteralType::Nil)),
                        );
                    },
                }
            },
        }
    }
    /// Enters the function with the parameters `params`, the body `body` and
    /// the scope `closure` around it, called with the arguments `args`.
    fn invoke(&mut self, params: Vec<Token>, body: Vec<Stmt>, closure: usize, args: Vec<LiteralType>)
        requires
            old(self).wf(),
            closure < old(self)@.scopes.len(),
            params@.len() == args@.len(),
        ensures
            final(self).wf(),
            final(self)@ == ({
                let m = old(self)@;
                let frame = m.scopes.len() as usize;
                let entered = semantics::enter(m, closure);
                let bound = semantics::with_scopes(
                    entered,
                    semantics::bind_parameters(
                        entered.scopes,
                        frame as int,
                        tokens_model(params@),
                        values_model(args@),
                        params@.len() as int,
                    ),
                );
                semantics::execute_block(
                    semantics::push(bound, FrameView::Call { outer: m.scope }),
                    stmts_model(body@),
                    frame,
                )
            }),
    {
        let outer = self.scope;
        let frame = self.enter(closure);
        let ghost entered = self@;
        let mut i: usize = 0;
        while i < params.len()
            invariant
                self.wf(),
                i <= params@.len(),
                params@.len() == args@.len(),
                frame < self@.scopes.len(),
                self@ == semantics::with_scopes(
                    entered,
                    semantics::bind_parameters(
                        entered.scopes,
                        frame as int,
                        tokens_model(params@),
                        values_model(args@),
                        i as int,
                    ),
                ),
            decreases params.len() - i,
        {
            self.define(frame, params[i].lexeme.as_str(), Some(args[i].clone()));
            i += 1;
        }
        self.push_frame(Frame::Call { outer });
        self.execute_block(body, frame);
    }

    /// Calls `callee` with the arguments `args`; `paren` is the token of the
    /// call, for the errors.
    fn call(&mut self, callee: LiteralType, args: Vec<LiteralType>, paren: Token) -> (action: Action)
        requires
            old(self).wf(),
        ensures
            final(self).wf(),
            (final(self)@, action@) == semantics::call(
                old(self)@,
                callee@,
                values_model(args@),
                paren@,
            ),
    {
        match callee {
            LiteralType::Callable(function) => {
                let expected = function.arity();
                if args.len() != expected {
                    let mut message = "Expected ".to_owned();
                    push_decimal(&mut message, expected);
                    message.append(" arguments but got ");
                    push_decimal(&mut message, args.len());
                    message.append(".");
                    self.fail(&paren, message);
                    return Action::Continue;
                }
                function.call(args, paren, self)
            },
            _ => {
                self.fail(&paren, "Can only call functions and classes".to_owned());
                Action::Continue
            },
        }
    }

    /// Goes on with what a binary operator comes to.
    fn settle(&mut self, outcome: Outcome) -> (action: Action)
        requires
            old(self).wf(),
        ensures
            final(self).wf(),
            (final(self)@, action@) == semantics::settle(old(self)@, outcome@),
    {
        match outcome {
            Outcome::Value(v) => {
                self.set_control(Control::Value(v));
                Action::Continue
            },
            Outcome::Arithmetic { op, left, right } => {
                self.set_control(Control::Await(Pending::Arithmetic));
                Action::Arithmetic { op, left, right }
            },
            Outcome::Join { number, text, number_first } => {
                self.set_control(Control::Await(Pending::Join { text, number_first }));
                Action::Format { number }
            },
            Outcome::Error(e) => {
                self.set_control(Control::Signal(InterpreterSignal::RuntimeError(e)));
                Action::Continue
            },
        }
    }

    /// Assigns `value` to the variable `name`.
    fn assign(&mut self, name: Token, value: LiteralType)
        requires
            old(self).wf(),
        ensures
            final(self).wf(),
            final(self)@ == semantics::assign(old(self)@, name@, value@),
    {
        let copy = value.clone();
        match self.environment.assign(self.scope, &name, copy) {
            Ok(_) => {
                proof {
                    self.environment.lemma_wf();
                    crate::environment::lemma_defining_scope(
                        old(self)@.scopes,
                        old(self)@.scope as int,
                        name@.lexeme,
                    );
                }
                self.set_control(Control::Value(value));
            },
            Err(_) => {
                let message = variable_message("Undefined variable ", &name);
                self.fail(&name, message);
            },
        }
    }

    /// Takes `value` as the next argument of a call.
    fn argument(
        &mut self,
        paren: Token,
        callee: LiteralType,
        args: Vec<Expr>,
        done: Vec<LiteralType>,
        value: LiteralType,
    ) -> (action: Action)
        requires
            old(self).wf(),
        ensures
            final(self).wf(),
            (final(self)@, action@) == semantics::argument(
                old(self)@,
                paren@,
                callee@,
                exprs_model(args@),
                values_model(done@),
                value@,
            ),
    {
        let mut done = done;
        let ghost before = values_model(done@);
        done.push(value);
        assert(values_model(done@) =~= before.push(value@));
        if done.len() < args.len() {
            let next = args[done.len()].clone();
            self.push_frame(Frame::Arguments { paren, callee, args, done });
            self.set_control(Control::Evaluate(next));
            Action::Continue
        } else {
            self.call(callee, done, paren)
        }
    }

    /// Hands `value` to `frame`, which was on top of the stack.
    fn deliver(&mut self, frame: Frame, value: LiteralType) -> (action: Action)
        requires
            old(self).wf(),
            old(self).taken(frame@),
        ensures
            final(self).wf(),
            (final(self)@, action@) == semantics::deliver(old(self)@, frame@, value@),
    {
        match frame {
            Frame::Ternary { second, third } => {
                self.ternary(second, third, value);
                Action::Continue
            },
            Frame::BinaryRight { op, right } => {
                self.push_frame(Frame::BinaryApply { op, left: value });
                self.set_control(Control::Evaluate(right));
                Action::Continue
            },
            Frame::BinaryApply { op, left } => {
                let outcome = binary(&left, &value, &op);
                self.settle(outcome)
            },
            Frame::Unary { op } => {
                match unary(&value, &op) {
                    Ok(v) => {
                        self.set_control(Control::Value(v));
                    },
                    Err(e) => {
                        self.set_control(Control::Signal(InterpreterSignal::RuntimeError(e)));
                    },
                }
                Action::Continue
            },
            Frame::Assign { name } => {
                self.assign(name, value);
                Action::Continue
            },
            Frame::Logical { op, right } => {
                if (op.t_type == TokenType::OR) == is_truthy(&value) {
                    self.set_control(Control::Value(value));
                } else {
                    self.set_control(Control::Evaluate(right));
                }
                Action::Continue
            },
            Frame::Callee { paren, args } => {
                if args.len() == 0 {
                    let none: Vec<LiteralType> = Vec::new();
                    assert(values_model(none@) =~= Seq::<LiteralView>::empty());
                    self.call(value, none, paren)
                } else {
                    let first = args[0].clone();
                    let none: Vec<LiteralType> = Vec::new();
                    assert(values_model(none@) =~= Seq::<LiteralView>::empty());
                    self.push_frame(Frame::Arguments { paren, callee: value, args, done: none });
                    self.set_control(Control::Evaluate(first));
                    Action::Continue
                }
            },
            Frame::Arguments { paren, callee, args, done } => {
                self.argument(paren, callee, args, done, value)
            },
            Frame::Discard => {
                self.set_control(Control::Done);
                Action::Continue
            },
            Frame::Print => {
                self.set_control(Control::Done);
                Action::Print(render(&value))
            },
            Frame::Define { name } => {
                self.define(self.scope, name.lexeme.as_str(), Some(value));
                self.set_control(Control::Done);
                Action::Continue
            },
            Frame::Branch { then_branch, else_branch } => {
                if is_truthy(&value) {
                    self.set_control(Control::Execute(then_branch));
                } else {
                    match else_branch {
                        Some(s) => {
                            self.set_control(Control::Execute(s));
                        },
                        None => {
                            self.set_control(Control::Done);
                        },
                    }
                }
                Action::Continue
            },
            Frame::LoopTest { condition, body } => {
                if is_truthy(&value) {
                    let next = body.clone();
                    self.push_frame(Frame::LoopBody { condition, body });
                    self.set_control(Control::Execute(next));
                } else {
                    self.set_control(Control::Done);
                }
                Action::Continue
            },
            Frame::Return => {
                self.set_control(Control::Signal(InterpreterSignal::Return(value)));
                Action::Continue
            },
            other => {
                self.proceed(other);
                Action::Continue
            },
        }
    }

    /// Goes on with one of the two branches of a ternary whose condition has
    /// the value `first`.
    fn ternary(&mut self, second: Expr, third: Expr, first: LiteralType)
        requires
            old(self).wf(),
        ensures
            final(self).wf(),
            final(self)@ == semantics::with_control(
                old(self)@,
                ControlView::Evaluate(
                    if crate::value::truthy(first@) {
                        second@
                    } else {
                        third@
                    },
                ),
            ),
    {
        if is_truthy(&first) {
            self.set_control(Control::Evaluate(second));
        } else {
            self.set_control(Control::Evaluate(third));
        }
    }

    /// Goes on behind a statement, under `frame`, which was on top of the stack.
    fn proceed(&mut self, frame: Frame)
        requires
            old(self).wf(),
            old(self).taken(frame@),
        ensures
            final(self).wf(),
            final(self)@ == semantics::proceed(old(self)@, frame@),
    {
        match frame {
            Frame::Sequence { statements, next } => {
                if next < statements.len() {
                    let stmt = statements[next].clone();
                    self.push_frame(Frame::Sequence { statements, next: next + 1 });
                    self.set_control(Control::Execute(stmt));
                } else {
                    self.set_control(Control::Done);
                }
            },
            Frame::Scope { outer } => {
                self.leave(outer);
                self.set_control(Control::Done);
            },
            Frame::LoopBody { condition, body } => {
                let test = condition.clone();
                self.push_frame(Frame::LoopTest { condition, body });
                self.set_control(Control::Evaluate(test));
            },
            Frame::Call { outer } => {
                self.leave(outer);
                self.set_control(Control::Value(LiteralType::Nil));
            },
            _ => {
                self.set_control(Control::Done);
            },
        }
    }

    /// Lets `signal` pass through `frame`, which was on top of the stack, or
    /// has the frame take it.
    fn unwind(&mut self, frame: Frame, signal: InterpreterSignal)
        requires
            old(self).wf(),
            old(self).taken(frame@),
        ensures
            final(self).wf(),
            final(self)@ == semantics::unwind(old(self)@, frame@, signal@),
    {
        match frame {
            Frame::LoopBody { condition, body } => {
                match signal {
                    InterpreterSignal::Break => {
                        self.set_control(Control::Done);
                    },
                    other => {
                        self.set_control(Control::Signal(other));
                    },
                }
            },
            Frame::Call { outer } => {
                self.leave(outer);
                match signal {
                    InterpreterSignal::Return(value) => {
                        self.set_control(Control::Value(value));
                    },
                    other => {
                        self.set_control(Control::Signal(other));
                    },
                }
            },
            Frame::Scope { outer } => {
                self.leave(outer);
                self.set_control(Control::Signal(signal));
            },
            _ => {
                self.set_control(Control::Signal(signal));
            },
        }
    }

    /// Takes the host's answer `event` to what was `pending`.
    fn receive(&mut self, pending: Pending, event: Event)
        requires
            old(self).wf(),
        ensures
            final(self).wf(),
            final(self)@ == semantics::with_control(
                old(self)@,
                semantics::receive(pending@, event@),
            ),
    {
        match (pending, event) {
            (Pending::Arithmetic, Event::Number(bits)) => {
                self.set_control(Control::Value(LiteralType::Number(bits)));
            },
            (Pending::Join { text, number_first }, Event::Text(number)) => {
                let joined = if number_first {
                    number.concat(text.as_str())
                } else {
                    text.concat(number.as_str())
                };
                self.set_control(Control::Value(LiteralType::String(joined)));
            },
            (Pending::Native, Event::Returned(Ok(value))) => {
                self.set_control(Control::Value(value));
            },
            (Pending::Native, Event::Returned(Err(message))) => {
                self.set_control(
                    Control::Signal(
                        InterpreterSignal::RuntimeError(RuntimeError::no_token(message)),
                    ),
                );
            },
            _ => {
                self.set_control(
                    Control::Signal(
                        InterpreterSignal::RuntimeError(
                            RuntimeError::no_token("Unexpected answer from the host".to_owned()),
                        ),
                    ),
                );
            },
        }
    }

    /// Does one step: the transition of [`semantics::step`] from the state of
    /// the machine and the host's `event`. Returns what the host is to do
    /// before the next step.
    pub fn step(&mut self, event: Event) -> (action: Action)
        requires
            old(self).wf(),
        ensures
            final(self).wf(),
            (final(self)@, action@) == semantics::step(old(self)@, event@),
    {
        let control = self.take_control();
        match control {
            Control::Evaluate(expr) => {
                self.evaluate(expr);
                Action::Continue
            },
            Control::Execute(stmt) => {
                self.execute(stmt);
                Action::Continue
            },
            Control::Value(value) => {
                if self.stack.len() == 0 {
                    Action::Result(value)
                } else {
                    let frame = self.pop_frame();
                    self.deliver(frame, value)
                }
            },
            Control::Done => {
                if self.stack.len() == 0 {
                    Action::Finished
                } else {
                    let frame = self.pop_frame();
                    self.proceed(frame);
                    Action::Continue
                }
            },
            Control::Signal(signal) => {
                if self.stack.len() == 0 {
                    Action::Failed(signal)
                } else {
                    let frame = self.pop_frame();
                    self.unwind(frame, signal);
                    Action::Continue
                }
            },
            Control::Await(pending) => {
                self.receive(pending, event);
                Action::Continue
            },
            Control::Halted => Action::Finished,
        }
    }
}

impl CallableTrait for Callable {
    open spec fn callable(&self) -> crate::callable::CallableView {
        self.model()
    }

    fn arity(&self) -> (r: usize) {
        match self {
            Callable::Function { params, .. } => params.len(),
            Callable::NativeFunction(native_function) => native_function.arity as usize,
        }
    }

    fn call(self, args: Vec<LiteralType>, paren: Token, machine: &mut Interpreter) -> (action:
        Action) {
        match self {
            Callable::Function { name, params, body, closure } => {
                proof {
                    assert(self.model()->Function_params =~= tokens_model(params@));
                    assert(self.model()->Function_body =~= stmts_model(body@));
                }
                if closure >= machine.environment.len() {
                    machine.fail(&paren, "Function of another environment".to_owned());
                    return Action::Continue;
                }
                machine.invoke(params, body, closure, args);
                Action::Continue
            },
            Callable::NativeFunction(native) => {
                machine.set_control(Control::Await(Pending::Native));
                Action::CallNative { name: native.name, args }
            },
        }
    }
}

/// The value of the native function `name`, which takes no argument.
pub open spec fn native(name: Seq<char>) -> Option<LiteralView> {
    Some(LiteralView::Callable(crate::callable::CallableView::NativeFunction { name, arity: 0 }))
}

/// The scopes `scopes` with the two native functions of the language defined
/// in the global scope: `clock` and `read_input`, which take no argument.
pub open spec fn with_natives(scopes: Seq<ScopeView>) -> Seq<ScopeView> {
    bind(bind(scopes, 0, "clock"@, native("clock"@)), 0, "read_input"@, native("read_input"@))
}

/// A machine that executes the statements `statements` in the global scope of
/// `environment`, in which the native functions are defined first.
pub fn interpret(statements: Vec<Stmt>, environment: Environment) -> (r: Interpreter)
    requires
        environment.wf(),
    ensures
        r.wf(),
        r@ == (MachineView {
            scopes: with_natives(environment@),
            globals: 0,
            scope: 0,
            control: ControlView::Done,
            stack: seq![FrameView::Sequence { statements: stmts_model(statements@), next: 0 }],
        }),
{
    let mut environment = environment;
    proof {
        environment.lemma_wf();
    }
    let clock = NativeFunction::new("clock".to_owned(), 0);
    let read_input = NativeFunction::new("read_input".to_owned(), 0);
    environment.define(0, "clock", Some(LiteralType::Callable(Callable::NativeFunction(clock))));
    environment.define(
        0,
        "read_input",
        Some(LiteralType::Callable(Callable::NativeFunction(read_input))),
    );
    let mut stack: Vec<Frame> = Vec::new();
    stack.push(Frame::Sequence { statements, next: 0 });
    let r = Interpreter { environment, globals: 0, scope: 0, control: Control::Done, stack };
    proof {
        r.environment.lemma_wf();
        assert(r@.stack =~= seq![
            FrameView::Sequence { statements: stmts_model(statements@), next: 0 },
        ]);
    }
    r
}

/// The message `before`, the name of the variable `name`, and a full stop.
fn variable_message(before: &str, name: &Token) -> (r: String)
    ensures
        r@ == before@ + name@.lexeme + "."@,
{
    let mut r = before.to_owned();
    r.append(name.lexeme.as_str());
    r.append(".");
    r
}

} // verus!
