//! Values that can be called: functions of the program and functions of the host.

use vstd::prelude::*;
use crate::ast::{Stmt, StmtView, stmts_model, clone_stmts};
use crate::interpreter::Interpreter;
use crate::machine::{Action, values_model};
use crate::token::{LiteralType, Token, TokenView, tokens_model, clone_tokens};

verus! {

/// A function of the host, known to the library by its name and its arity.
#[derive(Debug)]
pub struct NativeFunction {
    pub name: String,
    pub arity: u8,
}

/// A callable value.
///
/// `closure` is the handle of the scope that was current when the function
/// statement was executed.
#[derive(Debug)]
pub enum Callable {
    Function { name: Box<Token>, params: Vec<Token>, body: Vec<Stmt>, closure: usize },
    NativeFunction(NativeFunction),
}

/// The mathematical value of a [`Callable`].
#[verifier::ext_equal]
#[allow(inconsistent_fields)]
pub enum CallableView {
    Function { name: Box<TokenView>, params: Seq<TokenView>, body: Seq<StmtView>, closure: usize },
    NativeFunction { name: Seq<char>, arity: u8 },
}

impl NativeFunction {
    /// A native function called `name` that takes `arity` arguments.
    pub fn new(name: String, arity: u8) -> (r: Self)
        ensures
            r.name@ == name@,
            r.arity == arity,
    {
        NativeFunction { name, arity }
    }
}

impl Callable {
    /// The mathematical value.
    pub open spec fn model(&self) -> CallableView
        decreases self,
    {
        match self {
            Callable::Function { name, params, body, closure } => CallableView::Function {
                name: Box::new(name.model()),
                params: Seq::new(
                    params@.len(),
                    |i: int|
                        if 0 <= i < params@.len() {
                            params@[i].model()
                        } else {
                            arbitrary()
                        },
                ),
                body: Seq::new(
                    body@.len(),
                    |i: int|
                        if 0 <= i < body@.len() {
                            body@[i].model()
                        } else {
                            arbitrary()
                        },
                ),
                closure: *closure,
            },
            Callable::NativeFunction(native) => CallableView::NativeFunction {
                name: native.name@,
                arity: native.arity,
            },
        }
    }
}

/// What every callable does: it tells how many arguments it takes, and it is called.
pub trait CallableTrait {
    /// The callable as a mathematical value.
    spec fn callable(&self) -> CallableView;

    /// How many arguments the callable takes.
    fn arity(&self) -> (r: usize)
        ensures
            r == crate::semantics::arity(self.callable()),
    ;

    /// Enters the callable on the machine `machine`, with the arguments
    /// `args`, which are as many as it takes; `paren` is the token of the
    /// call, for the errors.
    fn call(self, args: Vec<LiteralType>, paren: Token, machine: &mut Interpreter) -> (action:
        Action)
        requires
            old(machine).wf(),
            args@.len() == crate::semantics::arity(self.callable()),
        ensures
            final(machine).wf(),
            (final(machine)@, action@) == crate::semantics::invoke(
                old(machine)@,
                self.callable(),
                values_model(args@),
                paren@,
            ),
    ;
}

impl View for Callable {
    type V = CallableView;

    open spec fn view(&self) -> CallableView {
        self.model()
    }
}

impl Clone for Callable {
    fn clone(&self) -> (r: Self)
        ensures
            r@ == self@,
        decreases self,
    {
        match self {
            Callable::Function { name, params, body, closure } => {
                let r = Callable::Function {
                    name: Box::new((**name).clone()),
                    params: clone_tokens(params),
                    body: clone_stmts(body),
                    closure: *closure,
                };
                proof {
                    assert(r.model()->Function_params =~= tokens_model(params@));
                    assert(self.model()->Function_params =~= tokens_model(params@));
                    assert(r.model()->Function_body =~= stmts_model(body@));
                    assert(self.model()->Function_body =~= stmts_model(body@));
                }
                r
            },
            Callable::NativeFunction(native) => Callable::NativeFunction(
                NativeFunction { name: native.name.clone(), arity: native.arity },
            ),
        }
    }
}

} // verus!
