//! The syntax tree: expressions and statements.

use vstd::prelude::*;
use crate::token::{LiteralType, LiteralView, Token, TokenView};

verus! {

/// An expression.
#[derive(Debug)]
#[allow(inconsistent_fields)]
pub enum Expr {
    Ternary { first: Box<Expr>, second: Box<Expr>, third: Box<Expr> },
    Binary { left: Box<Expr>, op: Token, right: Box<Expr> },
    Call { callee: Box<Expr>, paren: Token, args: Vec<Expr> },
    Grouping { expression: Box<Expr> },
    Literal { value: LiteralType },
    Unary { op: Token, right: Box<Expr> },
    Variable { name: Token },
    Assign { name: Token, value: Box<Expr> },
    Logical { left: Box<Expr>, op: Token, right: Box<Expr> },
}

/// The mathematical value of an [`Expr`].
#[verifier::ext_equal]
#[allow(inconsistent_fields)]
pub enum ExprView {
    Ternary { first: Box<ExprView>, second: Box<ExprView>, third: Box<ExprView> },
    Binary { left: Box<ExprView>, op: TokenView, right: Box<ExprView> },
    Call { callee: Box<ExprView>, paren: TokenView, args: Seq<ExprView> },
    Grouping { expression: Box<ExprView> },
    Literal { value: LiteralView },
    Unary { op: TokenView, right: Box<ExprView> },
    Variable { name: TokenView },
    Assign { name: TokenView, value: Box<ExprView> },
    Logical { left: Box<ExprView>, op: TokenView, right: Box<ExprView> },
}

/// A statement.
#[derive(Debug)]
#[allow(inconsistent_fields)]
pub enum Stmt {
    Block { statements: Vec<Stmt> },
    Break,
    Expression { expression: Expr },
    Function { name: Token, params: Vec<Token>, body: Vec<Stmt> },
    If { condition: Expr, then_branch: Box<Stmt>, else_branch: Option<Box<Stmt>> },
    Print { expression: Expr },
    Return { keyword: Token, value: Option<Expr> },
    Var { name: Token, initializer: Option<Expr> },
    While { condition: Expr, body: Box<Stmt> },
}

/// The mathematical value of a [`Stmt`].
#[verifier::ext_equal]
#[allow(inconsistent_fields)]
pub enum StmtView {
    Block { statements: Seq<StmtView> },
    Break,
    Expression { expression: ExprView },
    Function { name: TokenView, params: Seq<TokenView>, body: Seq<StmtView> },
    If { condition: ExprView, then_branch: Box<StmtView>, else_branch: Option<Box<StmtView>> },
    Print { expression: ExprView },
    Return { keyword: TokenView, value: Option<ExprView> },
    Var { name: TokenView, initializer: Option<ExprView> },
    While { condition: ExprView, body: Box<StmtView> },
}

impl Expr {
    /// The mathematical value.
    pub open spec fn model(&self) -> ExprView
        decreases self,
    {
        match self {
            Expr::Ternary { first, second, third } => ExprView::Ternary {
                first: Box::new(first.model()),
                second: Box::new(second.model()),
                third: Box::new(third.model()),
            },
            Expr::Binary { left, op, right } => ExprView::Binary {
                left: Box::new(left.model()),
                op: op.model(),
                right: Box::new(right.model()),
            },
            Expr::Call { callee, paren, args } => ExprView::Call {
                callee: Box::new(callee.model()),
                paren: paren.model(),
                args: Seq::new(
                    args@.len(),
                    |i: int|
                        if 0 <= i < args@.len() {
                            args@[i].model()
                        } else {
                            arbitrary()
                        },
                ),
            },
            Expr::Grouping { expression } => ExprView::Grouping {
                expression: Box::new(expression.model()),
            },
            Expr::Literal { value } => ExprView::Literal { value: value.model() },
            Expr::Unary { op, right } => ExprView::Unary {
                op: op.model(),
                right: Box::new(right.model()),
            },
            Expr::Variable { name } => ExprView::Variable { name: name.model() },
            Expr::Assign { name, value } => ExprView::Assign {
                name: name.model(),
                value: Box::new(value.model()),
            },
            Expr::Logical { left, op, right } => ExprView::Logical {
                left: Box::new(left.model()),
                op: op.model(),
                right: Box::new(right.model()),
            },
        }
    }
}

impl View for Expr {
    type V = ExprView;

    open spec fn view(&self) -> ExprView {
        self.model()
    }
}

/// The views of a sequence of expressions, one by one.
pub open spec fn exprs_model(exprs: Seq<Expr>) -> Seq<ExprView> {
    Seq::new(exprs.len(), |i: int| exprs[i].model())
}

/// The view of an optional expression.
pub open spec fn expr_option_model(expr: Option<Expr>) -> Option<ExprView> {
    match expr {
        Some(e) => Some(e.model()),
        None => None,
    }
}

impl Stmt {
    /// The mathematical value.
    pub open spec fn model(&self) -> StmtView
        decreases self,
    {
        match self {
            Stmt::Block { statements } => StmtView::Block {
                statements: Seq::new(
                    statements@.len(),
                    |i: int|
                        if 0 <= i < statements@.len() {
                            statements@[i].model()
                        } else {
                            arbitrary()
                        },
                ),
            },
            Stmt::Break => StmtView::Break,
            Stmt::Expression { expression } => StmtView::Expression {
                expression: expression.model(),
            },
            Stmt::Function { name, params, body } => StmtView::Function {
                name: name.model(),
                params: Seq::new(
                    params@.len(),
                    |i: int|
                        if 0 <= i < params@.len() {
                            params@[i].model()
                        } else {
                            arbitrary()
                        },
                ),
                body: Seq::new(
                    body@.len(),
                    |i: int|
                        if 0 <= i < body@.len() {
                            body@[i].model()
                        } else {
                            arbitrary()
                        },
                ),
            },
            Stmt::If { condition, then_branch, else_branch } => StmtView::If {
                condition: condition.model(),
                then_branch: Box::new(then_branch.model()),
                else_branch: match else_branch {
                    Some(e) => Some(Box::new(e.model())),
                    None => None,
                },
            },
            Stmt::Print { expression } => StmtView::Print { expression: expression.model() },
            Stmt::Return { keyword, value } => StmtView::Return {
                keyword: keyword.model(),
                value: match value {
                    Some(e) => Some(e.model()),
                    None => None,
                },
            },
            Stmt::Var { name, initializer } => StmtView::Var {
                name: name.model(),
                initializer: match initializer {
                    Some(e) => Some(e.model()),
                    None => None,
                },
            },
            Stmt::While { condition, body } => StmtView::While {
                condition: condition.model(),
                body: Box::new(body.model()),
            },
        }
    }
}

impl View for Stmt {
    type V = StmtView;

    open spec fn view(&self) -> StmtView {
        self.model()
    }
}

/// The view of an optional statement.
pub open spec fn stmt_option_model(stmt: Option<Stmt>) -> Option<StmtView> {
    match stmt {
        Some(s) => Some(s.model()),
        None => None,
    }
}

/// The views of a sequence of statements, one by one.
pub open spec fn stmts_model(stmts: Seq<Stmt>) -> Seq<StmtView> {
    Seq::new(stmts.len(), |i: int| stmts[i].model())
}

/// A copy of `exprs`.
pub fn clone_exprs(exprs: &Vec<Expr>) -> (r: Vec<Expr>)
    ensures
        exprs_model(r@) == exprs_model(exprs@),
    decreases exprs,
{
    let mut out: Vec<Expr> = Vec::new();
    let mut i: usize = 0;
    while i < exprs.len()
        invariant
            i <= exprs.len(),
            out.len() == i,
            forall|j: int| 0 <= j < i ==> out@[j].model() == exprs@[j].model(),
        decreases exprs.len() - i,
    {
        proof {
            vstd::std_specs::vec::axiom_vec_index_decreases(*exprs, i as int);
        }
        out.push(exprs[i].clone());
        i += 1;
    }
    assert(exprs_model(out@) =~= exprs_model(exprs@));
    out
}

/// A copy of `stmts`.
pub fn clone_stmts(stmts: &Vec<Stmt>) -> (r: Vec<Stmt>)
    ensures
        stmts_model(r@) == stmts_model(stmts@),
    decreases stmts,
{
    let mut out: Vec<Stmt> = Vec::new();
    let mut i: usize = 0;
    while i < stmts.len()
        invariant
            i <= stmts.len(),
            out.len() == i,
            forall|j: int| 0 <= j < i ==> out@[j].model() == stmts@[j].model(),
        decreases stmts.len() - i,
    {
        proof {
            vstd::std_specs::vec::axiom_vec_index_decreases(*stmts, i as int);
        }
        out.push(stmts[i].clone());
        i += 1;
    }
    assert(stmts_model(out@) =~= stmts_model(stmts@));
    out
}

impl Clone for Expr {
    fn clone(&self) -> (r: Self)
        ensures
            r@ == self@,
        decreases self,
    {
        match self {
            Expr::Ternary { first, second, third } => Expr::Ternary {
                first: Box::new((**first).clone()),
                second: Box::new((**second).clone()),
                third: Box::new((**third).clone()),
            },
            Expr::Binary { left, op, right } => Expr::Binary {
                left: Box::new((**left).clone()),
                op: op.clone(),
                right: Box::new((**right).clone()),
            },
            Expr::Call { callee, paren, args } => {
                let r = Expr::Call {
                    callee: Box::new((**callee).clone()),
                    paren: paren.clone(),
                    args: clone_exprs(args),
                };
                proof {
                    assert(r.model()->args =~= exprs_model(args@));
                    assert(self.model()->args =~= exprs_model(args@));
                }
                r
            },
            Expr::Grouping { expression } => Expr::Grouping {
                expression: Box::new((**expression).clone()),
            },
            Expr::Literal { value } => Expr::Literal { value: value.clone() },
            Expr::Unary { op, right } => Expr::Unary {
                op: op.clone(),
                right: Box::new((**right).clone()),
            },
            Expr::Variable { name } => Expr::Variable { name: name.clone() },
            Expr::Assign { name, value } => Expr::Assign {
                name: name.clone(),
                value: Box::new((**value).clone()),
            },
            Expr::Logical { left, op, right } => Expr::Logical {
                left: Box::new((**left).clone()),
                op: op.clone(),
                right: Box::new((**right).clone()),
            },
        }
    }
}

impl Clone for Stmt {
    fn clone(&self) -> (r: Self)
        ensures
            r@ == self@,
        decreases self,
    {
        match self {
            Stmt::Block { statements } => {
                let r = Stmt::Block { statements: clone_stmts(statements) };
                proof {
                    assert(r.model()->statements =~= stmts_model(statements@));
                    assert(self.model()->statements =~= stmts_model(statements@));
                }
                r
            },
            Stmt::Break => Stmt::Break,
            Stmt::Expression { expression } => Stmt::Expression { expression: expression.clone() },
            Stmt::Function { name, params, body } => {
                let r = Stmt::Function {
                    name: name.clone(),
                    params: crate::token::clone_tokens(params),
                    body: clone_stmts(body),
                };
                proof {
                    assert(r.model()->Function_params =~= crate::token::tokens_model(params@));
                    assert(self.model()->Function_params =~= crate::token::tokens_model(params@));
                    assert(r.model()->Function_body =~= stmts_model(body@));
                    assert(self.model()->Function_body =~= stmts_model(body@));
                }
                r
            },
            Stmt::If { condition, then_branch, else_branch } => {
                let other = match else_branch {
                    Some(e) => Some(Box::new((**e).clone())),
                    None => None,
                };
                Stmt::If {
                    condition: condition.clone(),
                    then_branch: Box::new((**then_branch).clone()),
                    else_branch: other,
                }
            },
            Stmt::Print { expression } => Stmt::Print { expression: expression.clone() },
            Stmt::Return { keyword, value } => {
                let v = match value {
                    Some(e) => Some(e.clone()),
                    None => None,
                };
                Stmt::Return { keyword: keyword.clone(), value: v }
            },
            Stmt::Var { name, initializer } => {
                let v = match initializer {
                    Some(e) => Some(e.clone()),
                    None => None,
                };
                Stmt::Var { name: name.clone(), initializer: v }
            },
            Stmt::While { condition, body } => Stmt::While {
                condition: condition.clone(),
                body: Box::new((**body).clone()),
            },
        }
    }
}

} // verus!
