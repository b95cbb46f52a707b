//! The grammar, as functions from a token sequence and a position to a syntax
//! tree or an error, and the position behind what was read.
//!
//! From highest to lowest precedence:
//!
//! ```text
//! expression   -> comma
//! comma        -> assignment ( "," assignment )*
//! assignment   -> ternary ( "=" assignment )?
//! ternary      -> logic_or ( "?" expression ":" ternary )?
//! logic_or     -> logic_and ( "or" logic_and )*
//! logic_and    -> equality ( "and" equality )*
//! equality     -> comparison ( ( "!=" | "==" ) comparison )*
//! comparison   -> term ( ( ">" | ">=" | "<" | "<=" ) term )*
//! term         -> factor ( ( "-" | "+" ) factor )*
//! factor       -> unary ( ( "/" | "*" ) unary )*
//! unary        -> ( "!" | "-" ) unary | call
//! call         -> primary ( "(" arguments? ")" )*
//! arguments    -> assignment ( "," assignment )*
//! ```
//!
//! An argument of a call is an `assignment`: the comma separates arguments, and
//! every other operator may stand in one.

use vstd::prelude::*;
use crate::ast::{ExprView, StmtView};
use crate::token::{LiteralView, TokenType, TokenView};

verus! {

/// What a parse error says: the token at which it was found, and the message.
#[verifier::ext_equal]
pub struct ParseErrorView {
    pub token: TokenView,
    pub msg: Seq<char>,
}

/// The outcome of reading one part of the grammar: the part or an error, and
/// the position behind what was read.
#[verifier::ext_equal]
pub struct Parsed<T> {
    pub result: Result<T, ParseErrorView>,
    pub pos: int,
}

/// The levels of the grammar that are a chain of operands with operators between them.
#[derive(Clone, Copy, PartialEq, Eq, Structural)]
pub enum Level {
    Comma,
    Or,
    And,
    Equality,
    Comparison,
    Term,
    Factor,
}

/// A token sequence that the parser can read: it ends in `EOF`, and each
/// number and string holds its literal.
pub open spec fn well_formed(ts: Seq<TokenView>) -> bool {
    &&& ts.len() > 0
    &&& ts.last().t_type == TokenType::EOF
    &&& forall|i: int|
        0 <= i < ts.len() && ((#[trigger] ts[i]).t_type == TokenType::Number || ts[i].t_type
            == TokenType::String) ==> ts[i].literal is Some
}

/// The kind of the token at `pos`; `EOF` outside the sequence.
pub open spec fn kind_at(ts: Seq<TokenView>, pos: int) -> TokenType {
    if 0 <= pos < ts.len() {
        ts[pos].t_type
    } else {
        TokenType::EOF
    }
}

/// Whether the token at `pos` is of kind `t`. The closing `EOF` is of no kind.
pub open spec fn check(ts: Seq<TokenView>, pos: int, t: TokenType) -> bool {
    kind_at(ts, pos) != TokenType::EOF && kind_at(ts, pos) == t
}

/// Whether the token at `pos` is the closing `EOF`.
pub open spec fn at_end(ts: Seq<TokenView>, pos: int) -> bool {
    kind_at(ts, pos) == TokenType::EOF
}

/// The position behind a part that was read from `from` on. A part never ends
/// before it starts, nor behind the sequence, so this is `pos` itself wherever
/// the parser gets to: see [`lemma_expression_advances`] and
/// [`lemma_declaration_advances`].
pub open spec fn behind(ts: Seq<TokenView>, from: int, pos: int) -> int {
    if from <= pos <= ts.len() {
        pos
    } else {
        from
    }
}

/// The error `msg` at the token `at`, with the parser left at `pos`.
pub open spec fn fail<T>(ts: Seq<TokenView>, at: int, msg: Seq<char>, pos: int) -> Parsed<T> {
    Parsed { result: Err(ParseErrorView { token: ts[at], msg }), pos }
}

/// Reads a token of kind `t`, or fails with `msg` at the token found in its place.
pub open spec fn consume(ts: Seq<TokenView>, pos: int, t: TokenType, msg: Seq<char>) -> Parsed<
    TokenView,
> {
    if check(ts, pos, t) {
        Parsed { result: Ok(ts[pos]), pos: pos + 1 }
    } else {
        fail(ts, pos, msg, pos)
    }
}

/// Whether `t` is an operator of the level `level`.
pub open spec fn level_has(level: Level, t: TokenType) -> bool {
    match level {
        Level::Comma => t == TokenType::Comma,
        Level::Or => t == TokenType::OR,
        Level::And => t == TokenType::And,
        Level::Equality => t == TokenType::BangEqual || t == TokenType::EqualEqual,
        Level::Comparison => t == TokenType::Greater || t == TokenType::GreaterEqual || t
            == TokenType::Less || t == TokenType::LessEqual,
        Level::Term => t == TokenType::Minus || t == TokenType::Plus,
        Level::Factor => t == TokenType::Slash || t == TokenType::Star,
    }
}

/// The rank of a level: a level reads its operands at the next lower rank.
pub open spec fn level_rank(level: Level) -> nat {
    match level {
        Level::Factor => 6,
        Level::Term => 8,
        Level::Comparison => 10,
        Level::Equality => 12,
        Level::And => 14,
        Level::Or => 16,
        Level::Comma => 22,
    }
}

/// The node for `left op right` at the level `level`: `and` and `or` give a
/// `Logical` node, every other operator a `Binary` one.
pub open spec fn combine(level: Level, left: ExprView, op: TokenView, right: ExprView) -> ExprView {
    if level == Level::Or || level == Level::And {
        ExprView::Logical { left: Box::new(left), op, right: Box::new(right) }
    } else {
        ExprView::Binary { left: Box::new(left), op, right: Box::new(right) }
    }
}

/// The literal that the token `t` holds; `Nil` where it holds none.
pub open spec fn literal_of(t: TokenView) -> LiteralView {
    match t.literal {
        Some(l) => l,
        None => LiteralView::Nil,
    }
}

/// An expression: a chain of assignments with commas between them.
pub open spec fn expression(ts: Seq<TokenView>, pos: int) -> Parsed<ExprView>
    decreases ts.len() - pos, 24nat,
{
    binary_level(ts, pos, Level::Comma)
}

/// One operand of the level `level`.
pub open spec fn operand(ts: Seq<TokenView>, pos: int, level: Level) -> Parsed<ExprView>
    decreases ts.len() - pos, level_rank(level) - 1,
{
    match level {
        Level::Comma => assignment(ts, pos),
        Level::Or => binary_level(ts, pos, Level::And),
        Level::And => binary_level(ts, pos, Level::Equality),
        Level::Equality => binary_level(ts, pos, Level::Comparison),
        Level::Comparison => binary_level(ts, pos, Level::Term),
        Level::Term => binary_level(ts, pos, Level::Factor),
        Level::Factor => unary(ts, pos),
    }
}

/// A chain of operands of the level `level`, grouped from the left.
pub open spec fn binary_level(ts: Seq<TokenView>, pos: int, level: Level) -> Parsed<ExprView>
    decreases ts.len() - pos, level_rank(level),
{
    let first = operand(ts, pos, level);
    let next = behind(ts, pos, first.pos);
    match first.result {
        Ok(left) => binary_rest(ts, next, level, left),
        Err(e) => Parsed { result: Err(e), pos: next },
    }
}

/// The rest of a chain whose operands so far make up `left`.
pub open spec fn binary_rest(ts: Seq<TokenView>, pos: int, level: Level, left: ExprView) -> Parsed<
    ExprView,
>
    decreases ts.len() - pos, 0nat,
{
    if kind_at(ts, pos) != TokenType::EOF && level_has(level, kind_at(ts, pos)) {
        let right = operand(ts, pos + 1, level);
        let next = behind(ts, pos + 1, right.pos);
        match right.result {
            Ok(r) => binary_rest(ts, next, level, combine(level, left, ts[pos], r)),
            Err(e) => Parsed { result: Err(e), pos: next },
        }
    } else {
        Parsed { result: Ok(left), pos }
    }
}

/// An assignment to a variable, or what stands in its place: a ternary.
pub open spec fn assignment(ts: Seq<TokenView>, pos: int) -> Parsed<ExprView>
    decreases ts.len() - pos, 20nat,
{
    let target = ternary(ts, pos);
    let next = behind(ts, pos, target.pos);
    match target.result {
        Err(e) => Parsed { result: Err(e), pos: next },
        Ok(expr) => if check(ts, next, TokenType::Equal) {
            let value = assignment(ts, next + 1);
            let end = behind(ts, next + 1, value.pos);
            match value.result {
                Err(e) => Parsed { result: Err(e), pos: end },
                Ok(v) => match expr {
                    ExprView::Variable { name } => Parsed {
                        result: Ok(ExprView::Assign { name, value: Box::new(v) }),
                        pos: end,
                    },
                    _ => fail(ts, end - 1, "Invalid assignment target."@, end),
                },
            }
        } else {
            Parsed { result: Ok(expr), pos: next }
        },
    }
}

/// A condition with its two branches, or what stands in its place: a chain of `or`.
pub open spec fn ternary(ts: Seq<TokenView>, pos: int) -> Parsed<ExprView>
    decreases ts.len() - pos, 18nat,
{
    let condition = binary_level(ts, pos, Level::Or);
    let next = behind(ts, pos, condition.pos);
    match condition.result {
        Err(e) => Parsed { result: Err(e), pos: next },
        Ok(first) => if check(ts, next, TokenType::Question) {
            let second = expression(ts, next + 1);
            let middle = behind(ts, next + 1, second.pos);
            match second.result {
                Err(e) => Parsed { result: Err(e), pos: middle },
                Ok(s) => {
                    let colon = consume(
                        ts,
                        middle,
                        TokenType::Colon,
                        "Expected : after ternary operator ?"@,
                    );
                    match colon.result {
                        Err(e) => Parsed { result: Err(e), pos: middle },
                        Ok(_) => {
                            let third = ternary(ts, middle + 1);
                            let end = behind(ts, middle + 1, third.pos);
                            match third.result {
                                Err(e) => Parsed { result: Err(e), pos: end },
                                Ok(t) => Parsed {
                                    result: Ok(
                                        ExprView::Ternary {
                                            first: Box::new(first),
                                            second: Box::new(s),
                                            third: Box::new(t),
                                        },
                                    ),
                                    pos: end,
                                },
                            }
                        },
                    }
                },
            }
        } else {
            Parsed { result: Ok(first), pos: next }
        },
    }
}

/// An operand behind `!` or `-`, or what stands in its place: a call.
pub open spec fn unary(ts: Seq<TokenView>, pos: int) -> Parsed<ExprView>
    decreases ts.len() - pos, 4nat,
{
    if check(ts, pos, TokenType::Bang) || check(ts, pos, TokenType::Minus) {
        let right = unary(ts, pos + 1);
        let end = behind(ts, pos + 1, right.pos);
        match right.result {
            Err(e) => Parsed { result: Err(e), pos: end },
            Ok(r) => Parsed {
                result: Ok(ExprView::Unary { op: ts[pos], right: Box::new(r) }),
                pos: end,
            },
        }
    } else {
        call(ts, pos)
    }
}

/// A primary expression and the calls that follow it.
pub open spec fn call(ts: Seq<TokenView>, pos: int) -> Parsed<ExprView>
    decreases ts.len() - pos, 2nat,
{
    let callee = primary(ts, pos);
    let next = behind(ts, pos, callee.pos);
    match callee.result {
        Err(e) => Parsed { result: Err(e), pos: next },
        Ok(expr) => call_rest(ts, next, expr),
    }
}

/// The calls that follow the callee `callee`, one argument list after another.
pub open spec fn call_rest(ts: Seq<TokenView>, pos: int, callee: ExprView) -> Parsed<ExprView>
    decreases ts.len() - pos, 0nat,
{
    if check(ts, pos, TokenType::LeftParen) {
        let called = finish_call(ts, pos + 1, callee);
        let next = behind(ts, pos + 1, called.pos);
        match called.result {
            Err(e) => Parsed { result: Err(e), pos: next },
            Ok(expr) => call_rest(ts, next, expr),
        }
    } else {
        Parsed { result: Ok(callee), pos }
    }
}

/// The call of `callee` whose argument list starts at `pos`, behind its
/// opening parenthesis.
pub open spec fn finish_call(ts: Seq<TokenView>, pos: int, callee: ExprView) -> Parsed<ExprView>
    decreases ts.len() - pos, 27nat,
{
    let args = if check(ts, pos, TokenType::RightParen) {
        Parsed { result: Ok(Seq::<ExprView>::empty()), pos }
    } else {
        arguments(ts, pos, Seq::empty())
    };
    let next = behind(ts, pos, args.pos);
    match args.result {
        Err(e) => Parsed { result: Err(e), pos: next },
        Ok(list) => {
            let paren = consume(ts, next, TokenType::RightParen, "Expect ')' after arguments"@);
            match paren.result {
                Err(e) => Parsed { result: Err(e), pos: next },
                Ok(p) => Parsed {
                    result: Ok(
                        ExprView::Call { callee: Box::new(callee), paren: p, args: list },
                    ),
                    pos: next + 1,
                },
            }
        },
    }
}

/// The arguments from `pos` on, behind the arguments `done`. There are at most 255.
pub open spec fn arguments(ts: Seq<TokenView>, pos: int, done: Seq<ExprView>) -> Parsed<
    Seq<ExprView>,
>
    decreases ts.len() - pos, 26nat,
{
    if done.len() >= 255 {
        fail(ts, pos, "Can't have more than 255 arguments"@, pos)
    } else {
        let arg = assignment(ts, pos);
        let next = behind(ts, pos, arg.pos);
        match arg.result {
            Err(e) => Parsed { result: Err(e), pos: next },
            Ok(a) => if check(ts, next, TokenType::Comma) {
                arguments(ts, next + 1, done.push(a))
            } else {
                Parsed { result: Ok(done.push(a)), pos: next }
            },
        }
    }
}

/// The error for an operator of the level `level` that stands where an
/// operand is due: the operand behind it is read all the same.
pub open spec fn missing_operand(ts: Seq<TokenView>, pos: int, level: Level) -> Parsed<ExprView>
    decreases ts.len() - pos, 0nat,
{
    if 0 <= pos < ts.len() {
        let right = binary_level(ts, pos + 1, level);
        let end = behind(ts, pos + 1, right.pos);
        fail(ts, end - 1, "Missing left-hand operand."@, end)
    } else {
        fail(ts, pos, "Missing left-hand operand."@, pos)
    }
}

/// A literal, an expression in parentheses or a variable. An operator in
/// their place is an error of its own, behind which the operand is read.
pub open spec fn primary(ts: Seq<TokenView>, pos: int) -> Parsed<ExprView>
    decreases ts.len() - pos, 1nat,
{
    let t = kind_at(ts, pos);
    if t == TokenType::False {
        Parsed { result: Ok(ExprView::Literal { value: LiteralView::Bool(false) }), pos: pos + 1 }
    } else if t == TokenType::True {
        Parsed { result: Ok(ExprView::Literal { value: LiteralView::Bool(true) }), pos: pos + 1 }
    } else if t == TokenType::Number || t == TokenType::String {
        Parsed { result: Ok(ExprView::Literal { value: literal_of(ts[pos]) }), pos: pos + 1 }
    } else if t == TokenType::Nil {
        Parsed { result: Ok(ExprView::Literal { value: LiteralView::Nil }), pos: pos + 1 }
    } else if t == TokenType::LeftParen {
        let inner = expression(ts, pos + 1);
        let next = behind(ts, pos + 1, inner.pos);
        match inner.result {
            Err(e) => Parsed { result: Err(e), pos: next },
            Ok(expr) => {
                let close = consume(
                    ts,
                    next,
                    TokenType::RightParen,
                    "Expect ')' after expression"@,
                );
                match close.result {
                    Err(e) => Parsed { result: Err(e), pos: next },
                    Ok(_) => Parsed {
                        result: Ok(ExprView::Grouping { expression: Box::new(expr) }),
                        pos: next + 1,
                    },
                }
            },
        }
    } else if t == TokenType::Identifier {
        Parsed { result: Ok(ExprView::Variable { name: ts[pos] }), pos: pos + 1 }
    } else if t == TokenType::Equal || level_has(Level::Equality, t) {
        missing_operand(ts, pos, Level::Equality)
    } else if level_has(Level::Comparison, t) {
        missing_operand(ts, pos, Level::Comparison)
    } else if t == TokenType::Plus {
        missing_operand(ts, pos, Level::Term)
    } else if t == TokenType::Star || t == TokenType::Slash {
        missing_operand(ts, pos, Level::Factor)
    } else {
        fail(ts, pos, "Expect expression."@, pos)
    }
}

/// The loop depth inside a loop that stands at depth `depth`: one more, as far
/// as the machine can count.
pub open spec fn enter_loop(depth: u32) -> u32 {
    if depth < u32::MAX {
        (depth + 1) as u32
    } else {
        depth
    }
}

/// The position behind a part that was read from `from` on and that holds at
/// least one token.
pub open spec fn beyond(ts: Seq<TokenView>, from: int, pos: int) -> int {
    if from < pos <= ts.len() {
        pos
    } else {
        from + 1
    }
}

/// Whether a token of kind `t` starts a declaration or a statement.
pub open spec fn starts_statement(t: TokenType) -> bool {
    t == TokenType::Class || t == TokenType::Fun || t == TokenType::Var || t == TokenType::For
        || t == TokenType::If || t == TokenType::While || t == TokenType::Print || t
        == TokenType::Return
}

/// Where the parser goes on after an error that left it at `pos`: one token
/// further, and then on to the first position that follows a semicolon or
/// holds a token that starts a statement, or to the end.
pub open spec fn synchronize(ts: Seq<TokenView>, pos: int) -> int {
    if at_end(ts, pos) {
        synchronize_rest(ts, pos)
    } else {
        synchronize_rest(ts, pos + 1)
    }
}

/// Where the parser goes on from `pos`, one token behind the error or further.
pub open spec fn synchronize_rest(ts: Seq<TokenView>, pos: int) -> int
    decreases ts.len() - pos,
{
    if at_end(ts, pos) {
        pos
    } else if kind_at(ts, pos - 1) == TokenType::Semicolon {
        pos
    } else if starts_statement(kind_at(ts, pos)) {
        pos
    } else {
        synchronize_rest(ts, pos + 1)
    }
}

/// A statement that is an expression and a semicolon, or `print`, an
/// expression and a semicolon: `print` tells which; `msg` is the error for a
/// missing semicolon.
pub open spec fn expression_statement(ts: Seq<TokenView>, pos: int, print: bool, msg: Seq<char>)
    -> Parsed<StmtView>
    decreases ts.len() - pos, 30nat,
{
    let value = expression(ts, pos);
    let next = behind(ts, pos, value.pos);
    match value.result {
        Err(e) => Parsed { result: Err(e), pos: next },
        Ok(expr) => match consume(ts, next, TokenType::Semicolon, msg).result {
            Err(e) => Parsed { result: Err(e), pos: next },
            Ok(_) => Parsed {
                result: Ok(
                    if print {
                        StmtView::Print { expression: expr }
                    } else {
                        StmtView::Expression { expression: expr }
                    },
                ),
                pos: next + 1,
            },
        },
    }
}

/// The declaration of a variable, behind `var`.
pub open spec fn var_declaration(ts: Seq<TokenView>, pos: int) -> Parsed<StmtView>
    decreases ts.len() - pos, 30nat,
{
    match consume(ts, pos, TokenType::Identifier, "Expect variable name"@).result {
        Err(e) => Parsed { result: Err(e), pos },
        Ok(name) => {
            let initializer = if check(ts, pos + 1, TokenType::Equal) {
                let value = expression(ts, pos + 2);
                Parsed {
                    result: match value.result {
                        Ok(v) => Ok(Some(v)),
                        Err(e) => Err(e),
                    },
                    pos: behind(ts, pos + 2, value.pos),
                }
            } else {
                Parsed { result: Ok(None::<ExprView>), pos: pos + 1 }
            };
            match initializer.result {
                Err(e) => Parsed { result: Err(e), pos: initializer.pos },
                Ok(init) => match consume(
                    ts,
                    initializer.pos,
                    TokenType::Semicolon,
                    "Expect ';' after variable declaration."@,
                ).result {
                    Err(e) => Parsed { result: Err(e), pos: initializer.pos },
                    Ok(_) => Parsed {
                        result: Ok(StmtView::Var { name, initializer: init }),
                        pos: initializer.pos + 1,
                    },
                },
            }
        },
    }
}

/// A `return` statement, behind its keyword, which stands at `pos - 1`.
pub open spec fn return_statement(ts: Seq<TokenView>, pos: int) -> Parsed<StmtView>
    decreases ts.len() - pos, 30nat,
{
    let value = if !check(ts, pos, TokenType::Semicolon) {
        let v = expression(ts, pos);
        Parsed {
            result: match v.result {
                Ok(e) => Ok(Some(e)),
                Err(e) => Err(e),
            },
            pos: behind(ts, pos, v.pos),
        }
    } else {
        Parsed { result: Ok(None::<ExprView>), pos }
    };
    match value.result {
        Err(e) => Parsed { result: Err(e), pos: value.pos },
        Ok(v) => match consume(
            ts,
            value.pos,
            TokenType::Semicolon,
            "Expect ';' after return value."@,
        ).result {
            Err(e) => Parsed { result: Err(e), pos: value.pos },
            Ok(_) => Parsed {
                result: Ok(StmtView::Return { keyword: ts[pos - 1], value: v }),
                pos: value.pos + 1,
            },
        },
    }
}

/// A `break` statement, behind its keyword: an error outside every loop.
pub open spec fn break_statement(ts: Seq<TokenView>, pos: int, depth: u32) -> Parsed<StmtView> {
    if depth == 0 {
        fail(ts, pos - 1, "Must be inside a loop to use 'break'"@, pos)
    } else {
        match consume(ts, pos, TokenType::Semicolon, "Expect ';' after 'break'"@).result {
            Err(e) => Parsed { result: Err(e), pos },
            Ok(_) => Parsed { result: Ok(StmtView::Break), pos: pos + 1 },
        }
    }
}

/// A condition in parentheses, behind the keyword of an `if` or a `while`.
pub open spec fn condition(ts: Seq<TokenView>, pos: int, open: Seq<char>, close: Seq<char>)
    -> Parsed<ExprView>
    decreases ts.len() - pos, 30nat,
{
    match consume(ts, pos, TokenType::LeftParen, open).result {
        Err(e) => Parsed { result: Err(e), pos },
        Ok(_) => {
            let value = expression(ts, pos + 1);
            let next = behind(ts, pos + 1, value.pos);
            match value.result {
                Err(e) => Parsed { result: Err(e), pos: next },
                Ok(expr) => match consume(ts, next, TokenType::RightParen, close).result {
                    Err(e) => Parsed { result: Err(e), pos: next },
                    Ok(_) => Parsed { result: Ok(expr), pos: next + 1 },
                },
            }
        },
    }
}

/// An `if` statement, behind its keyword.
pub open spec fn if_statement(ts: Seq<TokenView>, pos: int, depth: u32) -> Parsed<StmtView>
    decreases ts.len() - pos, 31nat,
{
    let test = condition(ts, pos, "Expect '(' after 'if'."@, "Expect ')' after if condition."@);
    let next = beyond(ts, pos, test.pos);
    match test.result {
        Err(e) => Parsed { result: Err(e), pos: behind(ts, pos, test.pos) },
        Ok(cond) => {
            let then_branch = statement(ts, next, depth);
            let middle = behind(ts, next, then_branch.pos);
            match then_branch.result {
                Err(e) => Parsed { result: Err(e), pos: middle },
                Ok(then_stmt) => if check(ts, middle, TokenType::Else) {
                    let else_branch = statement(ts, middle + 1, depth);
                    let end = behind(ts, middle + 1, else_branch.pos);
                    match else_branch.result {
                        Err(e) => Parsed { result: Err(e), pos: end },
                        Ok(else_stmt) => Parsed {
                            result: Ok(
                                StmtView::If {
                                    condition: cond,
                                    then_branch: Box::new(then_stmt),
                                    else_branch: Some(Box::new(else_stmt)),
                                },
                            ),
                            pos: end,
                        },
                    }
                } else {
                    Parsed {
                        result: Ok(
                            StmtView::If {
                                condition: cond,
                                then_branch: Box::new(then_stmt),
                                else_branch: None,
                            },
                        ),
                        pos: middle,
                    }
                },
            }
        },
    }
}

/// A `while` statement, behind its keyword. Its body stands one loop deeper.
pub open spec fn while_statement(ts: Seq<TokenView>, pos: int, depth: u32) -> Parsed<StmtView>
    decreases ts.len() - pos, 31nat,
{
    let test = condition(
        ts,
        pos,
        "Expect '(' after 'while'."@,
        "Expect ')' after while condition."@,
    );
    let next = beyond(ts, pos, test.pos);
    match test.result {
        Err(e) => Parsed { result: Err(e), pos: behind(ts, pos, test.pos) },
        Ok(cond) => {
            let body = statement(ts, next, enter_loop(depth));
            let end = behind(ts, next, body.pos);
            match body.result {
                Err(e) => Parsed { result: Err(e), pos: end },
                Ok(b) => Parsed {
                    result: Ok(StmtView::While { condition: cond, body: Box::new(b) }),
                    pos: end,
                },
            }
        },
    }
}

/// The first clause of a `for` statement, behind the opening parenthesis: a
/// semicolon alone, the declaration of a variable, or an expression statement.
pub open spec fn for_initializer(ts: Seq<TokenView>, pos: int) -> Parsed<Option<StmtView>>
    decreases ts.len() - pos, 31nat,
{
    if check(ts, pos, TokenType::Semicolon) {
        Parsed { result: Ok(None), pos: pos + 1 }
    } else {
        let init = if check(ts, pos, TokenType::Var) {
            var_declaration(ts, pos + 1)
        } else {
            expression_statement(ts, pos, false, "Expect ';' after expression."@)
        };
        Parsed {
            result: match init.result {
                Ok(s) => Ok(Some(s)),
                Err(e) => Err(e),
            },
            pos: behind(ts, pos, init.pos),
        }
    }
}

/// A clause of a `for` statement that may be left out: an expression, if the
/// token `close` does not stand there, and then `close`.
pub open spec fn for_clause(ts: Seq<TokenView>, pos: int, close: TokenType, msg: Seq<char>)
    -> Parsed<Option<ExprView>>
    decreases ts.len() - pos, 31nat,
{
    let value = if !check(ts, pos, close) {
        let v = expression(ts, pos);
        Parsed {
            result: match v.result {
                Ok(e) => Ok(Some(e)),
                Err(e) => Err(e),
            },
            pos: behind(ts, pos, v.pos),
        }
    } else {
        Parsed { result: Ok(None::<ExprView>), pos }
    };
    match value.result {
        Err(e) => Parsed { result: Err(e), pos: value.pos },
        Ok(v) => match consume(ts, value.pos, close, msg).result {
            Err(e) => Parsed { result: Err(e), pos: value.pos },
            Ok(_) => Parsed { result: Ok(v), pos: value.pos + 1 },
        },
    }
}

/// The statement that a `for` statement stands for: a `while` loop over the
/// body and the increment, in a block behind the initializer where there is one.
pub open spec fn desugar_for(
    initializer: Option<StmtView>,
    condition: Option<ExprView>,
    increment: Option<ExprView>,
    body: StmtView,
) -> StmtView {
    let inner = match increment {
        Some(inc) => StmtView::Block {
            statements: seq![body, StmtView::Expression { expression: inc }],
        },
        None => body,
    };
    let test = match condition {
        Some(c) => c,
        None => ExprView::Literal { value: LiteralView::Bool(true) },
    };
    let repeat = StmtView::While { condition: test, body: Box::new(inner) };
    match initializer {
        Some(init) => StmtView::Block { statements: seq![init, repeat] },
        None => repeat,
    }
}

/// A `for` statement, behind its keyword. Its body stands one loop deeper.
pub open spec fn for_statement(ts: Seq<TokenView>, pos: int, depth: u32) -> Parsed<StmtView>
    decreases ts.len() - pos, 32nat,
{
    match consume(ts, pos, TokenType::LeftParen, "Expect '(' after 'for'."@).result {
        Err(e) => Parsed { result: Err(e), pos },
        Ok(_) => {
            let first = for_initializer(ts, pos + 1);
            let after_first = behind(ts, pos + 1, first.pos);
            match first.result {
                Err(e) => Parsed { result: Err(e), pos: after_first },
                Ok(initializer) => {
                    let second = for_clause(
                        ts,
                        after_first,
                        TokenType::Semicolon,
                        "Expect ';' after loop condition"@,
                    );
                    let after_second = behind(ts, after_first, second.pos);
                    match second.result {
                        Err(e) => Parsed { result: Err(e), pos: after_second },
                        Ok(test) => {
                            let third = for_clause(
                                ts,
                                after_second,
                                TokenType::RightParen,
                                "Expect ')' after for clauses."@,
                            );
                            let after_third = behind(ts, after_second, third.pos);
                            match third.result {
                                Err(e) => Parsed { result: Err(e), pos: after_third },
                                Ok(increment) => {
                                    let body = statement(ts, after_third, enter_loop(depth));
                                    let end = behind(ts, after_third, body.pos);
                                    match body.result {
                                        Err(e) => Parsed { result: Err(e), pos: end },
                                        Ok(b) => Parsed {
                                            result: Ok(
                                                desugar_for(initializer, test, increment, b),
                                            ),
                                            pos: end,
                                        },
                                    }
                                },
                            }
                        },
                    }
                },
            }
        },
    }
}

/// A statement.
pub open spec fn statement(ts: Seq<TokenView>, pos: int, depth: u32) -> Parsed<StmtView>
    decreases ts.len() - pos, 33nat,
{
    let t = kind_at(ts, pos);
    if t == TokenType::For {
        for_statement(ts, pos + 1, depth)
    } else if t == TokenType::If {
        if_statement(ts, pos + 1, depth)
    } else if t == TokenType::Print {
        expression_statement(ts, pos + 1, true, "Expect ';' after value."@)
    } else if t == TokenType::Return {
        return_statement(ts, pos + 1)
    } else if t == TokenType::While {
        while_statement(ts, pos + 1, depth)
    } else if t == TokenType::Break {
        break_statement(ts, pos + 1, depth)
    } else if t == TokenType::LeftBrace {
        let inner = block(ts, pos + 1, depth);
        Parsed {
            result: match inner.result {
                Ok(statements) => Ok(StmtView::Block { statements }),
                Err(e) => Err(e),
            },
            pos: behind(ts, pos + 1, inner.pos),
        }
    } else {
        expression_statement(ts, pos, false, "Expect ';' after expression."@)
    }
}

/// The statements of a block and its closing brace, behind the opening brace.
pub open spec fn block(ts: Seq<TokenView>, pos: int, depth: u32) -> Parsed<Seq<StmtView>>
    decreases ts.len() - pos, 36nat,
{
    block_rest(ts, pos, depth, Seq::empty())
}

/// The rest of a block, behind the statements `done`.
pub open spec fn block_rest(ts: Seq<TokenView>, pos: int, depth: u32, done: Seq<StmtView>)
    -> Parsed<Seq<StmtView>>
    decreases ts.len() - pos, 35nat,
{
    if !check(ts, pos, TokenType::RightBrace) && !at_end(ts, pos) {
        let next = declaration(ts, pos, depth);
        match next.result {
            Err(e) => Parsed { result: Err(e), pos: behind(ts, pos, next.pos) },
            Ok(s) => block_rest(ts, beyond(ts, pos, next.pos), depth, done.push(s)),
        }
    } else {
        match consume(ts, pos, TokenType::RightBrace, "Expect '}' after block."@).result {
            Err(e) => Parsed { result: Err(e), pos },
            Ok(_) => Parsed { result: Ok(done), pos: pos + 1 },
        }
    }
}

/// The parameters from `pos` on, behind the parameters `done`. There are at most 255.
pub open spec fn parameters(ts: Seq<TokenView>, pos: int, done: Seq<TokenView>) -> Parsed<
    Seq<TokenView>,
>
    decreases ts.len() - pos,
{
    if done.len() >= 255 {
        fail(ts, pos, "Can't have more than 255 parameters"@, pos)
    } else {
        match consume(ts, pos, TokenType::Identifier, "Expect parameter name."@).result {
            Err(e) => Parsed { result: Err(e), pos },
            Ok(name) => if check(ts, pos + 1, TokenType::Comma) {
                parameters(ts, pos + 2, done.push(name))
            } else {
                Parsed { result: Ok(done.push(name)), pos: pos + 1 }
            },
        }
    }
}

/// The declaration of a function, behind `fun`. `kind` says in the messages
/// what is being declared.
pub open spec fn function(ts: Seq<TokenView>, pos: int, depth: u32, kind: Seq<char>) -> Parsed<
    StmtView,
>
    decreases ts.len() - pos, 37nat,
{
    match consume(ts, pos, TokenType::Identifier, "Expect "@ + kind + " name."@).result {
        Err(e) => Parsed { result: Err(e), pos },
        Ok(name) => match consume(
            ts,
            pos + 1,
            TokenType::LeftParen,
            "Expect '(' after "@ + kind + " name."@,
        ).result {
            Err(e) => Parsed { result: Err(e), pos: pos + 1 },
            Ok(_) => {
                let list = if !check(ts, pos + 2, TokenType::RightParen) {
                    parameters(ts, pos + 2, Seq::empty())
                } else {
                    Parsed { result: Ok(Seq::<TokenView>::empty()), pos: pos + 2 }
                };
                let after_first = behind(ts, pos + 2, list.pos);
                match list.result {
                    Err(e) => Parsed { result: Err(e), pos: after_first },
                    Ok(params) => match consume(
                        ts,
                        after_first,
                        TokenType::RightParen,
                        "Expect ')' after parameters"@,
                    ).result {
                        Err(e) => Parsed { result: Err(e), pos: after_first },
                        Ok(_) => match consume(
                            ts,
                            after_first + 1,
                            TokenType::LeftBrace,
                            "Expect '{' before "@ + kind + " body."@,
                        ).result {
                            Err(e) => Parsed { result: Err(e), pos: after_first + 1 },
                            Ok(_) => {
                                let body = block(ts, after_first + 2, depth);
                                let end = behind(ts, after_first + 2, body.pos);
                                match body.result {
                                    Err(e) => Parsed { result: Err(e), pos: end },
                                    Ok(statements) => Parsed {
                                        result: Ok(
                                            StmtView::Function { name, params, body: statements },
                                        ),
                                        pos: end,
                                    },
                                }
                            },
                        },
                    },
                }
            },
        },
    }
}

/// A declaration: of a function, of a variable, or a statement. Behind an
/// error the parser goes on as [`synchronize`] says.
pub open spec fn declaration(ts: Seq<TokenView>, pos: int, depth: u32) -> Parsed<StmtView>
    decreases ts.len() - pos, 34nat,
{
    let read = if check(ts, pos, TokenType::Fun) {
        function(ts, pos + 1, depth, "function"@)
    } else if check(ts, pos, TokenType::Var) {
        var_declaration(ts, pos + 1)
    } else {
        statement(ts, pos, depth)
    };
    let next = behind(ts, pos, read.pos);
    match read.result {
        Ok(s) => Parsed { result: Ok(s), pos: next },
        Err(e) => Parsed { result: Err(e), pos: synchronize(ts, next) },
    }
}

/// The declarations from `pos` on to the closing `EOF`, each read or in
/// error, in their order.
pub open spec fn program(ts: Seq<TokenView>, pos: int, depth: u32) -> Seq<
    Result<StmtView, ParseErrorView>,
>
    decreases ts.len() - pos, 35nat,
{
    if at_end(ts, pos) {
        Seq::empty()
    } else {
        let next = declaration(ts, pos, depth);
        seq![next.result] + program(ts, beyond(ts, pos, next.pos), depth)
    }
}

/// A part that was read from `pos` on ends at or behind `pos`, inside the sequence.
pub open spec fn ends_inside<T>(ts: Seq<TokenView>, pos: int, p: Parsed<T>) -> bool {
    pos <= p.pos < ts.len()
}

/// A part that was read from `pos` on ends inside the sequence, and behind
/// `pos` where it was read without an error.
pub open spec fn advances<T>(ts: Seq<TokenView>, pos: int, p: Parsed<T>) -> bool {
    &&& pos <= p.pos < ts.len()
    &&& p.result is Ok ==> pos < p.pos
}

/// Every part of an expression ends inside the token sequence, at or behind
/// the place where it starts, and behind it where there is no error: the
/// positions that the functions of the grammar pass on are never changed by
/// [`behind`].
pub proof fn lemma_expression_advances(ts: Seq<TokenView>, pos: int)
    requires
        well_formed(ts),
        0 <= pos < ts.len(),
    ensures
        advances(ts, pos, expression(ts, pos)),
    decreases ts.len() - pos, 24nat,
{
    lemma_binary_level_advances(ts, pos, Level::Comma);
}

proof fn lemma_operand_advances(ts: Seq<TokenView>, pos: int, level: Level)
    requires
        well_formed(ts),
        0 <= pos < ts.len(),
    ensures
        advances(ts, pos, operand(ts, pos, level)),
    decreases ts.len() - pos, level_rank(level) - 1,
{
    match level {
        Level::Comma => lemma_assignment_advances(ts, pos),
        Level::Or => lemma_binary_level_advances(ts, pos, Level::And),
        Level::And => lemma_binary_level_advances(ts, pos, Level::Equality),
        Level::Equality => lemma_binary_level_advances(ts, pos, Level::Comparison),
        Level::Comparison => lemma_binary_level_advances(ts, pos, Level::Term),
        Level::Term => lemma_binary_level_advances(ts, pos, Level::Factor),
        Level::Factor => lemma_unary_advances(ts, pos),
    }
}

proof fn lemma_binary_level_advances(ts: Seq<TokenView>, pos: int, level: Level)
    requires
        well_formed(ts),
        0 <= pos < ts.len(),
    ensures
        advances(ts, pos, binary_level(ts, pos, level)),
    decreases ts.len() - pos, level_rank(level),
{
    lemma_operand_advances(ts, pos, level);
    let first = operand(ts, pos, level);
    match first.result {
        Ok(left) => lemma_binary_rest_advances(ts, first.pos, level, left),
        Err(_) => {},
    }
}

proof fn lemma_binary_rest_advances(ts: Seq<TokenView>, pos: int, level: Level, left: ExprView)
    requires
        well_formed(ts),
        0 <= pos < ts.len(),
    ensures
        ends_inside(ts, pos, binary_rest(ts, pos, level, left)),
    decreases ts.len() - pos, 0nat,
{
    if kind_at(ts, pos) != TokenType::EOF && level_has(level, kind_at(ts, pos)) {
        lemma_operand_advances(ts, pos + 1, level);
        let right = operand(ts, pos + 1, level);
        match right.result {
            Ok(r) => lemma_binary_rest_advances(
                ts,
                right.pos,
                level,
                combine(level, left, ts[pos], r),
            ),
            Err(_) => {},
        }
    }
}

proof fn lemma_assignment_advances(ts: Seq<TokenView>, pos: int)
    requires
        well_formed(ts),
        0 <= pos < ts.len(),
    ensures
        advances(ts, pos, assignment(ts, pos)),
    decreases ts.len() - pos, 20nat,
{
    lemma_ternary_advances(ts, pos);
    let target = ternary(ts, pos);
    if target.result is Ok && check(ts, target.pos, TokenType::Equal) {
        lemma_assignment_advances(ts, target.pos + 1);
    }
}

proof fn lemma_ternary_advances(ts: Seq<TokenView>, pos: int)
    requires
        well_formed(ts),
        0 <= pos < ts.len(),
    ensures
        advances(ts, pos, ternary(ts, pos)),
    decreases ts.len() - pos, 18nat,
{
    lemma_binary_level_advances(ts, pos, Level::Or);
    let condition = binary_level(ts, pos, Level::Or);
    if condition.result is Ok && check(ts, condition.pos, TokenType::Question) {
        lemma_expression_advances(ts, condition.pos + 1);
        let second = expression(ts, condition.pos + 1);
        if second.result is Ok && check(ts, second.pos, TokenType::Colon) {
            lemma_ternary_advances(ts, second.pos + 1);
        }
    }
}

proof fn lemma_unary_advances(ts: Seq<TokenView>, pos: int)
    requires
        well_formed(ts),
        0 <= pos < ts.len(),
    ensures
        advances(ts, pos, unary(ts, pos)),
    decreases ts.len() - pos, 4nat,
{
    if check(ts, pos, TokenType::Bang) || check(ts, pos, TokenType::Minus) {
        lemma_unary_advances(ts, pos + 1);
    } else {
        lemma_call_advances(ts, pos);
    }
}

proof fn lemma_call_advances(ts: Seq<TokenView>, pos: int)
    requires
        well_formed(ts),
        0 <= pos < ts.len(),
    ensures
        advances(ts, pos, call(ts, pos)),
    decreases ts.len() - pos, 2nat,
{
    lemma_primary_advances(ts, pos);
    let callee = primary(ts, pos);
    match callee.result {
        Ok(expr) => lemma_call_rest_advances(ts, callee.pos, expr),
        Err(_) => {},
    }
}

proof fn lemma_call_rest_advances(ts: Seq<TokenView>, pos: int, callee: ExprView)
    requires
        well_formed(ts),
        0 <= pos < ts.len(),
    ensures
        ends_inside(ts, pos, call_rest(ts, pos, callee)),
    decreases ts.len() - pos, 0nat,
{
    if check(ts, pos, TokenType::LeftParen) {
        lemma_finish_call_advances(ts, pos + 1, callee);
        let called = finish_call(ts, pos + 1, callee);
        match called.result {
            Ok(expr) => lemma_call_rest_advances(ts, called.pos, expr),
            Err(_) => {},
        }
    }
}

#[verifier::rlimit(100)]
#[verifier::spinoff_prover]
proof fn lemma_finish_call_advances(ts: Seq<TokenView>, pos: int, callee: ExprView)
    requires
        well_formed(ts),
        0 <= pos < ts.len(),
    ensures
        advances(ts, pos, finish_call(ts, pos, callee)),
    decreases ts.len() - pos, 27nat,
{
    if !check(ts, pos, TokenType::RightParen) {
        lemma_arguments_advances(ts, pos, Seq::empty());
        let args = arguments(ts, pos, Seq::empty());
        assert(behind(ts, pos, args.pos) == args.pos);
        match args.result {
            Ok(list) => {
                assert(check(ts, args.pos, TokenType::RightParen) ==> args.pos + 1 < ts.len());
            },
            Err(_) => {},
        }
    } else {
        assert(pos + 1 < ts.len());
    }
}

proof fn lemma_arguments_advances(ts: Seq<TokenView>, pos: int, done: Seq<ExprView>)
    requires
        well_formed(ts),
        0 <= pos < ts.len(),
    ensures
        advances(ts, pos, arguments(ts, pos, done)),
    decreases ts.len() - pos, 26nat,
{
    if done.len() < 255 {
        lemma_assignment_advances(ts, pos);
        let arg = assignment(ts, pos);
        match arg.result {
            Ok(a) => {
                if check(ts, arg.pos, TokenType::Comma) {
                    lemma_arguments_advances(ts, arg.pos + 1, done.push(a));
                }
            },
            Err(_) => {},
        }
    }
}

proof fn lemma_missing_operand_advances(ts: Seq<TokenView>, pos: int, level: Level)
    requires
        well_formed(ts),
        0 <= pos < ts.len(),
        kind_at(ts, pos) != TokenType::EOF,
    ensures
        ends_inside(ts, pos, missing_operand(ts, pos, level)),
    decreases ts.len() - pos, 0nat,
{
    lemma_binary_level_advances(ts, pos + 1, level);
}

proof fn lemma_primary_advances(ts: Seq<TokenView>, pos: int)
    requires
        well_formed(ts),
        0 <= pos < ts.len(),
    ensures
        advances(ts, pos, primary(ts, pos)),
    decreases ts.len() - pos, 1nat,
{
    let t = kind_at(ts, pos);
    if t == TokenType::LeftParen {
        lemma_expression_advances(ts, pos + 1);
    } else if t == TokenType::Equal || level_has(Level::Equality, t) {
        lemma_missing_operand_advances(ts, pos, Level::Equality);
    } else if level_has(Level::Comparison, t) {
        lemma_missing_operand_advances(ts, pos, Level::Comparison);
    } else if t == TokenType::Plus {
        lemma_missing_operand_advances(ts, pos, Level::Term);
    } else if t == TokenType::Star || t == TokenType::Slash {
        lemma_missing_operand_advances(ts, pos, Level::Factor);
    }
}

proof fn lemma_synchronize_rest(ts: Seq<TokenView>, pos: int)
    requires
        well_formed(ts),
        0 <= pos < ts.len(),
    ensures
        pos <= synchronize_rest(ts, pos) < ts.len(),
    decreases ts.len() - pos,
{
    if !at_end(ts, pos) && kind_at(ts, pos - 1) != TokenType::Semicolon && !starts_statement(
        kind_at(ts, pos),
    ) {
        lemma_synchronize_rest(ts, pos + 1);
    }
}

proof fn lemma_expression_statement_advances(
    ts: Seq<TokenView>,
    pos: int,
    print: bool,
    msg: Seq<char>,
)
    requires
        well_formed(ts),
        0 <= pos < ts.len(),
    ensures
        advances(ts, pos, expression_statement(ts, pos, print, msg)),
    decreases ts.len() - pos, 30nat,
{
    lemma_expression_advances(ts, pos);
}

proof fn lemma_var_declaration_advances(ts: Seq<TokenView>, pos: int)
    requires
        well_formed(ts),
        0 <= pos < ts.len(),
    ensures
        advances(ts, pos, var_declaration(ts, pos)),
    decreases ts.len() - pos, 30nat,
{
    if check(ts, pos, TokenType::Identifier) && check(ts, pos + 1, TokenType::Equal) {
        lemma_expression_advances(ts, pos + 2);
    }
}

proof fn lemma_return_statement_advances(ts: Seq<TokenView>, pos: int)
    requires
        well_formed(ts),
        0 <= pos < ts.len(),
    ensures
        advances(ts, pos, return_statement(ts, pos)),
    decreases ts.len() - pos, 30nat,
{
    if !check(ts, pos, TokenType::Semicolon) {
        lemma_expression_advances(ts, pos);
    }
}

proof fn lemma_condition_advances(ts: Seq<TokenView>, pos: int, open: Seq<char>, close: Seq<char>)
    requires
        well_formed(ts),
        0 <= pos < ts.len(),
    ensures
        advances(ts, pos, condition(ts, pos, open, close)),
    decreases ts.len() - pos, 30nat,
{
    if check(ts, pos, TokenType::LeftParen) {
        lemma_expression_advances(ts, pos + 1);
    }
}

proof fn lemma_if_statement_advances(ts: Seq<TokenView>, pos: int, depth: u32)
    requires
        well_formed(ts),
        0 <= pos < ts.len(),
    ensures
        advances(ts, pos, if_statement(ts, pos, depth)),
    decreases ts.len() - pos, 31nat,
{
    let open = "Expect '(' after 'if'."@;
    let close = "Expect ')' after if condition."@;
    lemma_condition_advances(ts, pos, open, close);
    let test = condition(ts, pos, open, close);
    if test.result is Ok {
        lemma_statement_advances(ts, test.pos, depth);
        let then_branch = statement(ts, test.pos, depth);
        if then_branch.result is Ok && check(ts, then_branch.pos, TokenType::Else) {
            lemma_statement_advances(ts, then_branch.pos + 1, depth);
        }
    }
}

proof fn lemma_while_statement_advances(ts: Seq<TokenView>, pos: int, depth: u32)
    requires
        well_formed(ts),
        0 <= pos < ts.len(),
    ensures
        advances(ts, pos, while_statement(ts, pos, depth)),
    decreases ts.len() - pos, 31nat,
{
    let open = "Expect '(' after 'while'."@;
    let close = "Expect ')' after while condition."@;
    lemma_condition_advances(ts, pos, open, close);
    let test = condition(ts, pos, open, close);
    if test.result is Ok {
        lemma_statement_advances(ts, test.pos, enter_loop(depth));
    }
}

proof fn lemma_for_initializer_advances(ts: Seq<TokenView>, pos: int)
    requires
        well_formed(ts),
        0 <= pos < ts.len(),
    ensures
        advances(ts, pos, for_initializer(ts, pos)),
    decreases ts.len() - pos, 31nat,
{
    if !check(ts, pos, TokenType::Semicolon) {
        if check(ts, pos, TokenType::Var) {
            lemma_var_declaration_advances(ts, pos + 1);
        } else {
            lemma_expression_statement_advances(ts, pos, false, "Expect ';' after expression."@);
        }
    }
}

proof fn lemma_for_clause_advances(ts: Seq<TokenView>, pos: int, close: TokenType, msg: Seq<char>)
    requires
        well_formed(ts),
        0 <= pos < ts.len(),
    ensures
        advances(ts, pos, for_clause(ts, pos, close, msg)),
    decreases ts.len() - pos, 31nat,
{
    if !check(ts, pos, close) {
        lemma_expression_advances(ts, pos);
    }
}

#[verifier::rlimit(100)]
#[verifier::spinoff_prover]
proof fn lemma_for_statement_advances(ts: Seq<TokenView>, pos: int, depth: u32)
    requires
        well_formed(ts),
        0 <= pos < ts.len(),
    ensures
        advances(ts, pos, for_statement(ts, pos, depth)),
    decreases ts.len() - pos, 32nat,
{
    if check(ts, pos, TokenType::LeftParen) {
        lemma_for_initializer_advances(ts, pos + 1);
        let first = for_initializer(ts, pos + 1);
        if first.result is Ok {
            let semicolon = "Expect ';' after loop condition"@;
            lemma_for_clause_advances(ts, first.pos, TokenType::Semicolon, semicolon);
            let second = for_clause(ts, first.pos, TokenType::Semicolon, semicolon);
            if second.result is Ok {
                let paren = "Expect ')' after for clauses."@;
                lemma_for_clause_advances(ts, second.pos, TokenType::RightParen, paren);
                let third = for_clause(ts, second.pos, TokenType::RightParen, paren);
                if third.result is Ok {
                    lemma_statement_advances(ts, third.pos, enter_loop(depth));
                }
            }
        }
    }
}

proof fn lemma_statement_advances(ts: Seq<TokenView>, pos: int, depth: u32)
    requires
        well_formed(ts),
        0 <= pos < ts.len(),
    ensures
        advances(ts, pos, statement(ts, pos, depth)),
    decreases ts.len() - pos, 33nat,
{
    let t = kind_at(ts, pos);
    if t == TokenType::For {
        lemma_for_statement_advances(ts, pos + 1, depth);
    } else if t == TokenType::If {
        lemma_if_statement_advances(ts, pos + 1, depth);
    } else if t == TokenType::Print {
        lemma_expression_statement_advances(ts, pos + 1, true, "Expect ';' after value."@);
    } else if t == TokenType::Return {
        lemma_return_statement_advances(ts, pos + 1);
    } else if t == TokenType::While {
        lemma_while_statement_advances(ts, pos + 1, depth);
    } else if t == TokenType::Break {
    } else if t == TokenType::LeftBrace {
        lemma_block_rest_advances(ts, pos + 1, depth, Seq::empty());
    } else {
        lemma_expression_statement_advances(ts, pos, false, "Expect ';' after expression."@);
    }
}

proof fn lemma_block_rest_advances(
    ts: Seq<TokenView>,
    pos: int,
    depth: u32,
    done: Seq<StmtView>,
)
    requires
        well_formed(ts),
        0 <= pos < ts.len(),
    ensures
        advances(ts, pos, block_rest(ts, pos, depth, done)),
    decreases ts.len() - pos, 35nat,
{
    if !check(ts, pos, TokenType::RightBrace) && !at_end(ts, pos) {
        lemma_declaration_advances(ts, pos, depth);
        let next = declaration(ts, pos, depth);
        match next.result {
            Ok(s) => lemma_block_rest_advances(ts, next.pos, depth, done.push(s)),
            Err(_) => {},
        }
    }
}

proof fn lemma_parameters_advances(ts: Seq<TokenView>, pos: int, done: Seq<TokenView>)
    requires
        well_formed(ts),
        0 <= pos < ts.len(),
    ensures
        advances(ts, pos, parameters(ts, pos, done)),
    decreases ts.len() - pos,
{
    if done.len() < 255 && check(ts, pos, TokenType::Identifier) && check(
        ts,
        pos + 1,
        TokenType::Comma,
    ) {
        lemma_parameters_advances(ts, pos + 2, done.push(ts[pos]));
    }
}

#[verifier::rlimit(100)]
#[verifier::spinoff_prover]
proof fn lemma_function_advances(ts: Seq<TokenView>, pos: int, depth: u32, kind: Seq<char>)
    requires
        well_formed(ts),
        0 <= pos < ts.len(),
    ensures
        advances(ts, pos, function(ts, pos, depth, kind)),
    decreases ts.len() - pos, 37nat,
{
    if check(ts, pos, TokenType::Identifier) && check(ts, pos + 1, TokenType::LeftParen) {
        let list = if !check(ts, pos + 2, TokenType::RightParen) {
            lemma_parameters_advances(ts, pos + 2, Seq::empty());
            parameters(ts, pos + 2, Seq::empty())
        } else {
            Parsed { result: Ok(Seq::<TokenView>::empty()), pos: pos + 2 }
        };
        if list.result is Ok && check(ts, list.pos, TokenType::RightParen) && check(
            ts,
            list.pos + 1,
            TokenType::LeftBrace,
        ) {
            lemma_block_rest_advances(ts, list.pos + 2, depth, Seq::empty());
        }
    }
}

/// Every declaration ends inside the token sequence and behind the place
/// where it starts, with or without an error: the parser always gets on.
pub proof fn lemma_declaration_advances(ts: Seq<TokenView>, pos: int, depth: u32)
    requires
        well_formed(ts),
        0 <= pos < ts.len(),
        !at_end(ts, pos),
    ensures
        pos < declaration(ts, pos, depth).pos < ts.len(),
    decreases ts.len() - pos, 34nat,
{
    let read = if check(ts, pos, TokenType::Fun) {
        lemma_function_advances(ts, pos + 1, depth, "function"@);
        function(ts, pos + 1, depth, "function"@)
    } else if check(ts, pos, TokenType::Var) {
        lemma_var_declaration_advances(ts, pos + 1);
        var_declaration(ts, pos + 1)
    } else {
        lemma_statement_advances(ts, pos, depth);
        statement(ts, pos, depth)
    };
    if read.result is Err {
        if at_end(ts, read.pos) {
            lemma_synchronize_rest(ts, read.pos);
        } else {
            lemma_synchronize_rest(ts, read.pos + 1);
        }
    }
}

} // verus!
