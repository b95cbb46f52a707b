//! The parser: from tokens to syntax trees, by recursive descent.
//!
//! Every function here reads what the function of the same name in
//! [`crate::grammar`] describes, and says so in its contract.

use vstd::prelude::*;
use vstd::string::StringExecFns;
use crate::ast::{Expr, ExprView, Stmt, StmtView, exprs_model, stmts_model};
use crate::grammar;
use crate::grammar::{Level, ParseErrorView, Parsed};
use crate::token::{LiteralType, Token, TokenType, TokenView, tokens_model};

verus! {

/// A parse error: the token at which it was found, and what is wrong.
#[derive(Debug)]
pub struct ParseError {
    pub token: Token,
    pub msg: String,
}

impl View for ParseError {
    type V = ParseErrorView;

    open spec fn view(&self) -> ParseErrorView {
        ParseErrorView { token: self.token@, msg: self.msg@ }
    }
}

/// Whether the outcome `r` of the parser is the outcome `s` of the grammar.
pub open spec fn is_expr(r: Result<Expr, ParseError>, s: Result<ExprView, ParseErrorView>) -> bool {
    match (r, s) {
        (Ok(e), Ok(v)) => e@ == v,
        (Err(e), Err(v)) => e@ == v,
        _ => false,
    }
}

/// Whether the outcome `r` of the parser is the outcome `s` of the grammar.
pub open spec fn is_stmt(r: Result<Stmt, ParseError>, s: Result<StmtView, ParseErrorView>) -> bool {
    match (r, s) {
        (Ok(e), Ok(v)) => e@ == v,
        (Err(e), Err(v)) => e@ == v,
        _ => false,
    }
}

/// Whether the outcome `r` of the parser is the outcome `s` of the grammar.
pub open spec fn is_exprs(r: Result<Vec<Expr>, ParseError>, s: Result<Seq<ExprView>, ParseErrorView>)
    -> bool {
    match (r, s) {
        (Ok(e), Ok(v)) => exprs_model(e@) == v,
        (Err(e), Err(v)) => e@ == v,
        _ => false,
    }
}

/// Whether the outcome `r` of the parser is the outcome `s` of the grammar.
pub open spec fn is_stmts(r: Result<Vec<Stmt>, ParseError>, s: Result<Seq<StmtView>, ParseErrorView>)
    -> bool {
    match (r, s) {
        (Ok(e), Ok(v)) => stmts_model(e@) == v,
        (Err(e), Err(v)) => e@ == v,
        _ => false,
    }
}

/// Whether the outcome `r` of the parser is the outcome `s` of the grammar.
pub open spec fn is_tokens(r: Result<Vec<Token>, ParseError>, s: Result<Seq<TokenView>, ParseErrorView>)
    -> bool {
    match (r, s) {
        (Ok(e), Ok(v)) => tokens_model(e@) == v,
        (Err(e), Err(v)) => e@ == v,
        _ => false,
    }
}

/// Whether the outcome `r` of the parser is the outcome `s` of the grammar.
pub open spec fn is_token(r: Result<Token, ParseError>, s: Result<TokenView, ParseErrorView>) -> bool {
    match (r, s) {
        (Ok(e), Ok(v)) => e@ == v,
        (Err(e), Err(v)) => e@ == v,
        _ => false,
    }
}

/// Whether `t` is an operator of the level `level`.
fn level_has(level: Level, t: TokenType) -> (r: bool)
    ensures
        r == grammar::level_has(level, t),
{
    match level {
        Level::Comma => t == TokenType::Comma,
        Level::Or => t == TokenType::OR,
        Level::And => t == TokenType::And,
        Level::Equality => t == TokenType::BangEqual || t == TokenType::EqualEqual,
        Level::Comparison => t == TokenType::Greater || t == TokenType::GreaterEqual || t
            == TokenType::Less || t == TokenType::LessEqual,
        Level::Term => t == TokenType::Minus || t == TokenType::Plus,
        Level::Factor => t == TokenType::Slash || t == TokenType::Star,
    }
}

/// A parser over one token sequence.
pub struct Parser<'a> {
    tokens: &'a Vec<Token>,
    current: usize,
    loop_depth: u32,
}

impl<'a> Parser<'a> {
    /// The tokens that are read.
    pub closed spec fn tokens(&self) -> Seq<TokenView> {
        tokens_model(self.tokens@)
    }

    /// The position of the next token.
    pub closed spec fn position(&self) -> int {
        self.current as int
    }

    /// The number of loops around the position.
    pub closed spec fn depth(&self) -> u32 {
        self.loop_depth
    }

    /// The tokens can be read, and the position lies among them.
    pub closed spec fn wf(&self) -> bool {
        &&& grammar::well_formed(self.tokens())
        &&& self.current < self.tokens@.len()
    }

    /// The same parser at another place.
    pub closed spec fn moved(&self, other: &Self) -> bool {
        &&& self.tokens == other.tokens
        &&& self.loop_depth == other.loop_depth
        &&& other.current <= self.current
    }

    /// Whether a parser can read `tokens`: they end in `EOF`, and each number
    /// and string among them holds its literal.
    pub fn accepts(tokens: &Vec<Token>) -> (r: bool)
        ensures
            r == grammar::well_formed(tokens_model(tokens@)),
    {
        if tokens.len() == 0 {
            return false;
        }
        if tokens[tokens.len() - 1].t_type != TokenType::EOF {
            return false;
        }
        let mut i: usize = 0;
        while i < tokens.len()
            invariant
                i <= tokens@.len(),
                forall|j: int|
                    0 <= j < i && ((#[trigger] tokens_model(tokens@)[j]).t_type == TokenType::Number
                        || tokens_model(tokens@)[j].t_type == TokenType::String) ==> tokens_model(
                        tokens@,
                    )[j].literal is Some,
            decreases tokens.len() - i,
        {
            let t = tokens[i].t_type;
            if (t == TokenType::Number || t == TokenType::String) && tokens[i].literal.is_none() {
                assert(tokens_model(tokens@)[i as int].literal is None);
                return false;
            }
            i += 1;
        }
        true
    }

    /// A parser at the start of `tokens`, outside every loop.
    pub fn new(tokens: &'a Vec<Token>) -> (r: Parser<'a>)
        requires
            grammar::well_formed(tokens_model(tokens@)),
        ensures
            r.wf(),
            r.tokens() == tokens_model(tokens@),
            r.position() == 0,
            r.depth() == 0,
    {
        Parser { tokens, current: 0, loop_depth: 0 }
    }

    fn peek(&self) -> (t: &Token)
        requires
            self.wf(),
        ensures
            t@ == self.tokens()[self.position()],
            t.t_type == grammar::kind_at(self.tokens(), self.position()),
    {
        &self.tokens[self.current]
    }

    fn previous(&self) -> (t: &Token)
        requires
            self.wf(),
            self.current > 0,
        ensures
            t@ == self.tokens()[self.position() - 1],
            t.t_type == grammar::kind_at(self.tokens(), self.position() - 1),
    {
        &self.tokens[self.current - 1]
    }

    fn is_at_end(&self) -> (r: bool)
        requires
            self.wf(),
        ensures
            r == grammar::at_end(self.tokens(), self.position()),
            !r ==> self.current + 1 < self.tokens@.len(),
    {
        self.peek().t_type == TokenType::EOF
    }

    fn check(&self, t_type: TokenType) -> (r: bool)
        requires
            self.wf(),
        ensures
            r == grammar::check(self.tokens(), self.position(), t_type),
            r ==> self.current + 1 < self.tokens@.len(),
    {
        if self.is_at_end() {
            return false;
        }
        self.peek().t_type == t_type
    }

    /// Goes one token further, unless the parser stands at the end.
    fn advance(&mut self)
        requires
            old(self).wf(),
        ensures
            final(self).wf(),
            final(self).moved(old(self)),
            final(self).current == if grammar::at_end(old(self).tokens(), old(self).position()) {
                old(self).current as int
            } else {
                old(self).current + 1
            },
    {
        if !self.is_at_end() && self.current < self.tokens.len() - 1 {
            self.current += 1;
        }
    }

    /// Reads the next token if it is of the kind `t_type`.
    fn match_token(&mut self, t_type: TokenType) -> (r: bool)
        requires
            old(self).wf(),
        ensures
            final(self).wf(),
            final(self).moved(old(self)),
            r == grammar::check(old(self).tokens(), old(self).position(), t_type),
            final(self).current == old(self).current + if r {
                1int
            } else {
                0int
            },
    {
        if self.check(t_type) {
            self.advance();
            true
        } else {
            false
        }
    }

    /// Reads the next token if it is of the kind `first` or of the kind `second`.
    fn match_either(&mut self, first: TokenType, second: TokenType) -> (r: bool)
        requires
            old(self).wf(),
        ensures
            final(self).wf(),
            final(self).moved(old(self)),
            r == (grammar::check(old(self).tokens(), old(self).position(), first)
                || grammar::check(old(self).tokens(), old(self).position(), second)),
            final(self).current == old(self).current + if r {
                1int
            } else {
                0int
            },
    {
        if self.check(first) || self.check(second) {
            self.advance();
            true
        } else {
            false
        }
    }

    /// The error `msg` at the token with index `at`.
    fn error_at(&self, at: usize, msg: &str) -> (e: ParseError)
        requires
            at < self.tokens@.len(),
        ensures
            e@ == (ParseErrorView { token: self.tokens()[at as int], msg: msg@ }),
    {
        ParseError { token: self.tokens[at].clone(), msg: msg.to_owned() }
    }

    fn consume(&mut self, t_type: TokenType, err_msg: &str) -> (r: Result<Token, ParseError>)
        requires
            old(self).wf(),
        ensures
            final(self).wf(),
            final(self).moved(old(self)),
            final(self).current == grammar::consume(
                old(self).tokens(),
                old(self).position(),
                t_type,
                err_msg@,
            ).pos,
            is_token(
                r,
                grammar::consume(old(self).tokens(), old(self).position(), t_type, err_msg@).result,
            ),
    {
        if self.check(t_type) {
            self.advance();
            return Ok(self.previous().clone());
        }
        Err(self.error_at(self.current, err_msg))
    }

    /// Goes on to where parsing can be taken up again behind an error.
    fn synchronize(&mut self)
        requires
            old(self).wf(),
            old(self).current > 0 || !grammar::at_end(old(self).tokens(), old(self).position()),
        ensures
            final(self).wf(),
            final(self).moved(old(self)),
            final(self).current == grammar::synchronize(old(self).tokens(), old(self).position()),
            final(self).current > old(self).current || grammar::at_end(
                old(self).tokens(),
                old(self).position(),
            ),
    {
        self.advance();
        loop
            invariant
                self.wf(),
                self.moved(old(self)),
                self.current > 0,
                self.current > old(self).current || grammar::at_end(
                    old(self).tokens(),
                    old(self).position(),
                ),
                grammar::synchronize(old(self).tokens(), old(self).position())
                    == grammar::synchronize_rest(self.tokens(), self.position()),
            decreases self.tokens@.len() - self.current,
        {
            if self.is_at_end() {
                return ;
            }
            if self.previous().t_type == TokenType::Semicolon {
                return ;
            }
            let t = self.peek().t_type;
            if t == TokenType::Class || t == TokenType::Fun || t == TokenType::Var || t
                == TokenType::For || t == TokenType::If || t == TokenType::While || t
                == TokenType::Print || t == TokenType::Return {
                return ;
            }
            self.advance();
        }
    }
    /// The parser has read, from where `before` stood, what the grammar reads
    /// there with the outcome `p`; a part that was read holds a token.
    pub open spec fn has_read_expr(
        &self,
        before: &Self,
        r: Result<Expr, ParseError>,
        p: Parsed<ExprView>,
    ) -> bool {
        &&& self.wf()
        &&& self.moved(before)
        &&& self.position() == p.pos
        &&& is_expr(r, p.result)
        &&& r is Ok ==> self.position() > before.position()
    }

    /// The place of a level in the order in which the functions call each other.
    pub open spec fn order(level: Level) -> nat {
        match level {
            Level::Factor => 6,
            Level::Term => 9,
            Level::Comparison => 12,
            Level::Equality => 15,
            Level::And => 18,
            Level::Or => 21,
            Level::Comma => 30,
        }
    }

    /// Reads the next token if it is an operator of the level `level`.
    fn match_level(&mut self, level: Level) -> (r: bool)
        requires
            old(self).wf(),
        ensures
            final(self).wf(),
            final(self).moved(old(self)),
            r == (grammar::kind_at(old(self).tokens(), old(self).position()) != TokenType::EOF
                && grammar::level_has(
                level,
                grammar::kind_at(old(self).tokens(), old(self).position()),
            )),
            final(self).current == old(self).current + if r {
                1int
            } else {
                0int
            },
    {
        if !self.is_at_end() && level_has(level, self.peek().t_type) {
            self.advance();
            true
        } else {
            false
        }
    }

    fn expression(&mut self) -> (r: Result<Expr, ParseError>)
        requires
            old(self).wf(),
        ensures
            final(self).has_read_expr(
                old(self),
                r,
                grammar::expression(old(self).tokens(), old(self).position()),
            ),
        decreases old(self).tokens@.len() - old(self).current, 33nat,
    {
        self.comma()
    }

    fn comma(&mut self) -> (r: Result<Expr, ParseError>)
        requires
            old(self).wf(),
        ensures
            final(self).has_read_expr(
                old(self),
                r,
                grammar::binary_level(old(self).tokens(), old(self).position(), Level::Comma),
            ),
        decreases old(self).tokens@.len() - old(self).current, 32nat,
    {
        self.left_association_binary(Level::Comma)
    }

    fn or(&mut self) -> (r: Result<Expr, ParseError>)
        requires
            old(self).wf(),
        ensures
            final(self).has_read_expr(
                old(self),
                r,
                grammar::binary_level(old(self).tokens(), old(self).position(), Level::Or),
            ),
        decreases old(self).tokens@.len() - old(self).current, 23nat,
    {
        self.left_association_binary(Level::Or)
    }

    fn and(&mut self) -> (r: Result<Expr, ParseError>)
        requires
            old(self).wf(),
        ensures
            final(self).has_read_expr(
                old(self),
                r,
                grammar::binary_level(old(self).tokens(), old(self).position(), Level::And),
            ),
        decreases old(self).tokens@.len() - old(self).current, 20nat,
    {
        self.left_association_binary(Level::And)
    }

    fn equality(&mut self) -> (r: Result<Expr, ParseError>)
        requires
            old(self).wf(),
        ensures
            final(self).has_read_expr(
                old(self),
                r,
                grammar::binary_level(old(self).tokens(), old(self).position(), Level::Equality),
            ),
        decreases old(self).tokens@.len() - old(self).current, 17nat,
    {
        self.left_association_binary(Level::Equality)
    }

    fn comparison(&mut self) -> (r: Result<Expr, ParseError>)
        requires
            old(self).wf(),
        ensures
            final(self).has_read_expr(
                old(self),
                r,
                grammar::binary_level(old(self).tokens(), old(self).position(), Level::Comparison),
            ),
        decreases old(self).tokens@.len() - old(self).current, 14nat,
    {
        self.left_association_binary(Level::Comparison)
    }

    fn term(&mut self) -> (r: Result<Expr, ParseError>)
        requires
            old(self).wf(),
        ensures
            final(self).has_read_expr(
                old(self),
                r,
                grammar::binary_level(old(self).tokens(), old(self).position(), Level::Term),
            ),
        decreases old(self).tokens@.len() - old(self).current, 11nat,
    {
        self.left_association_binary(Level::Term)
    }

    fn factor(&mut self) -> (r: Result<Expr, ParseError>)
        requires
            old(self).wf(),
        ensures
            final(self).has_read_expr(
                old(self),
                r,
                grammar::binary_level(old(self).tokens(), old(self).position(), Level::Factor),
            ),
        decreases old(self).tokens@.len() - old(self).current, 8nat,
    {
        self.left_association_binary(Level::Factor)
    }

    /// One operand of the level `level`.
    fn operand(&mut self, level: Level) -> (r: Result<Expr, ParseError>)
        requires
            old(self).wf(),
        ensures
            final(self).has_read_expr(
                old(self),
                r,
                grammar::operand(old(self).tokens(), old(self).position(), level),
            ),
        decreases old(self).tokens@.len() - old(self).current, Self::order(level),
    {
        match level {
            Level::Comma => self.assignment(),
            Level::Or => self.and(),
            Level::And => self.equality(),
            Level::Equality => self.comparison(),
            Level::Comparison => self.term(),
            Level::Term => self.factor(),
            Level::Factor => self.unary(),
        }
    }

    /// A chain of operands of the level `level`, grouped from the left.
    fn left_association_binary(&mut self, level: Level) -> (r: Result<Expr, ParseError>)
        requires
            old(self).wf(),
        ensures
            final(self).has_read_expr(
                old(self),
                r,
                grammar::binary_level(old(self).tokens(), old(self).position(), level),
            ),
        decreases old(self).tokens@.len() - old(self).current, Self::order(level) + 1,
    {
        let ghost ts = self.tokens();
        let ghost start = self.position();
        let mut expr = match self.operand(level) {
            Ok(e) => e,
            Err(e) => {
                return Err(e);
            },
        };
        loop
            invariant
                self.wf(),
                self.moved(old(self)),
                ts == self.tokens(),
                start == old(self).position(),
                start < self.position(),
                grammar::binary_level(ts, start, level) == grammar::binary_rest(
                    ts,
                    self.position(),
                    level,
                    expr@,
                ),
            decreases self.tokens@.len() - self.current,
        {
            if !self.match_level(level) {
                return Ok(expr);
            }
            let op = self.previous().clone();
            let right = match self.operand(level) {
                Ok(e) => e,
                Err(e) => {
                    return Err(e);
                },
            };
            expr = if level == Level::Or || level == Level::And {
                Expr::Logical { left: Box::new(expr), op, right: Box::new(right) }
            } else {
                Expr::Binary { left: Box::new(expr), op, right: Box::new(right) }
            };
        }
    }

    fn assignment(&mut self) -> (r: Result<Expr, ParseError>)
        requires
            old(self).wf(),
        ensures
            final(self).has_read_expr(
                old(self),
                r,
                grammar::assignment(old(self).tokens(), old(self).position()),
            ),
        decreases old(self).tokens@.len() - old(self).current, 29nat,
    {
        let expr = match self.ternary() {
            Ok(e) => e,
            Err(e) => {
                return Err(e);
            },
        };
        if self.match_token(TokenType::Equal) {
            let value = match self.assignment() {
                Ok(e) => e,
                Err(e) => {
                    return Err(e);
                },
            };
            if let Expr::Variable { name } = expr {
                return Ok(Expr::Assign { name, value: Box::new(value) });
            }
            return Err(self.error_at(self.current - 1, "Invalid assignment target."));
        }
        Ok(expr)
    }

    fn ternary(&mut self) -> (r: Result<Expr, ParseError>)
        requires
            old(self).wf(),
        ensures
            final(self).has_read_expr(
                old(self),
                r,
                grammar::ternary(old(self).tokens(), old(self).position()),
            ),
        decreases old(self).tokens@.len() - old(self).current, 26nat,
    {
        let expr = match self.or() {
            Ok(e) => e,
            Err(e) => {
                return Err(e);
            },
        };
        if self.match_token(TokenType::Question) {
            let second = match self.expression() {
                Ok(e) => e,
                Err(e) => {
                    return Err(e);
                },
            };
            match self.consume(TokenType::Colon, "Expected : after ternary operator ?") {
                Ok(_) => {},
                Err(e) => {
                    return Err(e);
                },
            }
            let third = match self.ternary() {
                Ok(e) => e,
                Err(e) => {
                    return Err(e);
                },
            };
            return Ok(
                Expr::Ternary {
                    first: Box::new(expr),
                    second: Box::new(second),
                    third: Box::new(third),
                },
            );
        }
        Ok(expr)
    }

    fn unary(&mut self) -> (r: Result<Expr, ParseError>)
        requires
            old(self).wf(),
        ensures
            final(self).has_read_expr(
                old(self),
                r,
                grammar::unary(old(self).tokens(), old(self).position()),
            ),
        decreases old(self).tokens@.len() - old(self).current, 5nat,
    {
        if self.match_either(TokenType::Bang, TokenType::Minus) {
            let op = self.previous().clone();
            let right = match self.unary() {
                Ok(e) => e,
                Err(e) => {
                    return Err(e);
                },
            };
            return Ok(Expr::Unary { op, right: Box::new(right) });
        }
        self.call()
    }

    fn call(&mut self) -> (r: Result<Expr, ParseError>)
        requires
            old(self).wf(),
        ensures
            final(self).has_read_expr(
                old(self),
                r,
                grammar::call(old(self).tokens(), old(self).position()),
            ),
        decreases old(self).tokens@.len() - old(self).current, 4nat,
    {
        let ghost ts = self.tokens();
        let mut expr = match self.primary() {
            Ok(e) => e,
            Err(e) => {
                return Err(e);
            },
        };
        loop
            invariant
                self.wf(),
                self.moved(old(self)),
                ts == self.tokens(),
                old(self).position() < self.position(),
                grammar::call(ts, old(self).position()) == grammar::call_rest(
                    ts,
                    self.position(),
                    expr@,
                ),
            decreases self.tokens@.len() - self.current,
        {
            if self.match_token(TokenType::LeftParen) {
                expr = match self.finish_call(expr) {
                    Ok(e) => e,
                    Err(e) => {
                        return Err(e);
                    },
                };
            } else {
                return Ok(expr);
            }
        }
    }

    /// The arguments of a call from the position on, behind the arguments `done`.
    fn arguments(&mut self, done: Vec<Expr>) -> (r: Result<Vec<Expr>, ParseError>)
        requires
            old(self).wf(),
        ensures
            final(self).wf(),
            final(self).moved(old(self)),
            final(self).position() == grammar::arguments(
                old(self).tokens(),
                old(self).position(),
                exprs_model(done@),
            ).pos,
            is_exprs(
                r,
                grammar::arguments(old(self).tokens(), old(self).position(), exprs_model(done@)).result,
            ),
        decreases old(self).tokens@.len() - old(self).current, 39nat,
    {
        let mut args = done;
        if args.len() >= 255 {
            return Err(self.error_at(self.current, "Can't have more than 255 arguments"));
        }
        let arg = match self.assignment() {
            Ok(e) => e,
            Err(e) => {
                return Err(e);
            },
        };
        let ghost before = exprs_model(args@);
        args.push(arg);
        assert(exprs_model(args@) =~= before.push(arg@));
        if self.match_token(TokenType::Comma) {
            self.arguments(args)
        } else {
            Ok(args)
        }
    }

    /// The call of `callee`, behind the opening parenthesis of its arguments.
    fn finish_call(&mut self, callee: Expr) -> (r: Result<Expr, ParseError>)
        requires
            old(self).wf(),
        ensures
            final(self).has_read_expr(
                old(self),
                r,
                grammar::finish_call(old(self).tokens(), old(self).position(), callee@),
            ),
        decreases old(self).tokens@.len() - old(self).current, 40nat,
    {
        let args = if self.check(TokenType::RightParen) {
            let none: Vec<Expr> = Vec::new();
            assert(exprs_model(none@) =~= Seq::<ExprView>::empty());
            none
        } else {
            let none: Vec<Expr> = Vec::new();
            assert(exprs_model(none@) =~= Seq::<ExprView>::empty());
            match self.arguments(none) {
                Ok(list) => list,
                Err(e) => {
                    return Err(e);
                },
            }
        };
        let paren = match self.consume(TokenType::RightParen, "Expect ')' after arguments") {
            Ok(t) => t,
            Err(e) => {
                return Err(e);
            },
        };
        let ghost list = exprs_model(args@);
        let r = Expr::Call { callee: Box::new(callee), paren, args };
        assert(r.model()->args =~= list);
        Ok(r)
    }

    /// The error for an operator of the level `level` that stands where an
    /// operand is due, behind that operator.
    fn missing_operand(&mut self, level: Level) -> (r: Result<Expr, ParseError>)
        requires
            old(self).wf(),
            old(self).current > 0,
            level == Level::Equality || level == Level::Comparison || level == Level::Term || level
                == Level::Factor,
        ensures
            final(self).wf(),
            final(self).moved(old(self)),
            r is Err,
            final(self).position() == grammar::missing_operand(
                old(self).tokens(),
                old(self).position() - 1,
                level,
            ).pos,
            is_expr(
                r,
                grammar::missing_operand(old(self).tokens(), old(self).position() - 1, level).result,
            ),
        decreases old(self).tokens@.len() - old(self).current, 34nat,
    {
        let _ = match level {
            Level::Equality => self.equality(),
            Level::Comparison => self.comparison(),
            Level::Term => self.term(),
            _ => self.factor(),
        };
        Err(self.error_at(self.current - 1, "Missing left-hand operand."))
    }

    /// An expression in parentheses, behind the opening parenthesis.
    fn grouping(&mut self) -> (r: Result<Expr, ParseError>)
        requires
            old(self).wf(),
            old(self).current > 0,
            grammar::kind_at(old(self).tokens(), old(self).position() - 1) == TokenType::LeftParen,
        ensures
            final(self).wf(),
            final(self).moved(old(self)),
            final(self).position() == grammar::primary(
                old(self).tokens(),
                old(self).position() - 1,
            ).pos,
            is_expr(r, grammar::primary(old(self).tokens(), old(self).position() - 1).result),
        decreases old(self).tokens@.len() - old(self).current, 34nat,
    {
        let expr = match self.expression() {
            Ok(e) => e,
            Err(e) => {
                return Err(e);
            },
        };
        match self.consume(TokenType::RightParen, "Expect ')' after expression") {
            Ok(_) => {},
            Err(e) => {
                return Err(e);
            },
        }
        Ok(Expr::Grouping { expression: Box::new(expr) })
    }

    #[verifier::rlimit(60)]
    fn primary(&mut self) -> (r: Result<Expr, ParseError>)
        requires
            old(self).wf(),
        ensures
            final(self).has_read_expr(
                old(self),
                r,
                grammar::primary(old(self).tokens(), old(self).position()),
            ),
        decreases old(self).tokens@.len() - old(self).current, 3nat,
    {
        proof {
            reveal_with_fuel(Expr::model, 2);
        }
        let kind = self.peek().t_type;
        if kind == TokenType::False {
            self.advance();
            return Ok(Expr::Literal { value: LiteralType::Bool(false) });
        }
        if kind == TokenType::True {
            self.advance();
            return Ok(Expr::Literal { value: LiteralType::Bool(true) });
        }
        if kind == TokenType::Number || kind == TokenType::String {
            self.advance();
            let value = match &self.previous().literal {
                Some(l) => l.clone(),
                None => LiteralType::Nil,
            };
            return Ok(Expr::Literal { value });
        }
        if kind == TokenType::Nil {
            self.advance();
            return Ok(Expr::Literal { value: LiteralType::Nil });
        }
        if kind == TokenType::LeftParen {
            self.advance();
            return self.grouping();
        }
        if kind == TokenType::Identifier {
            self.advance();
            return Ok(Expr::Variable { name: self.previous().clone() });
        }
        if kind == TokenType::Equal || level_has(Level::Equality, kind) {
            self.advance();
            return self.missing_operand(Level::Equality);
        }
        if level_has(Level::Comparison, kind) {
            self.advance();
            return self.missing_operand(Level::Comparison);
        }
        if kind == TokenType::Plus {
            self.advance();
            return self.missing_operand(Level::Term);
        }
        if kind == TokenType::Star || kind == TokenType::Slash {
            self.advance();
            return self.missing_operand(Level::Factor);
        }
        Err(self.error_at(self.current, "Expect expression."))
    }
    /// The parser has read, from where `before` stood, what the grammar reads
    /// there with the outcome `p`; a part that was read holds a token.
    pub open spec fn has_read_stmt(
        &self,
        before: &Self,
        r: Result<Stmt, ParseError>,
        p: Parsed<StmtView>,
    ) -> bool {
        &&& self.wf()
        &&& self.moved(before)
        &&& self.position() == p.pos
        &&& is_stmt(r, p.result)
        &&& r is Ok ==> self.position() > before.position()
    }

    /// The number of loops around the position, to read and to set.
    pub fn loop_depth(&mut self) -> (r: &mut u32)
        ensures
            *r == old(self).depth(),
            final(self).depth() == *final(r),
            final(self).tokens() == old(self).tokens(),
            final(self).position() == old(self).position(),
            old(self).wf() ==> final(self).wf(),
    {
        &mut self.loop_depth
    }

    /// Reads the whole token sequence: one outcome for each declaration, in
    /// their order, each a statement or a parse error.
    pub fn parse(&mut self) -> (r: Vec<Result<Stmt, ParseError>>)
        requires
            old(self).wf(),
        ensures
            final(self).wf(),
            final(self).moved(old(self)),
            grammar::at_end(final(self).tokens(), final(self).position()),
            results_model(r@) == grammar::program(
                old(self).tokens(),
                old(self).position(),
                old(self).depth(),
            ),
    {
        let mut statements: Vec<Result<Stmt, ParseError>> = Vec::new();
        let ghost ts = self.tokens();
        let ghost start = self.position();
        let ghost depth = self.depth();
        assert(results_model(statements@) + grammar::program(ts, start, depth) =~= grammar::program(
            ts,
            start,
            depth,
        ));
        while !self.is_at_end()
            invariant
                self.wf(),
                self.moved(old(self)),
                ts == self.tokens(),
                depth == self.depth(),
                start == old(self).position(),
                results_model(statements@) + grammar::program(ts, self.position(), depth)
                    == grammar::program(ts, start, depth),
            decreases self.tokens@.len() - self.current,
        {
            let ghost before = results_model(statements@);
            let ghost pos = self.position();
            let next = self.declaration();
            let ghost outcome = result_model(next);
            statements.push(next);
            proof {
                assert(results_model(statements@) =~= before.push(outcome));
                assert(grammar::program(ts, pos, depth) =~= seq![outcome] + grammar::program(
                    ts,
                    self.position(),
                    depth,
                ));
                assert(results_model(statements@) + grammar::program(ts, self.position(), depth)
                    =~= before + grammar::program(ts, pos, depth));
            }
        }
        assert(results_model(statements@) =~= grammar::program(ts, start, depth));
        statements
    }

    fn declaration(&mut self) -> (r: Result<Stmt, ParseError>)
        requires
            old(self).wf(),
            !grammar::at_end(old(self).tokens(), old(self).position()),
        ensures
            final(self).wf(),
            final(self).moved(old(self)),
            final(self).position() == grammar::declaration(
                old(self).tokens(),
                old(self).position(),
                old(self).depth(),
            ).pos,
            is_stmt(
                r,
                grammar::declaration(
                    old(self).tokens(),
                    old(self).position(),
                    old(self).depth(),
                ).result,
            ),
            final(self).position() > old(self).position(),
        decreases old(self).tokens@.len() - old(self).current, 52nat,
    {
        let stmt = if self.match_token(TokenType::Fun) {
            self.function("function")
        } else if self.match_token(TokenType::Var) {
            self.var_declaration()
        } else {
            self.statement()
        };
        match stmt {
            Ok(s) => Ok(s),
            Err(e) => {
                self.synchronize();
                Err(e)
            },
        }
    }

    /// The parameters of a function from the position on, behind the parameters `done`.
    fn parameters(&mut self, done: Vec<Token>) -> (r: Result<Vec<Token>, ParseError>)
        requires
            old(self).wf(),
        ensures
            final(self).wf(),
            final(self).moved(old(self)),
            final(self).position() == grammar::parameters(
                old(self).tokens(),
                old(self).position(),
                tokens_model(done@),
            ).pos,
            is_tokens(
                r,
                grammar::parameters(
                    old(self).tokens(),
                    old(self).position(),
                    tokens_model(done@),
                ).result,
            ),
        decreases old(self).tokens@.len() - old(self).current,
    {
        let mut params = done;
        if params.len() >= 255 {
            return Err(self.error_at(self.current, "Can't have more than 255 parameters"));
        }
        let name = match self.consume(TokenType::Identifier, "Expect parameter name.") {
            Ok(t) => t,
            Err(e) => {
                return Err(e);
            },
        };
        let ghost before = tokens_model(params@);
        params.push(name);
        assert(tokens_model(params@) =~= before.push(name@));
        if self.match_token(TokenType::Comma) {
            self.parameters(params)
        } else {
            Ok(params)
        }
    }

    /// The declaration of a function, behind `fun`.
    fn function(&mut self, kind: &str) -> (r: Result<Stmt, ParseError>)
        requires
            old(self).wf(),
        ensures
            final(self).has_read_stmt(
                old(self),
                r,
                grammar::function(
                    old(self).tokens(),
                    old(self).position(),
                    old(self).depth(),
                    kind@,
                ),
            ),
        decreases old(self).tokens@.len() - old(self).current, 55nat,
    {
        let expect_name = message("Expect ", kind, " name.");
        let name = match self.consume(TokenType::Identifier, expect_name.as_str()) {
            Ok(t) => t,
            Err(e) => {
                return Err(e);
            },
        };
        let expect_paren = message("Expect '(' after ", kind, " name.");
        match self.consume(TokenType::LeftParen, expect_paren.as_str()) {
            Ok(_) => {},
            Err(e) => {
                return Err(e);
            },
        }
        let none: Vec<Token> = Vec::new();
        assert(tokens_model(none@) =~= Seq::<TokenView>::empty());
        let params = if !self.check(TokenType::RightParen) {
            match self.parameters(none) {
                Ok(list) => list,
                Err(e) => {
                    return Err(e);
                },
            }
        } else {
            none
        };
        match self.consume(TokenType::RightParen, "Expect ')' after parameters") {
            Ok(_) => {},
            Err(e) => {
                return Err(e);
            },
        }
        let expect_body = message("Expect '{' before ", kind, " body.");
        match self.consume(TokenType::LeftBrace, expect_body.as_str()) {
            Ok(_) => {},
            Err(e) => {
                return Err(e);
            },
        }
        let body = match self.block() {
            Ok(b) => b,
            Err(e) => {
                return Err(e);
            },
        };
        let ghost param_views = tokens_model(params@);
        let ghost body_views = stmts_model(body@);
        let r = Stmt::Function { name, params, body };
        proof {
            assert(r.model()->Function_params =~= param_views);
            assert(r.model()->Function_body =~= body_views);
        }
        Ok(r)
    }

    /// The declaration of a variable, behind `var`.
    fn var_declaration(&mut self) -> (r: Result<Stmt, ParseError>)
        requires
            old(self).wf(),
        ensures
            final(self).has_read_stmt(
                old(self),
                r,
                grammar::var_declaration(old(self).tokens(), old(self).position()),
            ),
        decreases old(self).tokens@.len() - old(self).current, 45nat,
    {
        let name = match self.consume(TokenType::Identifier, "Expect variable name") {
            Ok(t) => t,
            Err(e) => {
                return Err(e);
            },
        };
        let initializer = if self.match_token(TokenType::Equal) {
            match self.expression() {
                Ok(e) => Some(e),
                Err(e) => {
                    return Err(e);
                },
            }
        } else {
            None
        };
        match self.consume(TokenType::Semicolon, "Expect ';' after variable declaration.") {
            Ok(_) => {},
            Err(e) => {
                return Err(e);
            },
        }
        Ok(Stmt::Var { name, initializer })
    }

    fn statement(&mut self) -> (r: Result<Stmt, ParseError>)
        requires
            old(self).wf(),
        ensures
            final(self).has_read_stmt(
                old(self),
                r,
                grammar::statement(old(self).tokens(), old(self).position(), old(self).depth()),
            ),
        decreases old(self).tokens@.len() - old(self).current, 50nat,
    {
        if self.match_token(TokenType::For) {
            return self.for_statement();
        }
        if self.match_token(TokenType::If) {
            return self.if_statement();
        }
        if self.match_token(TokenType::Print) {
            return self.print_statement();
        }
        if self.match_token(TokenType::Return) {
            return self.return_statement();
        }
        if self.match_token(TokenType::While) {
            return self.while_statement();
        }
        if self.match_token(TokenType::Break) {
            return self.break_statement();
        }
        if self.match_token(TokenType::LeftBrace) {
            let statements = match self.block() {
                Ok(b) => b,
                Err(e) => {
                    return Err(e);
                },
            };
            let ghost views = stmts_model(statements@);
            let r = Stmt::Block { statements };
            assert(r.model()->statements =~= views);
            return Ok(r);
        }
        self.expression_statement()
    }

    /// The statements of a block and its closing brace, behind the opening brace.
    fn block(&mut self) -> (r: Result<Vec<Stmt>, ParseError>)
        requires
            old(self).wf(),
        ensures
            final(self).wf(),
            final(self).moved(old(self)),
            final(self).position() == grammar::block(
                old(self).tokens(),
                old(self).position(),
                old(self).depth(),
            ).pos,
            is_stmts(
                r,
                grammar::block(old(self).tokens(), old(self).position(), old(self).depth()).result,
            ),
            r is Ok ==> final(self).position() > old(self).position(),
        decreases old(self).tokens@.len() - old(self).current, 54nat,
    {
        let statements: Vec<Stmt> = Vec::new();
        assert(stmts_model(statements@) =~= Seq::<StmtView>::empty());
        self.block_rest(statements)
    }

    /// The rest of a block, behind the statements `done`.
    fn block_rest(&mut self, done: Vec<Stmt>) -> (r: Result<Vec<Stmt>, ParseError>)
        requires
            old(self).wf(),
        ensures
            final(self).wf(),
            final(self).moved(old(self)),
            final(self).position() == grammar::block_rest(
                old(self).tokens(),
                old(self).position(),
                old(self).depth(),
                stmts_model(done@),
            ).pos,
            is_stmts(
                r,
                grammar::block_rest(
                    old(self).tokens(),
                    old(self).position(),
                    old(self).depth(),
                    stmts_model(done@),
                ).result,
            ),
            r is Ok ==> final(self).position() > old(self).position(),
        decreases old(self).tokens@.len() - old(self).current, 53nat,
    {
        let mut statements = done;
        if !self.check(TokenType::RightBrace) && !self.is_at_end() {
            let next = match self.declaration() {
                Ok(s) => s,
                Err(e) => {
                    return Err(e);
                },
            };
            let ghost before = stmts_model(statements@);
            statements.push(next);
            assert(stmts_model(statements@) =~= before.push(next@));
            return self.block_rest(statements);
        }
        match self.consume(TokenType::RightBrace, "Expect '}' after block.") {
            Ok(_) => {},
            Err(e) => {
                return Err(e);
            },
        }
        Ok(statements)
    }

    /// A `break` statement, behind its keyword.
    fn break_statement(&mut self) -> (r: Result<Stmt, ParseError>)
        requires
            old(self).wf(),
            old(self).current > 0,
        ensures
            final(self).has_read_stmt(
                old(self),
                r,
                grammar::break_statement(
                    old(self).tokens(),
                    old(self).position(),
                    old(self).depth(),
                ),
            ),
    {
        if self.loop_depth == 0 {
            return Err(self.error_at(self.current - 1, "Must be inside a loop to use 'break'"));
        }
        match self.consume(TokenType::Semicolon, "Expect ';' after 'break'") {
            Ok(_) => {},
            Err(e) => {
                return Err(e);
            },
        }
        Ok(Stmt::Break)
    }

    /// A condition in parentheses.
    fn condition(&mut self, open: &str, close: &str) -> (r: Result<Expr, ParseError>)
        requires
            old(self).wf(),
        ensures
            final(self).has_read_expr(
                old(self),
                r,
                grammar::condition(old(self).tokens(), old(self).position(), open@, close@),
            ),
        decreases old(self).tokens@.len() - old(self).current, 45nat,
    {
        match self.consume(TokenType::LeftParen, open) {
            Ok(_) => {},
            Err(e) => {
                return Err(e);
            },
        }
        let value = match self.expression() {
            Ok(e) => e,
            Err(e) => {
                return Err(e);
            },
        };
        match self.consume(TokenType::RightParen, close) {
            Ok(_) => {},
            Err(e) => {
                return Err(e);
            },
        }
        Ok(value)
    }

    /// An `if` statement, behind its keyword.
    fn if_statement(&mut self) -> (r: Result<Stmt, ParseError>)
        requires
            old(self).wf(),
        ensures
            final(self).has_read_stmt(
                old(self),
                r,
                grammar::if_statement(old(self).tokens(), old(self).position(), old(self).depth()),
            ),
        decreases old(self).tokens@.len() - old(self).current, 47nat,
    {
        let condition = match self.condition(
            "Expect '(' after 'if'.",
            "Expect ')' after if condition.",
        ) {
            Ok(e) => e,
            Err(e) => {
                return Err(e);
            },
        };
        let then_branch = match self.statement() {
            Ok(s) => Box::new(s),
            Err(e) => {
                return Err(e);
            },
        };
        let else_branch = if self.match_token(TokenType::Else) {
            match self.statement() {
                Ok(s) => Some(Box::new(s)),
                Err(e) => {
                    return Err(e);
                },
            }
        } else {
            None
        };
        Ok(Stmt::If { condition, then_branch, else_branch })
    }

    /// A `while` statement, behind its keyword.
    fn while_statement(&mut self) -> (r: Result<Stmt, ParseError>)
        requires
            old(self).wf(),
        ensures
            final(self).has_read_stmt(
                old(self),
                r,
                grammar::while_statement(
                    old(self).tokens(),
                    old(self).position(),
                    old(self).depth(),
                ),
            ),
        decreases old(self).tokens@.len() - old(self).current, 47nat,
    {
        let condition = match self.condition(
            "Expect '(' after 'while'.",
            "Expect ')' after while condition.",
        ) {
            Ok(e) => e,
            Err(e) => {
                return Err(e);
            },
        };
        let body = match self.loop_body() {
            Ok(s) => s,
            Err(e) => {
                return Err(e);
            },
        };
        Ok(Stmt::While { condition, body: Box::new(body) })
    }

    /// The body of a loop: a statement that stands one loop deeper.
    fn loop_body(&mut self) -> (r: Result<Stmt, ParseError>)
        requires
            old(self).wf(),
            old(self).current > 0,
        ensures
            final(self).has_read_stmt(
                old(self),
                r,
                grammar::statement(
                    old(self).tokens(),
                    old(self).position(),
                    grammar::enter_loop(old(self).depth()),
                ),
            ),
        decreases old(self).tokens@.len() - old(self).current, 51nat,
    {
        let outside = self.loop_depth;
        self.loop_depth = if outside < u32::MAX {
            outside + 1
        } else {
            outside
        };
        let body = self.statement();
        self.loop_depth = outside;
        body
    }

    /// The first clause of a `for` statement.
    fn for_initializer(&mut self) -> (r: Result<Option<Stmt>, ParseError>)
        requires
            old(self).wf(),
        ensures
            final(self).wf(),
            final(self).moved(old(self)),
            final(self).position() == grammar::for_initializer(
                old(self).tokens(),
                old(self).position(),
            ).pos,
            match (r, grammar::for_initializer(old(self).tokens(), old(self).position()).result) {
                (Ok(s), Ok(v)) => crate::ast::stmt_option_model(s) == v,
                (Err(e), Err(v)) => e@ == v,
                _ => false,
            },
            r is Ok ==> final(self).position() > old(self).position(),
        decreases old(self).tokens@.len() - old(self).current, 46nat,
    {
        if self.match_token(TokenType::Semicolon) {
            Ok(None)
        } else if self.match_token(TokenType::Var) {
            match self.var_declaration() {
                Ok(s) => Ok(Some(s)),
                Err(e) => Err(e),
            }
        } else {
            match self.expression_statement() {
                Ok(s) => Ok(Some(s)),
                Err(e) => Err(e),
            }
        }
    }

    /// A clause of a `for` statement that may be left out, and the token
    /// `close` behind it.
    fn for_clause(&mut self, close: TokenType, msg: &str) -> (r: Result<Option<Expr>, ParseError>)
        requires
            old(self).wf(),
        ensures
            final(self).wf(),
            final(self).moved(old(self)),
            final(self).position() == grammar::for_clause(
                old(self).tokens(),
                old(self).position(),
                close,
                msg@,
            ).pos,
            match (
                r,
                grammar::for_clause(old(self).tokens(), old(self).position(), close, msg@).result,
            ) {
                (Ok(s), Ok(v)) => crate::ast::expr_option_model(s) == v,
                (Err(e), Err(v)) => e@ == v,
                _ => false,
            },
            r is Ok ==> final(self).position() > old(self).position(),
        decreases old(self).tokens@.len() - old(self).current, 46nat,
    {
        let value = if !self.check(close) {
            match self.expression() {
                Ok(e) => Some(e),
                Err(e) => {
                    return Err(e);
                },
            }
        } else {
            None
        };
        match self.consume(close, msg) {
            Ok(_) => {},
            Err(e) => {
                return Err(e);
            },
        }
        Ok(value)
    }

    /// A `for` statement, behind its keyword: it is read as the `while` loop
    /// that it stands for.
    fn for_statement(&mut self) -> (r: Result<Stmt, ParseError>)
        requires
            old(self).wf(),
        ensures
            final(self).has_read_stmt(
                old(self),
                r,
                grammar::for_statement(old(self).tokens(), old(self).position(), old(self).depth()),
            ),
        decreases old(self).tokens@.len() - old(self).current, 47nat,
    {
        match self.consume(TokenType::LeftParen, "Expect '(' after 'for'.") {
            Ok(_) => {},
            Err(e) => {
                return Err(e);
            },
        }
        let initializer = match self.for_initializer() {
            Ok(s) => s,
            Err(e) => {
                return Err(e);
            },
        };
        let condition = match self.for_clause(
            TokenType::Semicolon,
            "Expect ';' after loop condition",
        ) {
            Ok(c) => c,
            Err(e) => {
                return Err(e);
            },
        };
        let increment = match self.for_clause(
            TokenType::RightParen,
            "Expect ')' after for clauses.",
        ) {
            Ok(c) => c,
            Err(e) => {
                return Err(e);
            },
        };
        let body = match self.loop_body() {
            Ok(s) => s,
            Err(e) => {
                return Err(e);
            },
        };
        Ok(desugar_for(initializer, condition, increment, body))
    }

    /// A `print` statement, behind its keyword.
    fn print_statement(&mut self) -> (r: Result<Stmt, ParseError>)
        requires
            old(self).wf(),
        ensures
            final(self).has_read_stmt(
                old(self),
                r,
                grammar::expression_statement(
                    old(self).tokens(),
                    old(self).position(),
                    true,
                    "Expect ';' after value."@,
                ),
            ),
        decreases old(self).tokens@.len() - old(self).current, 45nat,
    {
        let expression = match self.expression() {
            Ok(e) => e,
            Err(e) => {
                return Err(e);
            },
        };
        match self.consume(TokenType::Semicolon, "Expect ';' after value.") {
            Ok(_) => {},
            Err(e) => {
                return Err(e);
            },
        }
        Ok(Stmt::Print { expression })
    }

    /// A `return` statement, behind its keyword.
    fn return_statement(&mut self) -> (r: Result<Stmt, ParseError>)
        requires
            old(self).wf(),
            old(self).current > 0,
        ensures
            final(self).has_read_stmt(
                old(self),
                r,
                grammar::return_statement(old(self).tokens(), old(self).position()),
            ),
        decreases old(self).tokens@.len() - old(self).current, 45nat,
    {
        let keyword = self.previous().clone();
        let value = if !self.check(TokenType::Semicolon) {
            match self.expression() {
                Ok(e) => Some(e),
                Err(e) => {
                    return Err(e);
                },
            }
        } else {
            None
        };
        match self.consume(TokenType::Semicolon, "Expect ';' after return value.") {
            Ok(_) => {},
            Err(e) => {
                return Err(e);
            },
        }
        Ok(Stmt::Return { keyword, value })
    }

    fn expression_statement(&mut self) -> (r: Result<Stmt, ParseError>)
        requires
            old(self).wf(),
        ensures
            final(self).has_read_stmt(
                old(self),
                r,
                grammar::expression_statement(
                    old(self).tokens(),
                    old(self).position(),
                    false,
                    "Expect ';' after expression."@,
                ),
            ),
        decreases old(self).tokens@.len() - old(self).current, 45nat,
    {
        let expression = match self.expression() {
            Ok(e) => e,
            Err(e) => {
                return Err(e);
            },
        };
        match self.consume(TokenType::Semicolon, "Expect ';' after expression.") {
            Ok(_) => {},
            Err(e) => {
                return Err(e);
            },
        }
        Ok(Stmt::Expression { expression })
    }
}

/// The view of one outcome of the parser.
pub open spec fn result_model(r: Result<Stmt, ParseError>) -> Result<StmtView, ParseErrorView> {
    match r {
        Ok(s) => Ok(s@),
        Err(e) => Err(e@),
    }
}

/// The views of the outcomes of the parser, one by one.
pub open spec fn results_model(results: Seq<Result<Stmt, ParseError>>) -> Seq<
    Result<StmtView, ParseErrorView>,
> {
    Seq::new(results.len(), |i: int| result_model(results[i]))
}

/// The text `before`, `kind` and `after`, one behind the other.
fn message(before: &str, kind: &str, after: &str) -> (r: String)
    ensures
        r@ == before@ + kind@ + after@,
{
    let mut r = before.to_owned();
    r.append(kind);
    r.append(after);
    r
}

/// The block of the two statements `first` and `second`.
fn block_of(first: Stmt, second: Stmt) -> (r: Stmt)
    ensures
        r@ == (StmtView::Block { statements: seq![first@, second@] }),
{
    let mut statements: Vec<Stmt> = Vec::new();
    statements.push(first);
    statements.push(second);
    let r = Stmt::Block { statements };
    assert(r.model()->statements =~= seq![first@, second@]);
    r
}

/// The condition of a loop that has none: the literal `true`.
fn always() -> (r: Expr)
    ensures
        r@ == (ExprView::Literal { value: crate::token::LiteralView::Bool(true) }),
{
    proof {
        reveal_with_fuel(Expr::model, 2);
    }
    Expr::Literal { value: LiteralType::Bool(true) }
}

/// The statement that a `for` statement with these parts stands for.
fn desugar_for(
    initializer: Option<Stmt>,
    condition: Option<Expr>,
    increment: Option<Expr>,
    body: Stmt,
) -> (r: Stmt)
    ensures
        r@ == grammar::desugar_for(
            crate::ast::stmt_option_model(initializer),
            crate::ast::expr_option_model(condition),
            crate::ast::expr_option_model(increment),
            body@,
        ),
{
    let body = match increment {
        Some(inc) => block_of(body, Stmt::Expression { expression: inc }),
        None => body,
    };
    let condition = match condition {
        Some(c) => c,
        None => always(),
    };
    let body = Stmt::While { condition, body: Box::new(body) };
    match initializer {
        Some(init) => block_of(init, body),
        None => body,
    }
}

} // verus!
