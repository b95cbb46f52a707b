//! Tokens and literal values.

use vstd::prelude::*;
use crate::callable::{Callable, CallableView};

verus! {

/// The kind of a token.
#[derive(Debug, PartialEq, Eq, Clone, Copy, Structural)]
pub enum TokenType {
    LeftParen,
    RightParen,
    LeftBrace,
    RightBrace,
    Comma,
    Dot,
    Minus,
    Plus,
    Semicolon,
    Slash,
    Star,
    Bang,
    BangEqual,
    Equal,
    EqualEqual,
    Greater,
    GreaterEqual,
    Less,
    LessEqual,
    Question,
    Colon,
    Identifier,
    String,
    Number,
    And,
    Break,
    Class,
    Else,
    False,
    Fun,
    For,
    If,
    Nil,
    OR,
    Print,
    Return,
    Super,
    This,
    True,
    Var,
    While,
    EOF,
}

/// A literal of the source text, and at the same time a value at run time.
///
/// `Number` holds the bit pattern of an IEEE 754 double.
#[derive(Debug)]
pub enum LiteralType {
    String(String),
    Number(u64),
    Bool(bool),
    Nil,
    Callable(Callable),
}

/// The mathematical value of a [`LiteralType`].
#[verifier::ext_equal]
pub enum LiteralView {
    String(Seq<char>),
    Number(u64),
    Bool(bool),
    Nil,
    Callable(CallableView),
}

/// A token: its kind, the text it was read from, its literal value if it has
/// one, and the line it stands on.
#[derive(Debug)]
pub struct Token {
    pub t_type: TokenType,
    pub lexeme: String,
    pub literal: Option<LiteralType>,
    pub line: usize,
}

/// The mathematical value of a [`Token`].
#[verifier::ext_equal]
pub struct TokenView {
    pub t_type: TokenType,
    pub lexeme: Seq<char>,
    pub literal: Option<LiteralView>,
    pub line: usize,
}

impl LiteralType {
    /// The mathematical value.
    pub open spec fn model(&self) -> LiteralView
        decreases self,
    {
        match self {
            LiteralType::String(s) => LiteralView::String(s@),
            LiteralType::Number(bits) => LiteralView::Number(*bits),
            LiteralType::Bool(b) => LiteralView::Bool(*b),
            LiteralType::Nil => LiteralView::Nil,
            LiteralType::Callable(c) => LiteralView::Callable(c.model()),
        }
    }

    /// A string value with the text of `val`.
    pub fn string_literal(val: &str) -> (r: LiteralType)
        ensures
            r@ == LiteralView::String(val@),
    {
        LiteralType::String(val.to_owned())
    }

    /// The number whose IEEE 754 double has the bit pattern `val`.
    pub fn number_literal(val: u64) -> (r: LiteralType)
        ensures
            r@ == LiteralView::Number(val),
    {
        LiteralType::Number(val)
    }
}

impl View for LiteralType {
    type V = LiteralView;

    open spec fn view(&self) -> LiteralView {
        self.model()
    }
}

impl Clone for LiteralType {
    fn clone(&self) -> (r: Self)
        ensures
            r@ == self@,
        decreases self,
    {
        match self {
            LiteralType::String(s) => LiteralType::String(s.clone()),
            LiteralType::Number(bits) => LiteralType::Number(*bits),
            LiteralType::Bool(b) => LiteralType::Bool(*b),
            LiteralType::Nil => LiteralType::Nil,
            LiteralType::Callable(c) => LiteralType::Callable(c.clone()),
        }
    }
}

/// The view of an optional literal.
pub open spec fn literal_model(literal: Option<LiteralType>) -> Option<LiteralView> {
    match literal {
        Some(l) => Some(l.model()),
        None => None,
    }
}

impl Token {
    /// The mathematical value.
    pub open spec fn model(&self) -> TokenView
        decreases self,
    {
        TokenView {
            t_type: self.t_type,
            lexeme: self.lexeme@,
            literal: match self.literal {
                Some(l) => Some(l.model()),
                None => None,
            },
            line: self.line,
        }
    }

    /// A token of kind `t_type` read from the text `lexeme` on line `line`.
    pub fn new(t_type: TokenType, lexeme: &str, literal: Option<LiteralType>, line: usize) -> (r:
        Self)
        ensures
            r@ == (TokenView { t_type, lexeme: lexeme@, literal: literal_model(literal), line }),
    {
        Token { t_type, lexeme: lexeme.to_owned(), literal, line }
    }
}

impl View for Token {
    type V = TokenView;

    open spec fn view(&self) -> TokenView {
        self.model()
    }
}

impl Clone for Token {
    fn clone(&self) -> (r: Self)
        ensures
            r@ == self@,
        decreases self,
    {
        let literal = match &self.literal {
            Some(l) => Some(l.clone()),
            None => None,
        };
        Token { t_type: self.t_type, lexeme: self.lexeme.clone(), literal, line: self.line }
    }
}

/// The views of a sequence of tokens, one by one.
pub open spec fn tokens_model(tokens: Seq<Token>) -> Seq<TokenView> {
    Seq::new(tokens.len(), |i: int| tokens[i].model())
}

/// A copy of `tokens`.
pub fn clone_tokens(tokens: &Vec<Token>) -> (r: Vec<Token>)
    ensures
        tokens_model(r@) == tokens_model(tokens@),
    decreases tokens,
{
    let mut out: Vec<Token> = Vec::new();
    let mut i: usize = 0;
    while i < tokens.len()
        invariant
            i <= tokens.len(),
            out.len() == i,
            forall|j: int| 0 <= j < i ==> out@[j].model() == tokens@[j].model(),
        decreases tokens.len() - i,
    {
        proof {
            vstd::std_specs::vec::axiom_vec_index_decreases(*tokens, i as int);
        }
        out.push(tokens[i].clone());
        i += 1;
    }
    assert(tokens_model(out@) =~= tokens_model(tokens@));
    out
}

} // verus!
