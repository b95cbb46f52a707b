//! A tree-walking interpreter for a small dynamically typed scripting language:
//! a lexer, a recursive-descent parser, a chained environment of scopes, and an
//! evaluator that is driven one transition at a time by its host.
//!
//! The library never computes with floating point and performs no input or
//! output. A number is carried as the bit pattern of an IEEE 754 double; the host
//! reads numerals, does the arithmetic, formats numbers, prints, and runs the
//! native functions, and hands each result back to the evaluator.

use vstd::prelude::*;

pub mod ast;
pub mod callable;
pub mod environment;
pub mod grammar;
pub mod interpreter;
pub mod laws;
pub mod machine;
pub mod parser;
pub mod scanner;
pub mod semantics;
pub mod token;
pub mod value;

use crate::ast::{Stmt, StmtView, stmts_model};
use crate::environment::{Environment, ScopeView};
use crate::grammar::ParseErrorView;
use crate::interpreter::{Interpreter, interpret, with_natives};
use crate::machine::{ControlView, FrameView, MachineView};
use crate::parser::{ParseError, Parser, results_model};
use crate::scanner::{ErrorView, Scanner, ScannerError, errors_from, errors_model, number_read, tokens_from, without_numbers};
use crate::token::{Token, TokenType, TokenView, tokens_model};

verus! {

/// A lexical error: what is wrong, and on which line.
#[derive(Debug, PartialEq, Clone)]
pub struct RloxError {
    pub msg: String,
    pub line: usize,
}

/// Why a source text is not executed.
#[derive(Debug)]
pub enum RunError {
    /// The text holds lexical errors: these.
    ScanError(ScannerError),
    /// The text holds parse errors: these, in the order of the text.
    ParseError(Vec<ParseError>),
}

/// The statements among the outcomes of the parser, in their order.
pub open spec fn statements_of(results: Seq<Result<StmtView, ParseErrorView>>) -> Seq<StmtView>
    decreases results.len(),
{
    if results.len() == 0 {
        Seq::empty()
    } else {
        match results.last() {
            Ok(s) => statements_of(results.drop_last()).push(s),
            Err(_) => statements_of(results.drop_last()),
        }
    }
}

/// The errors among the outcomes of the parser, in their order.
pub open spec fn errors_of(results: Seq<Result<StmtView, ParseErrorView>>) -> Seq<ParseErrorView>
    decreases results.len(),
{
    if results.len() == 0 {
        Seq::empty()
    } else {
        match results.last() {
            Ok(_) => errors_of(results.drop_last()),
            Err(e) => errors_of(results.drop_last()).push(e),
        }
    }
}

/// Whether `tokens` are the tokens of the text `src`, each number with a
/// value that the host read from the number's text.
pub open spec fn scanned<F: Fn(&str) -> u64>(src: Seq<char>, tokens: Seq<TokenView>, read_number: F)
    -> bool {
    &&& without_numbers(tokens) == tokens_from(src, 0, 1)
    &&& forall|i: int|
        0 <= i < tokens.len() && (#[trigger] tokens[i]).t_type == TokenType::Number
            ==> number_read(read_number, tokens[i])
}

/// The views of a sequence of parse errors, one by one.
pub open spec fn parse_errors_model(errors: Seq<ParseError>) -> Seq<ParseErrorView> {
    Seq::new(errors.len(), |i: int| errors[i]@)
}

/// What [`run`] makes of a text whose tokens are `tokens`: the machine for its
/// statements, or its parse errors and the environment as it was.
pub open spec fn prepared(
    tokens: Seq<TokenView>,
    scopes: Seq<ScopeView>,
    r: Result<Interpreter, (RunError, Environment)>,
) -> bool {
    let results = grammar::program(tokens, 0, 0);
    if errors_of(results).len() == 0 {
        &&& r matches Ok(machine)
        &&& machine.wf()
        &&& machine@ == (MachineView {
            scopes: with_natives(scopes),
            globals: 0,
            scope: 0,
            control: ControlView::Done,
            stack: seq![FrameView::Sequence { statements: statements_of(results), next: 0 }],
        })
    } else {
        &&& r matches Err((RunError::ParseError(errors), environment))
        &&& parse_errors_model(errors@) == errors_of(results)
        &&& environment.wf()
        &&& environment@ == scopes
    }
}

/// Reads the source text `src` and makes the machine that executes it in the
/// global scope of `environment`. The host tells the value of each number.
///
/// A text with a lexical error is not parsed, and one with a parse error is
/// not executed: the errors are returned, all of them, and the environment
/// with them, as it was.
pub fn run<F: Fn(&str) -> u64>(src: &str, environment: Environment, read_number: F) -> (r: Result<
    Interpreter,
    (RunError, Environment),
>)
    requires
        environment.wf(),
        forall|t: &str| scanner::is_numeral(t@) ==> call_requires(read_number, (t,)),
    ensures
        errors_from(src@, 0, 1).len() > 0 ==> {
            &&& r matches Err((RunError::ScanError(e), unchanged))
            &&& errors_model(e.errors@) == errors_from(src@, 0, 1)
            &&& unchanged.wf()
            &&& unchanged@ == environment@
        },
        errors_from(src@, 0, 1).len() == 0 ==> exists|tokens: Seq<TokenView>|
            scanned(src@, tokens, read_number) && #[trigger] prepared(tokens, environment@, r),
{
    let mut scanner = Scanner::new(src.to_owned());
    let tokens = match scanner.scan_tokens(read_number) {
        Ok(tokens) => tokens,
        Err(e) => {
            return Err((RunError::ScanError(e), environment));
        },
    };
    let ghost views = tokens_model(tokens@);
    proof {
        scanner::lemma_tokens_from(src@, 0, 1);
        assert(views.skip(0) =~= views);
        let expected = tokens_from(src@, 0, 1);
        assert forall|i: int|
            0 <= i < views.len() && ((#[trigger] views[i]).t_type == TokenType::Number
                || views[i].t_type == TokenType::String) implies views[i].literal is Some by {
            assert(without_numbers(views)[i] == expected[i]);
        }
        assert(without_numbers(views)[views.len() - 1] == expected.last());
        assert(scanned(src@, views, read_number));
    }
    let mut parser = Parser::new(&tokens);
    let results = parser.parse();
    let mut statements: Vec<Stmt> = Vec::new();
    let mut errors: Vec<ParseError> = Vec::new();
    let ghost all = results_model(results@);
    proof {
        assert(all.take(0) =~= Seq::empty());
        assert(stmts_model(statements@) =~= Seq::<StmtView>::empty());
        assert(parse_errors_model(errors@) =~= Seq::<ParseErrorView>::empty());
    }
    let mut i: usize = 0;
    while i < results.len()
        invariant
            i <= results@.len(),
            all == results_model(results@),
            stmts_model(statements@) == statements_of(all.take(i as int)),
            parse_errors_model(errors@) == errors_of(all.take(i as int)),
        decreases results.len() - i,
    {
        let ghost done_statements = stmts_model(statements@);
        let ghost done_errors = parse_errors_model(errors@);
        proof {
            assert(all.take(i + 1).drop_last() =~= all.take(i as int));
            assert(all.take(i + 1).last() == all[i as int]);
        }
        match &results[i] {
            Ok(s) => {
                let copy = s.clone();
                statements.push(copy);
                assert(stmts_model(statements@) =~= done_statements.push(copy@));
            },
            Err(e) => {
                let copy = ParseError { token: e.token.clone(), msg: e.msg.clone() };
                errors.push(copy);
                assert(parse_errors_model(errors@) =~= done_errors.push(copy@));
            },
        }
        i += 1;
    }
    proof {
        assert(all.take(results@.len() as int) =~= all);
    }
    let r = if errors.len() > 0 {
        Err((RunError::ParseError(errors), environment))
    } else {
        Ok(interpret(statements, environment))
    };
    assert(prepared(views, environment@, r));
    r
}

} // verus!
