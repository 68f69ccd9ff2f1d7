//! From source text to a value: the lexer, the parser and the interpreter in
//! a row.

use vstd::prelude::*;
use crate::grammar::{parse, ParseError};
use crate::interpreter::{Interpreter, DEFAULT_MAX_DEPTH, DEFAULT_MAX_ITERATIONS};
use crate::lexer::{tokenize, LexError, Lexer};
use crate::parser::Parser;
use crate::semantics::{outcome, register, RuntimeError, RuntimeErrorView, Value};

verus! {

/// Why a text gives no value: the stage that failed, and its error.
#[derive(Debug, PartialEq, Eq)]
pub enum Failure {
    Lexical(LexError),
    Syntax(ParseError),
    Runtime(RuntimeError),
}

/// What a [`Failure`] denotes.
pub enum FailureView {
    Lexical(LexError),
    Syntax(ParseError),
    Runtime(RuntimeErrorView),
}

impl View for Failure {
    type V = FailureView;

    open spec fn view(&self) -> FailureView {
        match self {
            Failure::Lexical(e) => FailureView::Lexical(*e),
            Failure::Syntax(e) => FailureView::Syntax(*e),
            Failure::Runtime(e) => FailureView::Runtime(e@),
        }
    }
}

/// What a result of [`run`] denotes: a failure by its view.
pub open spec fn given(r: Result<Value, Failure>) -> Result<Value, FailureView> {
    match r {
        Ok(v) => Ok(v),
        Err(e) => Err(e@),
    }
}

/// What the text `source` gives as a program, within the bounds `depth` and
/// `loops`: the value of its entry, run on no variables with the functions
/// it declares; or the error of the first stage that fails.
pub open spec fn meaning(source: Seq<char>, depth: nat, loops: nat) -> Result<Value, FailureView> {
    match tokenize(source) {
        Err(e) => Err(FailureView::Lexical(e)),
        Ok(tokens) => match parse(tokens) {
            Err(e) => Err(FailureView::Syntax(e)),
            Ok((funcs, entry)) => match outcome(
                register(Map::empty(), funcs, funcs.len()),
                Map::empty(),
                entry,
                depth,
                loops,
            ) {
                Err(e) => Err(FailureView::Runtime(e)),
                Ok(v) => Ok(v),
            },
        },
    }
}

/// Runs the program that `source` is, within the default bounds.
pub fn run(source: &str) -> (r: Result<Value, Failure>)
    ensures
        given(r) == meaning(source@, DEFAULT_MAX_DEPTH as nat, DEFAULT_MAX_ITERATIONS as nat),
{
    run_within(source, DEFAULT_MAX_DEPTH, DEFAULT_MAX_ITERATIONS)
}

/// Runs the program that `source` is, within the given bounds.
pub fn run_within(source: &str, max_depth: u64, max_iterations: u64) -> (r: Result<Value, Failure>)
    ensures
        given(r) == meaning(source@, max_depth as nat, max_iterations as nat),
{
    let mut lexer = Lexer::nova_instancia(source);
    let tokens = match lexer.try_tokenize() {
        Ok(tokens) => tokens,
        Err(e) => {
            return Err(Failure::Lexical(e));
        },
    };
    let mut parser = Parser::new(tokens);
    let (funcs, entry) = match parser.try_parse() {
        Ok(program) => program,
        Err(e) => {
            return Err(Failure::Syntax(e));
        },
    };
    let mut interpreter = Interpreter::with_limits(max_depth, max_iterations);
    match interpreter.interpret(funcs, entry) {
        Ok(v) => Ok(v),
        Err(e) => Err(Failure::Runtime(e)),
    }
}

} // verus!
