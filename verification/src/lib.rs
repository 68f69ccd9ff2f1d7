//! A small imperative language: lexer, parser and tree-walking interpreter,
//! each proved against a mathematical statement of what it computes.
//!
//! Source text becomes tokens ([`lexer`]), tokens become functions and the
//! statements of the entry ([`grammar`], [`parser`]), and these are run to a
//! value or an error ([`semantics`], [`interpreter`]). [`pipeline`] does the
//! three in one call.
//!
//! What the three stages compute is defined over sequences and maps in
//! [`lexer`], [`grammar`] and [`semantics`]; the executable code is proved to
//! agree with it. [`bounds`] and [`theorems`] hold what follows for every
//! program of a given shape.

pub mod arith;
pub mod ast;
pub mod bounds;
pub mod env;
pub mod grammar;
pub mod interpreter;
pub mod lexer;
pub mod message;
pub mod parser;
pub mod pipeline;
pub mod semantics;
pub mod theorems;

pub use ast::{BinOp, Expr, Function, LogicalOp, Stmt, UnaryOp};
pub use env::Environment;
pub use grammar::{Expected, ParseError};
pub use interpreter::Interpreter;
pub use lexer::{LexError, Lexer, Token};
pub use parser::Parser;
pub use pipeline::{run, run_within, Failure};
pub use semantics::{Completion, RuntimeError, Value};
