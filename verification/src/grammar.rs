//! The grammar, as functions from a token sequence and a position to what
//! stands there.
//!
//! Every function answers with the construct and the number of tokens it
//! takes, or with the first expectation that the tokens do not meet. Nothing
//! is skipped and nothing is repaired: the first failure is the answer.
//!
//! ```text
//! program    := ( function | statement-after-main | any token before main )*
//! function   := type ident '(' ( type ident ( ',' type ident )* )? ')' block
//! block      := '{' statement* '}'
//! statement  := type ident '=' expr ';'
//!             | 'return' expr ';'
//!             | 'if' '(' expr ')' block ( 'else' block )?
//!             | 'while' '(' expr ')' block
//!             | 'for' '(' ( statement | ';' ) expr? ';' expr? ')' block
//!             | expr ';'
//! expr       := or
//! or         := and ( '||' and )*
//! and        := equality ( '&&' equality )*
//! equality   := relational ( ( '==' | '!=' ) relational )*
//! relational := additive ( ( '>' | '>=' | '<' | '<=' ) additive )*
//! additive   := term ( ( '+' | '-' ) term )*
//! term       := unary ( ( '*' | '/' ) unary )*
//! unary      := ( '!' | '-' ) unary | primary
//! primary    := number | 'true' | 'false' | ident | ident '(' ( expr ( ',' expr )* )? ')'
//!             | '(' expr ')'
//! ```

use vstd::prelude::*;
use crate::ast::{BinOp, ExprView, FunctionView, LogicalOp, StmtView, UnaryOp};
use crate::lexer::TokenView;

verus! {

/// What the parser wanted to see where it stopped.
#[derive(Debug, Clone, Copy, PartialEq, Eq, Structural)]
pub enum Expected {
    /// `int` or `bool` before a function's name.
    ReturnType,
    /// The name of a function.
    FunctionName,
    /// `int` or `bool` before a parameter's name.
    ParamType,
    /// The name of a parameter.
    ParamName,
    /// The name of a declared variable.
    VariableName,
    /// `(`
    OpenParen,
    /// `)`
    CloseParen,
    /// `{`
    OpenBrace,
    /// `}`
    CloseBrace,
    /// `=`
    Assign,
    /// `;`
    Semicolon,
    /// The start of an expression.
    Expression,
}

/// A syntax error: what was expected, and the index of the token that is
/// something else (the number of tokens, where they end too early).
#[derive(Debug, Clone, Copy, PartialEq, Eq, Structural)]
pub struct ParseError {
    pub expected: Expected,
    pub position: usize,
}

/// A construct and the number of tokens it takes, or the first failure.
pub type Parsed<T> = Result<(T, nat), ParseError>;

/// The functions of a program and the statements of its entry.
pub type Program = (Seq<FunctionView>, Seq<StmtView>);

/// The failure to find `expected` at `pos`.
pub open spec fn fail<T>(expected: Expected, pos: int) -> Parsed<T> {
    Err(ParseError { expected, position: pos as usize })
}

/// Whether the token at `pos` is `t`.
pub open spec fn at(ts: Seq<TokenView>, pos: int, t: TokenView) -> bool {
    0 <= pos < ts.len() && ts[pos] == t
}

/// Whether the token at `pos` is a type keyword.
pub open spec fn type_at(ts: Seq<TokenView>, pos: int) -> bool {
    at(ts, pos, TokenView::Int) || at(ts, pos, TokenView::Bool)
}

/// The identifier at `pos`, if one stands there.
pub open spec fn ident_at(ts: Seq<TokenView>, pos: int) -> Option<Seq<char>> {
    if 0 <= pos < ts.len() {
        match ts[pos] {
            TokenView::Ident(name) => Some(name),
            _ => None,
        }
    } else {
        None
    }
}

/// How many tokens are left from `pos` on.
pub open spec fn remaining(ts: Seq<TokenView>, pos: int) -> nat {
    if pos <= ts.len() {
        (ts.len() - pos) as nat
    } else {
        0
    }
}

// ---------------------------------------------------------------------------
// Expressions
// ---------------------------------------------------------------------------

/// An infix operator.
pub enum Infix {
    Logical(LogicalOp),
    Binary(BinOp),
}

/// The binary levels, from the loosest, 0, to the tightest, 5.
pub open spec fn levels() -> nat {
    6
}

/// How far `level` is from the tightest level: the measure by which the
/// definitions below descend through the levels.
pub open spec fn depth(level: nat) -> nat {
    if level < levels() {
        (levels() - level) as nat
    } else {
        0
    }
}

/// The operator of precedence level `level` that `t` is, if it is one.
pub open spec fn infix(level: nat, t: TokenView) -> Option<Infix> {
    match t {
        TokenView::Or if level == 0 => Some(Infix::Logical(LogicalOp::Or)),
        TokenView::And if level == 1 => Some(Infix::Logical(LogicalOp::And)),
        TokenView::Equal if level == 2 => Some(Infix::Binary(BinOp::Equal)),
        TokenView::NotEqual if level == 2 => Some(Infix::Binary(BinOp::NotEqual)),
        TokenView::Greater if level == 3 => Some(Infix::Binary(BinOp::Greater)),
        TokenView::GreaterEqual if level == 3 => Some(Infix::Binary(BinOp::GreaterEqual)),
        TokenView::Less if level == 3 => Some(Infix::Binary(BinOp::Less)),
        TokenView::LessEqual if level == 3 => Some(Infix::Binary(BinOp::LessEqual)),
        TokenView::Mais if level == 4 => Some(Infix::Binary(BinOp::Add)),
        TokenView::Menos if level == 4 => Some(Infix::Binary(BinOp::Sub)),
        TokenView::Multiplica if level == 5 => Some(Infix::Binary(BinOp::Mul)),
        TokenView::Divide if level == 5 => Some(Infix::Binary(BinOp::Div)),
        _ => None,
    }
}

/// The operator of level `level` at `pos`, if one stands there.
pub open spec fn infix_at(ts: Seq<TokenView>, pos: int, level: nat) -> Option<Infix> {
    if 0 <= pos < ts.len() {
        infix(level, ts[pos])
    } else {
        None
    }
}

/// `lhs op rhs`.
pub open spec fn join(op: Infix, lhs: ExprView, rhs: ExprView) -> ExprView {
    match op {
        Infix::Logical(op) => ExprView::Logical { op, lhs: Box::new(lhs), rhs: Box::new(rhs) },
        Infix::Binary(op) => ExprView::Binary { op, lhs: Box::new(lhs), rhs: Box::new(rhs) },
    }
}

/// The expression at `pos`.
pub open spec fn expression(ts: Seq<TokenView>, pos: int) -> Parsed<ExprView> {
    binary(ts, pos, 0)
}

/// The expression of precedence level `level` at `pos`: operands of the next
/// level joined, from the left, by operators of this one. Past the tightest
/// level stands a unary expression.
pub open spec fn binary(ts: Seq<TokenView>, pos: int, level: nat) -> Parsed<ExprView>
    decreases remaining(ts, pos), 2 * depth(level) + 3,
{
    if level >= levels() {
        unary(ts, pos)
    } else {
        match binary(ts, pos, level + 1) {
            Err(e) => Err(e),
            Ok((lhs, n)) => chain(ts, pos, n, level, lhs),
        }
    }
}

/// The rest of a level: `lhs` took the `n` tokens from `start`; each operator
/// of this level that follows joins it with one more operand.
pub open spec fn chain(
    ts: Seq<TokenView>,
    start: int,
    n: nat,
    level: nat,
    lhs: ExprView,
) -> Parsed<ExprView>
    decreases remaining(ts, start + n), 2 * depth(level) + 2,
{
    match infix_at(ts, start + n, level) {
        None => Ok((lhs, n)),
        Some(op) => match binary(ts, start + n + 1, level + 1) {
            Err(e) => Err(e),
            Ok((rhs, m)) => chain(ts, start, n + 1 + m, level, join(op, lhs, rhs)),
        },
    }
}

/// The unary expression at `pos`: any number of `!` and `-`, then a primary.
pub open spec fn unary(ts: Seq<TokenView>, pos: int) -> Parsed<ExprView>
    decreases remaining(ts, pos), 1nat,
{
    if at(ts, pos, TokenView::Not) || at(ts, pos, TokenView::Menos) {
        let op = if at(ts, pos, TokenView::Not) {
            UnaryOp::Not
        } else {
            UnaryOp::Minus
        };
        match unary(ts, pos + 1) {
            Err(e) => Err(e),
            Ok((e, n)) => Ok((ExprView::Unary { op, expr: Box::new(e) }, n + 1)),
        }
    } else {
        primary(ts, pos)
    }
}

/// The primary expression at `pos`.
pub open spec fn primary(ts: Seq<TokenView>, pos: int) -> Parsed<ExprView>
    decreases remaining(ts, pos), 0nat,
{
    if 0 <= pos < ts.len() {
        match ts[pos] {
            TokenView::Number(v) => Ok((ExprView::Number(v), 1)),
            TokenView::True => Ok((ExprView::Bool(true), 1)),
            TokenView::False => Ok((ExprView::Bool(false), 1)),
            TokenView::Ident(name) => {
                if !at(ts, pos + 1, TokenView::AbrePar) {
                    Ok((ExprView::Var(name), 1))
                } else if at(ts, pos + 2, TokenView::FechaPar) {
                    Ok((ExprView::Call { name, args: Seq::empty() }, 3))
                } else {
                    match arguments(ts, pos + 2, 0, Seq::empty()) {
                        Err(e) => Err(e),
                        Ok((args, n)) => {
                            if at(ts, pos + 2 + n, TokenView::FechaPar) {
                                Ok((ExprView::Call { name, args }, n + 3))
                            } else {
                                fail(Expected::CloseParen, pos + 2 + n)
                            }
                        },
                    }
                }
            },
            TokenView::AbrePar => match binary(ts, pos + 1, 0) {
                Err(e) => Err(e),
                Ok((e, n)) => {
                    if at(ts, pos + 1 + n, TokenView::FechaPar) {
                        Ok((e, n + 2))
                    } else {
                        fail(Expected::CloseParen, pos + 1 + n)
                    }
                },
            },
            _ => fail(Expected::Expression, pos),
        }
    } else {
        fail(Expected::Expression, pos)
    }
}

/// The arguments of a call after those in `acc`, which took the `n` tokens
/// from `start`: an expression, and after each comma one more.
pub open spec fn arguments(
    ts: Seq<TokenView>,
    start: int,
    n: nat,
    acc: Seq<ExprView>,
) -> Parsed<Seq<ExprView>>
    decreases remaining(ts, start + n), 2 * levels() + 4,
{
    match binary(ts, start + n, 0) {
        Err(e) => Err(e),
        Ok((e, m)) => {
            if at(ts, start + n + m, TokenView::Virgula) {
                arguments(ts, start, n + m + 1, acc.push(e))
            } else {
                Ok((acc.push(e), n + m))
            }
        },
    }
}

// ---------------------------------------------------------------------------
// Statements
// ---------------------------------------------------------------------------

/// The statement at `pos`.
pub open spec fn statement(ts: Seq<TokenView>, pos: int) -> Parsed<StmtView>
    decreases remaining(ts, pos), 2 * levels() + 5,
{
    if type_at(ts, pos) {
        match ident_at(ts, pos + 1) {
            None => fail(Expected::VariableName, pos + 1),
            Some(name) => {
                if !at(ts, pos + 2, TokenView::Assign) {
                    fail(Expected::Assign, pos + 2)
                } else {
                    match expression(ts, pos + 3) {
                        Err(e) => Err(e),
                        Ok((value, n)) => {
                            if at(ts, pos + 3 + n, TokenView::PontoEVirgula) {
                                Ok((StmtView::VarDecl { name, value }, n + 4))
                            } else {
                                fail(Expected::Semicolon, pos + 3 + n)
                            }
                        },
                    }
                }
            },
        }
    } else if at(ts, pos, TokenView::Return) {
        match expression(ts, pos + 1) {
            Err(e) => Err(e),
            Ok((e, n)) => {
                if at(ts, pos + 1 + n, TokenView::PontoEVirgula) {
                    Ok((StmtView::Return(e), n + 2))
                } else {
                    fail(Expected::Semicolon, pos + 1 + n)
                }
            },
        }
    } else if at(ts, pos, TokenView::If) {
        match condition(ts, pos + 1) {
            Err(e) => Err(e),
            Ok((cond, n)) => match block(ts, pos + 1 + n) {
                Err(e) => Err(e),
                Ok((then_branch, m)) => {
                    if at(ts, pos + 1 + n + m, TokenView::Else) {
                        match block(ts, pos + 2 + n + m) {
                            Err(e) => Err(e),
                            Ok((else_branch, k)) => Ok(
                                (
                                    StmtView::If {
                                        condition: cond,
                                        then_branch,
                                        else_branch: Some(else_branch),
                                    },
                                    n + m + k + 2,
                                ),
                            ),
                        }
                    } else {
                        Ok(
                            (
                                StmtView::If { condition: cond, then_branch, else_branch: None },
                                n + m + 1,
                            ),
                        )
                    }
                },
            },
        }
    } else if at(ts, pos, TokenView::While) {
        match condition(ts, pos + 1) {
            Err(e) => Err(e),
            Ok((cond, n)) => match block(ts, pos + 1 + n) {
                Err(e) => Err(e),
                Ok((body, m)) => Ok((StmtView::While { condition: cond, body }, n + m + 1)),
            },
        }
    } else if at(ts, pos, TokenView::For) {
        if !at(ts, pos + 1, TokenView::AbrePar) {
            fail(Expected::OpenParen, pos + 1)
        } else {
            match for_init(ts, pos + 2) {
                Err(e) => Err(e),
                Ok((init, n)) => match for_condition(ts, pos + 2 + n) {
                    Err(e) => Err(e),
                    Ok((cond, m)) => match for_update(ts, pos + 2 + n + m) {
                        Err(e) => Err(e),
                        Ok((update, k)) => match block(ts, pos + 2 + n + m + k) {
                            Err(e) => Err(e),
                            Ok((body, j)) => Ok(
                                (
                                    StmtView::For { init, condition: cond, update, body },
                                    n + m + k + j + 2,
                                ),
                            ),
                        },
                    },
                },
            }
        }
    } else {
        match expression(ts, pos) {
            Err(e) => Err(e),
            Ok((e, n)) => {
                if at(ts, pos + n, TokenView::PontoEVirgula) {
                    Ok((StmtView::ExprStmt(e), n + 1))
                } else {
                    fail(Expected::Semicolon, pos + n)
                }
            },
        }
    }
}

/// A condition in parentheses at `pos`.
pub open spec fn condition(ts: Seq<TokenView>, pos: int) -> Parsed<ExprView> {
    if !at(ts, pos, TokenView::AbrePar) {
        fail(Expected::OpenParen, pos)
    } else {
        match expression(ts, pos + 1) {
            Err(e) => Err(e),
            Ok((e, n)) => {
                if at(ts, pos + 1 + n, TokenView::FechaPar) {
                    Ok((e, n + 2))
                } else {
                    fail(Expected::CloseParen, pos + 1 + n)
                }
            },
        }
    }
}

/// The first part of a `for` header at `pos`: a lone `;`, or a statement,
/// which brings its own end.
pub open spec fn for_init(ts: Seq<TokenView>, pos: int) -> Parsed<Option<Box<StmtView>>>
    decreases remaining(ts, pos), 2 * levels() + 6,
{
    if at(ts, pos, TokenView::PontoEVirgula) {
        Ok((None, 1))
    } else {
        match statement(ts, pos) {
            Err(e) => Err(e),
            Ok((s, n)) => Ok((Some(Box::new(s)), n)),
        }
    }
}

/// The second part of a `for` header at `pos`: an expression or nothing, then
/// `;`.
pub open spec fn for_condition(ts: Seq<TokenView>, pos: int) -> Parsed<Option<ExprView>> {
    if at(ts, pos, TokenView::PontoEVirgula) {
        Ok((None, 1))
    } else {
        match expression(ts, pos) {
            Err(e) => Err(e),
            Ok((e, n)) => {
                if at(ts, pos + n, TokenView::PontoEVirgula) {
                    Ok((Some(e), n + 1))
                } else {
                    fail(Expected::Semicolon, pos + n)
                }
            },
        }
    }
}

/// The third part of a `for` header at `pos`: an expression or nothing, then
/// `)`.
pub open spec fn for_update(ts: Seq<TokenView>, pos: int) -> Parsed<Option<ExprView>> {
    if at(ts, pos, TokenView::FechaPar) {
        Ok((None, 1))
    } else {
        match expression(ts, pos) {
            Err(e) => Err(e),
            Ok((e, n)) => {
                if at(ts, pos + n, TokenView::FechaPar) {
                    Ok((Some(e), n + 1))
                } else {
                    fail(Expected::CloseParen, pos + n)
                }
            },
        }
    }
}

/// The block at `pos`: statements between braces.
pub open spec fn block(ts: Seq<TokenView>, pos: int) -> Parsed<Seq<StmtView>>
    decreases remaining(ts, pos), 2 * levels() + 8,
{
    if !at(ts, pos, TokenView::AbreChave) {
        fail(Expected::OpenBrace, pos)
    } else {
        match statements(ts, pos + 1, 0, Seq::empty()) {
            Err(e) => Err(e),
            Ok((body, n)) => {
                if at(ts, pos + 1 + n, TokenView::FechaChave) {
                    Ok((body, n + 2))
                } else {
                    fail(Expected::CloseBrace, pos + 1 + n)
                }
            },
        }
    }
}

/// The statements of a block after those in `acc`, which took the `n` tokens
/// from `start`: as many as stand before the next `}` or the end of the
/// tokens.
///
/// The test that a statement took a token is what makes this definition
/// well founded. It never fails: see [`lemma_statement_takes_tokens`].
pub open spec fn statements(
    ts: Seq<TokenView>,
    start: int,
    n: nat,
    acc: Seq<StmtView>,
) -> Parsed<Seq<StmtView>>
    decreases remaining(ts, start + n), 2 * levels() + 7,
{
    if at(ts, start + n, TokenView::FechaChave) || start + n >= ts.len() {
        Ok((acc, n))
    } else {
        match statement(ts, start + n) {
            Err(e) => Err(e),
            Ok((s, m)) => {
                if m > 0 {
                    statements(ts, start, n + m, acc.push(s))
                } else {
                    fail(Expected::Expression, start + n)
                }
            },
        }
    }
}

// ---------------------------------------------------------------------------
// Functions and programs
// ---------------------------------------------------------------------------

/// The parameters of a function after those in `acc`, which took the `n`
/// tokens from `start`: a type and a name, and after each comma one more pair.
pub open spec fn parameters(
    ts: Seq<TokenView>,
    start: int,
    n: nat,
    acc: Seq<Seq<char>>,
) -> Parsed<Seq<Seq<char>>>
    decreases remaining(ts, start + n),
{
    if !type_at(ts, start + n) {
        fail(Expected::ParamType, start + n)
    } else {
        match ident_at(ts, start + n + 1) {
            None => fail(Expected::ParamName, start + n + 1),
            Some(name) => {
                if at(ts, start + n + 2, TokenView::Virgula) {
                    parameters(ts, start, n + 3, acc.push(name))
                } else {
                    Ok((acc.push(name), n + 2))
                }
            },
        }
    }
}

/// The parameter list at `pos`, parentheses included.
pub open spec fn parameter_list(ts: Seq<TokenView>, pos: int) -> Parsed<Seq<Seq<char>>> {
    if !at(ts, pos, TokenView::AbrePar) {
        fail(Expected::OpenParen, pos)
    } else if at(ts, pos + 1, TokenView::FechaPar) {
        Ok((Seq::empty(), 2))
    } else {
        match parameters(ts, pos + 1, 0, Seq::empty()) {
            Err(e) => Err(e),
            Ok((params, n)) => {
                if at(ts, pos + 1 + n, TokenView::FechaPar) {
                    Ok((params, n + 2))
                } else {
                    fail(Expected::CloseParen, pos + 1 + n)
                }
            },
        }
    }
}

/// The function declaration at `pos`.
pub open spec fn function(ts: Seq<TokenView>, pos: int) -> Parsed<FunctionView> {
    if !type_at(ts, pos) {
        fail(Expected::ReturnType, pos)
    } else {
        match ident_at(ts, pos + 1) {
            None => fail(Expected::FunctionName, pos + 1),
            Some(name) => match parameter_list(ts, pos + 2) {
                Err(e) => Err(e),
                Ok((params, n)) => match block(ts, pos + 2 + n) {
                    Err(e) => Err(e),
                    Ok((body, m)) => Ok((FunctionView { name, params, body }, n + m + 2)),
                },
            },
        }
    }
}

/// Whether a function declaration starts at `pos`: a type keyword, then an
/// identifier.
pub open spec fn declaration_at(ts: Seq<TokenView>, pos: int) -> bool {
    type_at(ts, pos) && ident_at(ts, pos + 1) is Some
}

/// The name of the function whose body is the program's entry.
pub open spec fn entry_name() -> Seq<char> {
    "main"@
}

/// The program that the tokens from `pos` on add to `funcs` and `entry`.
///
/// A function named `main` gives its body as the entry, in place of any
/// earlier one; every other function joins `funcs`. Once there is an entry,
/// whatever else stands at the top level is a statement and joins the entry.
/// Before that, a token that starts no declaration is passed over.
pub open spec fn program(
    ts: Seq<TokenView>,
    pos: int,
    funcs: Seq<FunctionView>,
    entry: Seq<StmtView>,
    in_entry: bool,
) -> Result<Program, ParseError>
    decreases remaining(ts, pos),
    via program_terminates
{
    if pos >= ts.len() {
        Ok((funcs, entry))
    } else if declaration_at(ts, pos) {
        match function(ts, pos) {
            Err(e) => Err(e),
            Ok((f, n)) => {
                if f.name == entry_name() {
                    program(ts, pos + n, funcs, f.body, true)
                } else {
                    program(ts, pos + n, funcs.push(f), entry, in_entry)
                }
            },
        }
    } else if in_entry {
        match statement(ts, pos) {
            Err(e) => Err(e),
            Ok((s, n)) => program(ts, pos + n, funcs, entry.push(s), true),
        }
    } else {
        program(ts, pos + 1, funcs, entry, false)
    }
}

#[via_fn]
proof fn program_terminates(
    ts: Seq<TokenView>,
    pos: int,
    funcs: Seq<FunctionView>,
    entry: Seq<StmtView>,
    in_entry: bool,
) {
    lemma_function_takes_tokens(ts, pos);
    lemma_statement_takes_tokens(ts, pos);
}

/// The program that a token sequence is.
pub open spec fn parse(ts: Seq<TokenView>) -> Result<Program, ParseError> {
    program(ts, 0, Seq::empty(), Seq::empty(), false)
}

// ---------------------------------------------------------------------------
// Facts
// ---------------------------------------------------------------------------

/// A statement takes at least one token.
pub proof fn lemma_statement_takes_tokens(ts: Seq<TokenView>, pos: int)
    ensures
        statement(ts, pos) matches Ok((_, n)) ==> n > 0,
{
}

/// A function declaration takes at least one token.
pub proof fn lemma_function_takes_tokens(ts: Seq<TokenView>, pos: int)
    ensures
        function(ts, pos) matches Ok((_, n)) ==> n > 0,
{
}

/// An expression of one level that no operator of the next looser level
/// follows is the expression of that looser level too.
pub proof fn lemma_level_without_operator(
    ts: Seq<TokenView>,
    pos: int,
    level: nat,
    e: ExprView,
    n: nat,
)
    requires
        level < levels(),
        binary(ts, pos, level + 1) == Ok::<(ExprView, nat), ParseError>((e, n)),
        infix_at(ts, pos + n, level) is None,
    ensures
        binary(ts, pos, level) == Ok::<(ExprView, nat), ParseError>((e, n)),
{
    assert(chain(ts, pos, n, level, e) == Ok::<(ExprView, nat), ParseError>((e, n)));
}

/// An expression of one level that no operator of any looser level follows
/// is the whole expression at its place.
pub proof fn lemma_levels_without_operator(
    ts: Seq<TokenView>,
    pos: int,
    level: nat,
    e: ExprView,
    n: nat,
)
    requires
        level <= levels(),
        binary(ts, pos, level) == Ok::<(ExprView, nat), ParseError>((e, n)),
        forall|k: nat| k < level ==> (#[trigger] infix_at(ts, pos + n, k)) is None,
    ensures
        expression(ts, pos) == Ok::<(ExprView, nat), ParseError>((e, n)),
    decreases level,
{
    if level > 0 {
        lemma_level_without_operator(ts, pos, (level - 1) as nat, e, n);
        lemma_levels_without_operator(ts, pos, (level - 1) as nat, e, n);
    }
}

/// A number stands for itself at every level from `level` on that no
/// operator follows.
pub proof fn lemma_number_operand(ts: Seq<TokenView>, pos: int, level: nat, v: i64)
    requires
        level <= levels(),
        0 <= pos < ts.len(),
        ts[pos] == TokenView::Number(v),
        forall|k: nat| level <= k < levels() ==> (#[trigger] infix_at(ts, pos + 1, k)) is None,
    ensures
        binary(ts, pos, level) == Ok::<(ExprView, nat), ParseError>((ExprView::Number(v), 1)),
    decreases levels() - level,
{
    if level < levels() {
        lemma_number_operand(ts, pos, level + 1, v);
        lemma_level_without_operator(ts, pos, level, ExprView::Number(v), 1);
    } else {
        assert(unary(ts, pos) == primary(ts, pos));
    }
}

/// Whether no infix operator of any level stands at `pos`.
pub open spec fn no_operator_at(ts: Seq<TokenView>, pos: int) -> bool {
    forall|k: nat| (#[trigger] infix_at(ts, pos, k)) is None
}

/// A product binds tighter than a sum: wherever the tokens `a + b * c` stand,
/// with no operator after them, they are the sum of `a` and the product of
/// `b` and `c`, for any three numbers.
pub proof fn lemma_product_binds_tighter(ts: Seq<TokenView>, pos: int, a: i64, b: i64, c: i64)
    requires
        0 <= pos,
        pos + 5 <= ts.len(),
        ts[pos] == TokenView::Number(a),
        ts[pos + 1] == TokenView::Mais,
        ts[pos + 2] == TokenView::Number(b),
        ts[pos + 3] == TokenView::Multiplica,
        ts[pos + 4] == TokenView::Number(c),
        no_operator_at(ts, pos + 5),
    ensures
        expression(ts, pos) == Ok::<(ExprView, nat), ParseError>(
            (
                ExprView::Binary {
                    op: BinOp::Add,
                    lhs: Box::new(ExprView::Number(a)),
                    rhs: Box::new(
                        ExprView::Binary {
                            op: BinOp::Mul,
                            lhs: Box::new(ExprView::Number(b)),
                            rhs: Box::new(ExprView::Number(c)),
                        },
                    ),
                },
                5,
            ),
        ),
{
    let product = ExprView::Binary {
        op: BinOp::Mul,
        lhs: Box::new(ExprView::Number(b)),
        rhs: Box::new(ExprView::Number(c)),
    };
    let sum = ExprView::Binary {
        op: BinOp::Add,
        lhs: Box::new(ExprView::Number(a)),
        rhs: Box::new(product),
    };
    // the operands
    lemma_number_operand(ts, pos, 5, a);
    lemma_number_operand(ts, pos + 2, 6, b);
    lemma_number_operand(ts, pos + 4, 6, c);
    // b * c
    assert(infix_at(ts, pos + 3, 5) == Some(Infix::Binary(BinOp::Mul)));
    assert(infix_at(ts, pos + 5, 5) is None);
    assert(chain(ts, pos + 2, 3, 5, product) == Ok::<(ExprView, nat), ParseError>((product, 3)));
    assert(chain(ts, pos + 2, 1, 5, ExprView::Number(b)) == chain(ts, pos + 2, 3, 5, product));
    assert(binary(ts, pos + 2, 5) == Ok::<(ExprView, nat), ParseError>((product, 3)));
    // a + (b * c)
    assert(infix_at(ts, pos + 1, 4) == Some(Infix::Binary(BinOp::Add)));
    assert(infix_at(ts, pos + 5, 4) is None);
    assert(chain(ts, pos, 5, 4, sum) == Ok::<(ExprView, nat), ParseError>((sum, 5)));
    assert(chain(ts, pos, 1, 4, ExprView::Number(a)) == chain(ts, pos, 5, 4, sum));
    assert(binary(ts, pos, 4) == Ok::<(ExprView, nat), ParseError>((sum, 5)));
    lemma_levels_without_operator(ts, pos, 4, sum, 5);
}

/// Subtraction associates to the left: wherever the tokens `a - b - c` stand,
/// with no operator after them, they are `a - b` less `c`, for any three
/// numbers.
pub proof fn lemma_subtraction_associates_left(
    ts: Seq<TokenView>,
    pos: int,
    a: i64,
    b: i64,
    c: i64,
)
    requires
        0 <= pos,
        pos + 5 <= ts.len(),
        ts[pos] == TokenView::Number(a),
        ts[pos + 1] == TokenView::Menos,
        ts[pos + 2] == TokenView::Number(b),
        ts[pos + 3] == TokenView::Menos,
        ts[pos + 4] == TokenView::Number(c),
        no_operator_at(ts, pos + 5),
    ensures
        expression(ts, pos) == Ok::<(ExprView, nat), ParseError>(
            (
                ExprView::Binary {
                    op: BinOp::Sub,
                    lhs: Box::new(
                        ExprView::Binary {
                            op: BinOp::Sub,
                            lhs: Box::new(ExprView::Number(a)),
                            rhs: Box::new(ExprView::Number(b)),
                        },
                    ),
                    rhs: Box::new(ExprView::Number(c)),
                },
                5,
            ),
        ),
{
    let first = ExprView::Binary {
        op: BinOp::Sub,
        lhs: Box::new(ExprView::Number(a)),
        rhs: Box::new(ExprView::Number(b)),
    };
    let both = ExprView::Binary {
        op: BinOp::Sub,
        lhs: Box::new(first),
        rhs: Box::new(ExprView::Number(c)),
    };
    lemma_number_operand(ts, pos, 5, a);
    lemma_number_operand(ts, pos + 2, 5, b);
    lemma_number_operand(ts, pos + 4, 5, c);
    assert(infix_at(ts, pos + 1, 4) == Some(Infix::Binary(BinOp::Sub)));
    assert(infix_at(ts, pos + 3, 4) == Some(Infix::Binary(BinOp::Sub)));
    assert(infix_at(ts, pos + 5, 4) is None);
    assert(chain(ts, pos, 5, 4, both) == Ok::<(ExprView, nat), ParseError>((both, 5)));
    assert(chain(ts, pos, 3, 4, first) == chain(ts, pos, 5, 4, both));
    assert(chain(ts, pos, 1, 4, ExprView::Number(a)) == chain(ts, pos, 3, 4, first));
    assert(binary(ts, pos, 4) == Ok::<(ExprView, nat), ParseError>((both, 5)));
    lemma_levels_without_operator(ts, pos, 4, both, 5);
}

/// Whether a construct found at `pos` lies within the tokens: it starts at a
/// token and ends at or before the last one.
pub open spec fn within<T>(ts: Seq<TokenView>, pos: int, r: Parsed<T>) -> bool {
    r matches Ok((_, n)) ==> 0 <= pos && 0 < n && pos + n <= ts.len()
}

/// An expression of any level lies within the tokens.
pub proof fn lemma_binary_within(ts: Seq<TokenView>, pos: int, level: nat)
    ensures
        within(ts, pos, binary(ts, pos, level)),
    decreases remaining(ts, pos), 2 * depth(level) + 3,
{
    if level >= levels() {
        lemma_unary_within(ts, pos);
    } else {
        lemma_binary_within(ts, pos, level + 1);
        match binary(ts, pos, level + 1) {
            Ok((lhs, n)) => {
                lemma_chain_within(ts, pos, n, level, lhs);
            },
            Err(_) => {},
        }
    }
}

/// The rest of a level lies within the tokens if what came before does.
pub proof fn lemma_chain_within(ts: Seq<TokenView>, start: int, n: nat, level: nat, lhs: ExprView)
    requires
        0 <= start,
        0 < n,
        start + n <= ts.len(),
    ensures
        within(ts, start, chain(ts, start, n, level, lhs)),
    decreases remaining(ts, start + n), 2 * depth(level) + 2,
{
    match infix_at(ts, start + n, level) {
        Some(op) => {
            lemma_binary_within(ts, start + n + 1, level + 1);
            match binary(ts, start + n + 1, level + 1) {
                Ok((rhs, m)) => {
                    lemma_chain_within(ts, start, n + 1 + m, level, join(op, lhs, rhs));
                },
                Err(_) => {},
            }
        },
        None => {},
    }
}

/// A unary expression lies within the tokens.
pub proof fn lemma_unary_within(ts: Seq<TokenView>, pos: int)
    ensures
        within(ts, pos, unary(ts, pos)),
    decreases remaining(ts, pos), 1nat,
{
    if at(ts, pos, TokenView::Not) || at(ts, pos, TokenView::Menos) {
        lemma_unary_within(ts, pos + 1);
    } else {
        lemma_primary_within(ts, pos);
    }
}

/// A primary expression lies within the tokens.
pub proof fn lemma_primary_within(ts: Seq<TokenView>, pos: int)
    ensures
        within(ts, pos, primary(ts, pos)),
    decreases remaining(ts, pos), 0nat,
{
    if 0 <= pos < ts.len() {
        match ts[pos] {
            TokenView::Ident(name) => {
                if at(ts, pos + 1, TokenView::AbrePar) && !at(ts, pos + 2, TokenView::FechaPar) {
                    lemma_arguments_within(ts, pos + 2, 0, Seq::empty());
                }
            },
            TokenView::AbrePar => {
                lemma_binary_within(ts, pos + 1, 0);
            },
            _ => {},
        }
    }
}

/// The arguments of a call lie within the tokens if those before them do.
pub proof fn lemma_arguments_within(ts: Seq<TokenView>, start: int, n: nat, acc: Seq<ExprView>)
    requires
        0 <= start,
        start + n <= ts.len(),
    ensures
        within(ts, start, arguments(ts, start, n, acc)),
    decreases remaining(ts, start + n), 2 * levels() + 4,
{
    lemma_binary_within(ts, start + n, 0);
    match binary(ts, start + n, 0) {
        Ok((e, m)) => {
            if at(ts, start + n + m, TokenView::Virgula) {
                lemma_arguments_within(ts, start, n + m + 1, acc.push(e));
            }
        },
        Err(_) => {},
    }
}

/// A statement lies within the tokens.
pub proof fn lemma_statement_within(ts: Seq<TokenView>, pos: int)
    ensures
        within(ts, pos, statement(ts, pos)),
    decreases remaining(ts, pos), 2 * levels() + 5,
{
    if type_at(ts, pos) {
        lemma_binary_within(ts, pos + 3, 0);
    } else if at(ts, pos, TokenView::Return) {
        lemma_binary_within(ts, pos + 1, 0);
    } else if at(ts, pos, TokenView::If) {
        lemma_binary_within(ts, pos + 2, 0);
        match condition(ts, pos + 1) {
            Ok((cond, n)) => {
                lemma_block_within(ts, pos + 1 + n);
                match block(ts, pos + 1 + n) {
                    Ok((then_branch, m)) => {
                        if at(ts, pos + 1 + n + m, TokenView::Else) {
                            lemma_block_within(ts, pos + 2 + n + m);
                        }
                    },
                    Err(_) => {},
                }
            },
            Err(_) => {},
        }
    } else if at(ts, pos, TokenView::While) {
        lemma_binary_within(ts, pos + 2, 0);
        match condition(ts, pos + 1) {
            Ok((cond, n)) => {
                lemma_block_within(ts, pos + 1 + n);
            },
            Err(_) => {},
        }
    } else if at(ts, pos, TokenView::For) {
        if at(ts, pos + 1, TokenView::AbrePar) {
            if !at(ts, pos + 2, TokenView::PontoEVirgula) {
                lemma_statement_within(ts, pos + 2);
            }
            match for_init(ts, pos + 2) {
                Ok((init, n)) => {
                    lemma_binary_within(ts, pos + 2 + n, 0);
                    match for_condition(ts, pos + 2 + n) {
                        Ok((cond, m)) => {
                            lemma_binary_within(ts, pos + 2 + n + m, 0);
                            match for_update(ts, pos + 2 + n + m) {
                                Ok((update, k)) => {
                                    lemma_block_within(ts, pos + 2 + n + m + k);
                                },
                                Err(_) => {},
                            }
                        },
                        Err(_) => {},
                    }
                },
                Err(_) => {},
            }
        }
    } else {
        lemma_binary_within(ts, pos, 0);
    }
}

/// A block lies within the tokens.
pub proof fn lemma_block_within(ts: Seq<TokenView>, pos: int)
    ensures
        within(ts, pos, block(ts, pos)),
    decreases remaining(ts, pos), 2 * levels() + 8,
{
    if at(ts, pos, TokenView::AbreChave) {
        lemma_statements_within(ts, pos + 1, 0, Seq::empty());
    }
}

/// The statements of a block end within the tokens if those before them do.
pub proof fn lemma_statements_within(ts: Seq<TokenView>, start: int, n: nat, acc: Seq<StmtView>)
    requires
        0 <= start,
        start + n <= ts.len(),
    ensures
        statements(ts, start, n, acc) matches Ok((_, m)) ==> start + m <= ts.len(),
    decreases remaining(ts, start + n), 2 * levels() + 7,
{
    if !(at(ts, start + n, TokenView::FechaChave) || start + n >= ts.len()) {
        lemma_statement_within(ts, start + n);
        match statement(ts, start + n) {
            Ok((s, m)) => {
                lemma_statements_within(ts, start, n + m, acc.push(s));
            },
            Err(_) => {},
        }
    }
}

/// A function declaration lies within the tokens.
pub proof fn lemma_function_within(ts: Seq<TokenView>, pos: int)
    ensures
        within(ts, pos, function(ts, pos)),
{
    if type_at(ts, pos) && ident_at(ts, pos + 1) is Some {
        lemma_parameter_list_within(ts, pos + 2);
        match parameter_list(ts, pos + 2) {
            Ok((params, n)) => {
                lemma_block_within(ts, pos + 2 + n);
            },
            Err(_) => {},
        }
    }
}

/// A parameter list lies within the tokens.
pub proof fn lemma_parameter_list_within(ts: Seq<TokenView>, pos: int)
    ensures
        within(ts, pos, parameter_list(ts, pos)),
{
    if at(ts, pos, TokenView::AbrePar) && !at(ts, pos + 1, TokenView::FechaPar) {
        lemma_parameters_within(ts, pos + 1, 0, Seq::empty());
    }
}

/// Parameters lie within the tokens if those before them do.
pub proof fn lemma_parameters_within(ts: Seq<TokenView>, start: int, n: nat, acc: Seq<Seq<char>>)
    requires
        0 <= start,
        start + n <= ts.len(),
    ensures
        within(ts, start, parameters(ts, start, n, acc)),
    decreases remaining(ts, start + n),
{
    if type_at(ts, start + n) && ident_at(ts, start + n + 1) is Some && at(
        ts,
        start + n + 2,
        TokenView::Virgula,
    ) {
        lemma_parameters_within(ts, start, n + 3, acc.push(ident_at(ts, start + n + 1)->Some_0));
    }
}

} // verus!
