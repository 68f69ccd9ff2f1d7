//! Syntax analysis: a recursive-descent parser with one token of lookahead,
//! proved to build exactly the tree that [`crate::grammar`] defines.

use vstd::prelude::*;
use crate::ast::{
    exprs_view, functions_view, lemma_exprs_view_push, lemma_functions_view_push,
    lemma_names_view_push, lemma_stmts_view_push, names_view, stmts_view, BinOp, Expr, Function,
    LogicalOp, Stmt, StmtView, UnaryOp,
};
use crate::grammar::{
    arguments, at, binary, block, chain, condition, declaration_at, entry_name, expression,
    for_condition, for_init, for_update, function, ident_at, parameter_list, parameters, primary,
    program, remaining, statement, statements, type_at, unary, Expected, ParseError, Parsed,
    Program,
};
use crate::lexer::{same_kind, tokens_view, Token, TokenView};

verus! {

/// What a parse that went from `start` to `end` and came back with `r` found.
pub open spec fn found<T: View>(r: Result<T, ParseError>, start: int, end: int) -> Parsed<T::V> {
    match r {
        Ok(v) => Ok((v@, (end - start) as nat)),
        Err(e) => Err(e),
    }
}

/// What a parse of statements that went from `start` to `end` and came back
/// with `r` found.
pub open spec fn found_statements(
    r: Result<Vec<Stmt>, ParseError>,
    start: int,
    end: int,
) -> Parsed<Seq<StmtView>> {
    match r {
        Ok(v) => Ok((stmts_view(v@), (end - start) as nat)),
        Err(e) => Err(e),
    }
}

/// The program that a parse came back with.
pub open spec fn found_program(r: Result<(Vec<Function>, Vec<Stmt>), ParseError>) -> Result<
    Program,
    ParseError,
> {
    match r {
        Ok((funcs, entry)) => Ok((functions_view(funcs@), stmts_view(entry@))),
        Err(e) => Err(e),
    }
}

/// A parser over a token sequence.
pub struct Parser {
    tokens: Vec<Token>,
    current: usize,
}

impl Parser {
    #[verifier::type_invariant]
    spec fn inv(&self) -> bool {
        self.current <= self.tokens@.len()
    }

    /// The tokens.
    pub closed spec fn tokens(&self) -> Seq<TokenView> {
        tokens_view(self.tokens@)
    }

    /// How many tokens have been taken.
    pub closed spec fn position(&self) -> int {
        self.current as int
    }

    /// A parser at the first of `tokens`.
    pub fn new(tokens: Vec<Token>) -> (parser: Self)
        ensures
            parser.tokens() == tokens_view(tokens@),
            parser.position() == 0,
    {
        Parser { tokens, current: 0 }
    }

    // -----------------------------------------------------------------------
    // Tokens
    // -----------------------------------------------------------------------

    /// Whether every token has been taken.
    fn is_at_end(&self) -> (r: bool)
        ensures
            r == (self.position() >= self.tokens().len()),
            0 <= self.position() <= self.tokens().len(),
    {
        proof {
            use_type_invariant(self);
        }
        self.current >= self.tokens.len()
    }

    /// The current token.
    fn peek(&self) -> (token: &Token)
        requires
            self.position() < self.tokens().len(),
        ensures
            token@ == self.tokens()[self.position()],
    {
        &self.tokens[self.current]
    }

    /// The token `distance` places after the current one, if there is one.
    fn peek_ahead(&self, distance: usize) -> (r: Option<&Token>)
        ensures
            match r {
                Some(token) => self.position() + distance < self.tokens().len() && token@
                    == self.tokens()[self.position() + distance],
                None => self.position() + distance >= self.tokens().len(),
            },
    {
        proof {
            use_type_invariant(self);
        }
        if distance < self.tokens.len() - self.current {
            Some(&self.tokens[self.current + distance])
        } else {
            None
        }
    }

    /// The token taken last.
    fn previous(&self) -> (token: &Token)
        requires
            0 < self.position(),
        ensures
            token@ == self.tokens()[self.position() - 1],
    {
        proof {
            use_type_invariant(self);
        }
        &self.tokens[self.current - 1]
    }

    /// Takes the current token, if there is one.
    fn advance(&mut self)
        ensures
            final(self).tokens() == old(self).tokens(),
            final(self).position() == if old(self).position() < old(self).tokens().len() {
                old(self).position() + 1
            } else {
                old(self).position()
            },
    {
        proof {
            use_type_invariant(&*self);
        }
        if self.current < self.tokens.len() {
            self.current = self.current + 1;
        }
    }

    /// Whether the current token is of the kind of `token`.
    fn check(&self, token: &Token) -> (r: bool)
        ensures
            r == (self.position() < self.tokens().len() && same_kind(
                self.tokens()[self.position()],
                token@,
            )),
            0 <= self.position() <= self.tokens().len(),
    {
        if self.is_at_end() {
            false
        } else {
            self.peek().same_kind(token)
        }
    }

    /// Takes the current token if it is of the kind of `token`, and says
    /// whether it did.
    fn match_token(&mut self, token: &Token) -> (r: bool)
        ensures
            final(self).tokens() == old(self).tokens(),
            r == (old(self).position() < old(self).tokens().len() && same_kind(
                old(self).tokens()[old(self).position()],
                token@,
            )),
            final(self).position() == if r {
                old(self).position() + 1
            } else {
                old(self).position()
            },
            0 <= old(self).position() <= old(self).tokens().len(),
    {
        if self.check(token) {
            self.advance();
            true
        } else {
            false
        }
    }

    /// Takes the current token if it is of the kind of one of `kinds`, and
    /// says whether it did.
    fn match_tokens(&mut self, kinds: &[Token]) -> (r: bool)
        ensures
            final(self).tokens() == old(self).tokens(),
            r == (old(self).position() < old(self).tokens().len() && exists|i: int|
                0 <= i < kinds@.len() && same_kind(
                    old(self).tokens()[old(self).position()],
                    #[trigger] kinds@[i]@,
                )),
            final(self).position() == if r {
                old(self).position() + 1
            } else {
                old(self).position()
            },
            0 <= old(self).position() <= old(self).tokens().len(),
    {
        proof {
            use_type_invariant(&*self);
        }
        let mut i: usize = 0;
        while i < kinds.len()
            invariant
                i <= kinds@.len(),
                *self == *old(self),
                0 <= self.position() <= self.tokens().len(),
                forall|j: int|
                    0 <= j < i ==> !(self.position() < self.tokens().len() && same_kind(
                        self.tokens()[self.position()],
                        #[trigger] kinds@[j]@,
                    )),
            decreases kinds@.len() - i,
        {
            if self.check(&kinds[i]) {
                self.advance();
                return true;
            }
            i = i + 1;
        }
        false
    }

    /// Takes the current token if it is of the kind of `token`; fails with
    /// `expected` otherwise.
    fn consume(&mut self, token: &Token, expected: Expected) -> (r: Result<(), ParseError>)
        ensures
            final(self).tokens() == old(self).tokens(),
            0 <= old(self).position() <= old(self).tokens().len(),
            old(self).position() < old(self).tokens().len() && same_kind(
                old(self).tokens()[old(self).position()],
                token@,
            ) ==> r is Ok && final(self).position() == old(self).position() + 1,
            !(old(self).position() < old(self).tokens().len() && same_kind(
                old(self).tokens()[old(self).position()],
                token@,
            )) ==> r == Err::<(), ParseError>(
                ParseError { expected, position: old(self).position() as usize },
            ) && final(self).position() == old(self).position(),
    {
        if self.check(token) {
            self.advance();
            Ok(())
        } else {
            Err(ParseError { expected, position: self.current })
        }
    }

    /// Takes the current token if it is an identifier, and gives its name;
    /// fails with `expected` otherwise.
    fn identifier(&mut self, expected: Expected) -> (r: Result<String, ParseError>)
        ensures
            final(self).tokens() == old(self).tokens(),
            0 <= old(self).position() <= old(self).tokens().len(),
            match ident_at(old(self).tokens(), old(self).position()) {
                Some(name) => {
                    &&& r matches Ok(s) && s@ == name
                    &&& final(self).position() == old(self).position() + 1
                },
                None => r == Err::<String, ParseError>(
                    ParseError { expected, position: old(self).position() as usize },
                ) && final(self).position() == old(self).position(),
            },
    {
        if self.is_at_end() {
            return Err(ParseError { expected, position: self.current });
        }
        match self.peek() {
            Token::Ident(name) => {
                let name = name.clone();
                self.advance();
                Ok(name)
            },
            _ => Err(ParseError { expected, position: self.current }),
        }
    }

    // -----------------------------------------------------------------------
    // Expressions
    // -----------------------------------------------------------------------

    /// Parses an expression.
    pub fn parse_expression(&mut self) -> (r: Result<Expr, ParseError>)
        ensures
            final(self).tokens() == old(self).tokens(),
            old(self).position() <= final(self).position(),
            found(r, old(self).position(), final(self).position()) == expression(
                old(self).tokens(),
                old(self).position(),
            ),
        decreases remaining(old(self).tokens(), old(self).position()), 16nat,
    {
        self.parse_logical_or()
    }

    /// Parses operands joined by `||`.
    fn parse_logical_or(&mut self) -> (r: Result<Expr, ParseError>)
        ensures
            final(self).tokens() == old(self).tokens(),
            old(self).position() <= final(self).position(),
            found(r, old(self).position(), final(self).position()) == binary(
                old(self).tokens(),
                old(self).position(),
                0,
            ),
        decreases remaining(old(self).tokens(), old(self).position()), 15nat,
    {
        let ghost ts = self.tokens();
        let ghost start = self.position();
        let mut expr = match self.parse_logical_and() {
            Ok(e) => e,
            Err(e) => {
                return Err(e);
            },
        };
        loop
            invariant
                self.tokens() == ts,
                start <= self.position(),
                binary(ts, start, 0) == chain(
                    ts,
                    start,
                    (self.position() - start) as nat,
                    0,
                    expr@,
                ),
                ts == old(self).tokens(),
                start == old(self).position(),
            decreases remaining(ts, self.position()),
        {
            if !self.match_token(&Token::Or) {
                return Ok(expr);
            }
            let right = match self.parse_logical_and() {
                Ok(e) => e,
                Err(e) => {
                    return Err(e);
                },
            };
            expr = Expr::Logical { op: LogicalOp::Or, lhs: Box::new(expr), rhs: Box::new(right) };
        }
    }

    /// Parses operands joined by `&&`.
    fn parse_logical_and(&mut self) -> (r: Result<Expr, ParseError>)
        ensures
            final(self).tokens() == old(self).tokens(),
            old(self).position() <= final(self).position(),
            found(r, old(self).position(), final(self).position()) == binary(
                old(self).tokens(),
                old(self).position(),
                1,
            ),
        decreases remaining(old(self).tokens(), old(self).position()), 13nat,
    {
        let ghost ts = self.tokens();
        let ghost start = self.position();
        let mut expr = match self.parse_equality() {
            Ok(e) => e,
            Err(e) => {
                return Err(e);
            },
        };
        loop
            invariant
                self.tokens() == ts,
                start <= self.position(),
                binary(ts, start, 1) == chain(
                    ts,
                    start,
                    (self.position() - start) as nat,
                    1,
                    expr@,
                ),
                ts == old(self).tokens(),
                start == old(self).position(),
            decreases remaining(ts, self.position()),
        {
            if !self.match_token(&Token::And) {
                return Ok(expr);
            }
            let right = match self.parse_equality() {
                Ok(e) => e,
                Err(e) => {
                    return Err(e);
                },
            };
            expr = Expr::Logical { op: LogicalOp::And, lhs: Box::new(expr), rhs: Box::new(right) };
        }
    }

    /// Parses operands joined by `==` and `!=`.
    fn parse_equality(&mut self) -> (r: Result<Expr, ParseError>)
        ensures
            final(self).tokens() == old(self).tokens(),
            old(self).position() <= final(self).position(),
            found(r, old(self).position(), final(self).position()) == binary(
                old(self).tokens(),
                old(self).position(),
                2,
            ),
        decreases remaining(old(self).tokens(), old(self).position()), 11nat,
    {
        let ghost ts = self.tokens();
        let ghost start = self.position();
        let mut expr = match self.parse_comparison() {
            Ok(e) => e,
            Err(e) => {
                return Err(e);
            },
        };
        loop
            invariant
                self.tokens() == ts,
                start <= self.position(),
                binary(ts, start, 2) == chain(
                    ts,
                    start,
                    (self.position() - start) as nat,
                    2,
                    expr@,
                ),
                ts == old(self).tokens(),
                start == old(self).position(),
            decreases remaining(ts, self.position()),
        {
            if !self.match_tokens(&[Token::Equal, Token::NotEqual]) {
                return Ok(expr);
            }
            let op = match self.previous() {
                Token::Equal => BinOp::Equal,
                _ => BinOp::NotEqual,
            };
            let right = match self.parse_comparison() {
                Ok(e) => e,
                Err(e) => {
                    return Err(e);
                },
            };
            expr = Expr::Binary { op, lhs: Box::new(expr), rhs: Box::new(right) };
        }
    }

    /// Parses operands joined by `>`, `>=`, `<` and `<=`.
    fn parse_comparison(&mut self) -> (r: Result<Expr, ParseError>)
        ensures
            final(self).tokens() == old(self).tokens(),
            old(self).position() <= final(self).position(),
            found(r, old(self).position(), final(self).position()) == binary(
                old(self).tokens(),
                old(self).position(),
                3,
            ),
        decreases remaining(old(self).tokens(), old(self).position()), 9nat,
    {
        let ghost ts = self.tokens();
        let ghost start = self.position();
        let mut expr = match self.parse_additive() {
            Ok(e) => e,
            Err(e) => {
                return Err(e);
            },
        };
        loop
            invariant
                self.tokens() == ts,
                start <= self.position(),
                binary(ts, start, 3) == chain(
                    ts,
                    start,
                    (self.position() - start) as nat,
                    3,
                    expr@,
                ),
                ts == old(self).tokens(),
                start == old(self).position(),
            decreases remaining(ts, self.position()),
        {
            if !self.match_tokens(
                &[Token::Greater, Token::GreaterEqual, Token::Less, Token::LessEqual],
            ) {
                return Ok(expr);
            }
            let op = match self.previous() {
                Token::Greater => BinOp::Greater,
                Token::GreaterEqual => BinOp::GreaterEqual,
                Token::Less => BinOp::Less,
                _ => BinOp::LessEqual,
            };
            let right = match self.parse_additive() {
                Ok(e) => e,
                Err(e) => {
                    return Err(e);
                },
            };
            expr = Expr::Binary { op, lhs: Box::new(expr), rhs: Box::new(right) };
        }
    }

    /// Parses operands joined by `+` and `-`.
    fn parse_additive(&mut self) -> (r: Result<Expr, ParseError>)
        ensures
            final(self).tokens() == old(self).tokens(),
            old(self).position() <= final(self).position(),
            found(r, old(self).position(), final(self).position()) == binary(
                old(self).tokens(),
                old(self).position(),
                4,
            ),
        decreases remaining(old(self).tokens(), old(self).position()), 7nat,
    {
        let ghost ts = self.tokens();
        let ghost start = self.position();
        let mut expr = match self.parse_multiplicative() {
            Ok(e) => e,
            Err(e) => {
                return Err(e);
            },
        };
        loop
            invariant
                self.tokens() == ts,
                start <= self.position(),
                binary(ts, start, 4) == chain(
                    ts,
                    start,
                    (self.position() - start) as nat,
                    4,
                    expr@,
                ),
                ts == old(self).tokens(),
                start == old(self).position(),
            decreases remaining(ts, self.position()),
        {
            if !self.match_tokens(&[Token::Mais, Token::Menos]) {
                return Ok(expr);
            }
            let op = match self.previous() {
                Token::Mais => BinOp::Add,
                _ => BinOp::Sub,
            };
            let right = match self.parse_multiplicative() {
                Ok(e) => e,
                Err(e) => {
                    return Err(e);
                },
            };
            expr = Expr::Binary { op, lhs: Box::new(expr), rhs: Box::new(right) };
        }
    }

    /// Parses operands joined by `*` and `/`.
    fn parse_multiplicative(&mut self) -> (r: Result<Expr, ParseError>)
        ensures
            final(self).tokens() == old(self).tokens(),
            old(self).position() <= final(self).position(),
            found(r, old(self).position(), final(self).position()) == binary(
                old(self).tokens(),
                old(self).position(),
                5,
            ),
        decreases remaining(old(self).tokens(), old(self).position()), 5nat,
    {
        let ghost ts = self.tokens();
        let ghost start = self.position();
        assert(binary(ts, start, 6) == unary(ts, start));
        let mut expr = match self.parse_unary() {
            Ok(e) => e,
            Err(e) => {
                return Err(e);
            },
        };
        loop
            invariant
                self.tokens() == ts,
                start <= self.position(),
                binary(ts, start, 5) == chain(
                    ts,
                    start,
                    (self.position() - start) as nat,
                    5,
                    expr@,
                ),
                ts == old(self).tokens(),
                start == old(self).position(),
            decreases remaining(ts, self.position()),
        {
            if !self.match_tokens(&[Token::Multiplica, Token::Divide]) {
                return Ok(expr);
            }
            let op = match self.previous() {
                Token::Multiplica => BinOp::Mul,
                _ => BinOp::Div,
            };
            assert(binary(ts, self.position(), 6) == unary(ts, self.position()));
            let right = match self.parse_unary() {
                Ok(e) => e,
                Err(e) => {
                    return Err(e);
                },
            };
            expr = Expr::Binary { op, lhs: Box::new(expr), rhs: Box::new(right) };
        }
    }

    /// Parses prefix operators and the primary expression they apply to.
    fn parse_unary(&mut self) -> (r: Result<Expr, ParseError>)
        ensures
            final(self).tokens() == old(self).tokens(),
            old(self).position() <= final(self).position(),
            found(r, old(self).position(), final(self).position()) == unary(
                old(self).tokens(),
                old(self).position(),
            ),
        decreases remaining(old(self).tokens(), old(self).position()), 1nat,
    {
        if self.match_tokens(&[Token::Not, Token::Menos]) {
            let op = match self.previous() {
                Token::Not => UnaryOp::Not,
                _ => UnaryOp::Minus,
            };
            match self.parse_unary() {
                Ok(e) => Ok(Expr::Unary { op, expr: Box::new(e) }),
                Err(e) => Err(e),
            }
        } else {
            self.parse_primary()
        }
    }

    /// Parses a literal, a variable, a call or an expression in parentheses.
    fn parse_primary(&mut self) -> (r: Result<Expr, ParseError>)
        ensures
            final(self).tokens() == old(self).tokens(),
            old(self).position() <= final(self).position(),
            found(r, old(self).position(), final(self).position()) == primary(
                old(self).tokens(),
                old(self).position(),
            ),
        decreases remaining(old(self).tokens(), old(self).position()), 0nat,
    {
        let ghost ts = self.tokens();
        let ghost start = self.position();
        if self.is_at_end() {
            return Err(ParseError { expected: Expected::Expression, position: self.current });
        }
        match self.peek() {
            Token::Number(n) => {
                let value = *n;
                self.advance();
                Ok(Expr::Number(value))
            },
            Token::True => {
                self.advance();
                Ok(Expr::Bool(true))
            },
            Token::False => {
                self.advance();
                Ok(Expr::Bool(false))
            },
            Token::Ident(name) => {
                let name = name.clone();
                self.advance();
                if !self.match_token(&Token::AbrePar) {
                    return Ok(Expr::Var(name));
                }
                let mut args: Vec<Expr> = Vec::new();
                if self.match_token(&Token::FechaPar) {
                    assert(exprs_view(args@) =~= Seq::empty());
                    return Ok(Expr::Call { name, args });
                }
                assert(exprs_view(args@) =~= Seq::empty());
                loop
                    invariant
                        self.tokens() == ts,
                        start + 2 <= self.position(),
                        0 <= start < ts.len(),
                        ts == old(self).tokens(),
                        start == old(self).position(),
                        ts[start] == TokenView::Ident(name@),
                        at(ts, start + 1, TokenView::AbrePar),
                        !at(ts, start + 2, TokenView::FechaPar),
                        arguments(ts, start + 2, 0, Seq::empty()) == arguments(
                            ts,
                            start + 2,
                            (self.position() - start - 2) as nat,
                            exprs_view(args@),
                        ),
                    decreases remaining(ts, self.position()),
                {
                    let ghost before = args@;
                    let arg = match self.parse_expression() {
                        Ok(e) => e,
                        Err(e) => {
                            return Err(e);
                        },
                    };
                    proof {
                        lemma_exprs_view_push(before, arg);
                    }
                    args.push(arg);
                    if !self.match_token(&Token::Virgula) {
                        return match self.consume(&Token::FechaPar, Expected::CloseParen) {
                            Ok(()) => Ok(Expr::Call { name, args }),
                            Err(e) => Err(e),
                        };
                    }
                }
            },
            Token::AbrePar => {
                self.advance();
                let e = match self.parse_expression() {
                    Ok(e) => e,
                    Err(e) => {
                        return Err(e);
                    },
                };
                match self.consume(&Token::FechaPar, Expected::CloseParen) {
                    Ok(()) => Ok(e),
                    Err(e) => Err(e),
                }
            },
            _ => Err(ParseError { expected: Expected::Expression, position: self.current }),
        }
    }

    // -----------------------------------------------------------------------
    // Statements
    // -----------------------------------------------------------------------

    /// Parses a condition in parentheses.
    fn parse_condition(&mut self) -> (r: Result<Expr, ParseError>)
        ensures
            final(self).tokens() == old(self).tokens(),
            old(self).position() <= final(self).position(),
            found(r, old(self).position(), final(self).position()) == condition(
                old(self).tokens(),
                old(self).position(),
            ),
        decreases remaining(old(self).tokens(), old(self).position()), 17nat,
    {
        match self.consume(&Token::AbrePar, Expected::OpenParen) {
            Ok(()) => {},
            Err(e) => {
                return Err(e);
            },
        }
        let e = match self.parse_expression() {
            Ok(e) => e,
            Err(e) => {
                return Err(e);
            },
        };
        match self.consume(&Token::FechaPar, Expected::CloseParen) {
            Ok(()) => Ok(e),
            Err(e) => Err(e),
        }
    }

    /// Parses a statement.
    pub fn parse_statement(&mut self) -> (r: Result<Stmt, ParseError>)
        ensures
            final(self).tokens() == old(self).tokens(),
            old(self).position() <= final(self).position(),
            r is Ok ==> old(self).position() < final(self).position(),
            found(r, old(self).position(), final(self).position()) == statement(
                old(self).tokens(),
                old(self).position(),
            ),
        decreases remaining(old(self).tokens(), old(self).position()), 18nat,
    {
        if self.match_tokens(&[Token::Int, Token::Bool]) {
            self.parse_declaration()
        } else if self.match_token(&Token::Return) {
            self.parse_return()
        } else if self.match_token(&Token::If) {
            self.parse_if()
        } else if self.match_token(&Token::While) {
            self.parse_while()
        } else if self.match_token(&Token::For) {
            self.parse_for()
        } else {
            let e = match self.parse_expression() {
                Ok(e) => e,
                Err(e) => {
                    return Err(e);
                },
            };
            match self.consume(&Token::PontoEVirgula, Expected::Semicolon) {
                Ok(()) => Ok(Stmt::ExprStmt(e)),
                Err(e) => Err(e),
            }
        }
    }

    /// Parses a variable declaration whose type keyword has been taken.
    fn parse_declaration(&mut self) -> (r: Result<Stmt, ParseError>)
        requires
            type_at(old(self).tokens(), old(self).position() - 1),
        ensures
            final(self).tokens() == old(self).tokens(),
            old(self).position() <= final(self).position(),
            found(r, old(self).position() - 1, final(self).position()) == statement(
                old(self).tokens(),
                old(self).position() - 1,
            ),
        decreases remaining(old(self).tokens(), old(self).position()), 17nat,
    {
        let name = match self.identifier(Expected::VariableName) {
            Ok(name) => name,
            Err(e) => {
                return Err(e);
            },
        };
        match self.consume(&Token::Assign, Expected::Assign) {
            Ok(()) => {},
            Err(e) => {
                return Err(e);
            },
        }
        let value = match self.parse_expression() {
            Ok(e) => e,
            Err(e) => {
                return Err(e);
            },
        };
        match self.consume(&Token::PontoEVirgula, Expected::Semicolon) {
            Ok(()) => Ok(Stmt::VarDecl { name, value }),
            Err(e) => Err(e),
        }
    }

    /// Parses a `return` statement whose keyword has been taken.
    fn parse_return(&mut self) -> (r: Result<Stmt, ParseError>)
        requires
            at(old(self).tokens(), old(self).position() - 1, TokenView::Return),
        ensures
            final(self).tokens() == old(self).tokens(),
            old(self).position() <= final(self).position(),
            found(r, old(self).position() - 1, final(self).position()) == statement(
                old(self).tokens(),
                old(self).position() - 1,
            ),
        decreases remaining(old(self).tokens(), old(self).position()), 17nat,
    {
        let e = match self.parse_expression() {
            Ok(e) => e,
            Err(e) => {
                return Err(e);
            },
        };
        match self.consume(&Token::PontoEVirgula, Expected::Semicolon) {
            Ok(()) => Ok(Stmt::Return(e)),
            Err(e) => Err(e),
        }
    }

    /// Parses an `if` statement whose keyword has been taken.
    fn parse_if(&mut self) -> (r: Result<Stmt, ParseError>)
        requires
            at(old(self).tokens(), old(self).position() - 1, TokenView::If),
        ensures
            final(self).tokens() == old(self).tokens(),
            old(self).position() <= final(self).position(),
            found(r, old(self).position() - 1, final(self).position()) == statement(
                old(self).tokens(),
                old(self).position() - 1,
            ),
        decreases remaining(old(self).tokens(), old(self).position()), 20nat,
    {
        let condition = match self.parse_condition() {
            Ok(e) => e,
            Err(e) => {
                return Err(e);
            },
        };
        let then_branch = match self.parse_block() {
            Ok(b) => b,
            Err(e) => {
                return Err(e);
            },
        };
        if self.match_token(&Token::Else) {
            match self.parse_block() {
                Ok(b) => Ok(Stmt::If { condition, then_branch, else_branch: Some(b) }),
                Err(e) => Err(e),
            }
        } else {
            Ok(Stmt::If { condition, then_branch, else_branch: None })
        }
    }

    /// Parses a `while` statement whose keyword has been taken.
    fn parse_while(&mut self) -> (r: Result<Stmt, ParseError>)
        requires
            at(old(self).tokens(), old(self).position() - 1, TokenView::While),
        ensures
            final(self).tokens() == old(self).tokens(),
            old(self).position() <= final(self).position(),
            found(r, old(self).position() - 1, final(self).position()) == statement(
                old(self).tokens(),
                old(self).position() - 1,
            ),
        decreases remaining(old(self).tokens(), old(self).position()), 20nat,
    {
        let condition = match self.parse_condition() {
            Ok(e) => e,
            Err(e) => {
                return Err(e);
            },
        };
        match self.parse_block() {
            Ok(body) => Ok(Stmt::While { condition, body }),
            Err(e) => Err(e),
        }
    }

    /// Parses the first part of a `for` header: a lone `;`, or a statement.
    fn parse_for_init(&mut self) -> (r: Result<Option<Box<Stmt>>, ParseError>)
        ensures
            final(self).tokens() == old(self).tokens(),
            old(self).position() <= final(self).position(),
            match for_init(old(self).tokens(), old(self).position()) {
                Ok((init, n)) => final(self).position() == old(self).position() + n && match init {
                    Some(s) => r matches Ok(Some(b)) && b@ == *s,
                    None => r matches Ok(None),
                },
                Err(e) => r matches Err(e2) && e2 == e,
            },
        decreases remaining(old(self).tokens(), old(self).position()), 19nat,
    {
        if self.match_token(&Token::PontoEVirgula) {
            Ok(None)
        } else {
            match self.parse_statement() {
                Ok(s) => Ok(Some(Box::new(s))),
                Err(e) => Err(e),
            }
        }
    }

    /// Parses one of the later parts of a `for` header: an expression or
    /// nothing, then the token `end`, which is `;` or `)`.
    fn parse_for_part(&mut self, end: &Token, expected: Expected) -> (r: Result<
        Option<Expr>,
        ParseError,
    >)
        requires
            end@ == TokenView::PontoEVirgula && expected == Expected::Semicolon || end@
                == TokenView::FechaPar && expected == Expected::CloseParen,
        ensures
            final(self).tokens() == old(self).tokens(),
            old(self).position() <= final(self).position(),
            match (if end@ == TokenView::PontoEVirgula {
                for_condition(old(self).tokens(), old(self).position())
            } else {
                for_update(old(self).tokens(), old(self).position())
            }) {
                Ok((part, n)) => final(self).position() == old(self).position() + n && match part {
                    Some(e) => r matches Ok(Some(x)) && x@ == e,
                    None => r matches Ok(None),
                },
                Err(e) => r matches Err(e2) && e2 == e,
            },
        decreases remaining(old(self).tokens(), old(self).position()), 17nat,
    {
        if self.match_token(end) {
            return Ok(None);
        }
        let e = match self.parse_expression() {
            Ok(e) => e,
            Err(e) => {
                return Err(e);
            },
        };
        match self.consume(end, expected) {
            Ok(()) => Ok(Some(e)),
            Err(e) => Err(e),
        }
    }

    /// Parses a `for` statement whose keyword has been taken.
    fn parse_for(&mut self) -> (r: Result<Stmt, ParseError>)
        requires
            at(old(self).tokens(), old(self).position() - 1, TokenView::For),
        ensures
            final(self).tokens() == old(self).tokens(),
            old(self).position() <= final(self).position(),
            found(r, old(self).position() - 1, final(self).position()) == statement(
                old(self).tokens(),
                old(self).position() - 1,
            ),
        decreases remaining(old(self).tokens(), old(self).position()), 20nat,
    {
        match self.consume(&Token::AbrePar, Expected::OpenParen) {
            Ok(()) => {},
            Err(e) => {
                return Err(e);
            },
        }
        let init = match self.parse_for_init() {
            Ok(init) => init,
            Err(e) => {
                return Err(e);
            },
        };
        let condition = match self.parse_for_part(&Token::PontoEVirgula, Expected::Semicolon) {
            Ok(part) => part,
            Err(e) => {
                return Err(e);
            },
        };
        let update = match self.parse_for_part(&Token::FechaPar, Expected::CloseParen) {
            Ok(part) => part,
            Err(e) => {
                return Err(e);
            },
        };
        match self.parse_block() {
            Ok(body) => Ok(Stmt::For { init, condition, update, body }),
            Err(e) => Err(e),
        }
    }

    /// Parses statements between braces.
    pub fn parse_block(&mut self) -> (r: Result<Vec<Stmt>, ParseError>)
        ensures
            final(self).tokens() == old(self).tokens(),
            old(self).position() <= final(self).position(),
            found_statements(r, old(self).position(), final(self).position()) == block(
                old(self).tokens(),
                old(self).position(),
            ),
        decreases remaining(old(self).tokens(), old(self).position()), 19nat,
    {
        let ghost ts = self.tokens();
        let ghost start = self.position();
        match self.consume(&Token::AbreChave, Expected::OpenBrace) {
            Ok(()) => {},
            Err(e) => {
                return Err(e);
            },
        }
        let mut body: Vec<Stmt> = Vec::new();
        assert(stmts_view(body@) =~= Seq::empty());
        while !self.check(&Token::FechaChave) && !self.is_at_end()
            invariant
                self.tokens() == ts,
                start + 1 <= self.position(),
                at(ts, start, TokenView::AbreChave),
                ts == old(self).tokens(),
                start == old(self).position(),
                statements(ts, start + 1, 0, Seq::empty()) == statements(
                    ts,
                    start + 1,
                    (self.position() - start - 1) as nat,
                    stmts_view(body@),
                ),
            decreases remaining(ts, self.position()),
        {
            let ghost before = body@;
            let ghost here = self.position();
            let s = match self.parse_statement() {
                Ok(s) => s,
                Err(e) => {
                    return Err(e);
                },
            };
            proof {
                lemma_stmts_view_push(before, s);
            }
            body.push(s);
        }
        match self.consume(&Token::FechaChave, Expected::CloseBrace) {
            Ok(()) => Ok(body),
            Err(e) => Err(e),
        }
    }

    // -----------------------------------------------------------------------
    // Functions and programs
    // -----------------------------------------------------------------------

    /// Parses a parameter list, parentheses included.
    fn parse_parameters(&mut self) -> (r: Result<Vec<String>, ParseError>)
        ensures
            final(self).tokens() == old(self).tokens(),
            old(self).position() <= final(self).position(),
            match parameter_list(old(self).tokens(), old(self).position()) {
                Ok((params, n)) => {
                    &&& r matches Ok(v) && names_view(v@) == params
                    &&& final(self).position() == old(self).position() + n
                },
                Err(e) => r matches Err(e2) && e2 == e,
            },
    {
        let ghost ts = self.tokens();
        let ghost start = self.position();
        match self.consume(&Token::AbrePar, Expected::OpenParen) {
            Ok(()) => {},
            Err(e) => {
                return Err(e);
            },
        }
        let mut params: Vec<String> = Vec::new();
        assert(names_view(params@) =~= Seq::empty());
        if self.match_token(&Token::FechaPar) {
            return Ok(params);
        }
        loop
            invariant
                self.tokens() == ts,
                start + 1 <= self.position(),
                at(ts, start, TokenView::AbrePar),
                !at(ts, start + 1, TokenView::FechaPar),
                ts == old(self).tokens(),
                start == old(self).position(),
                parameters(ts, start + 1, 0, Seq::empty()) == parameters(
                    ts,
                    start + 1,
                    (self.position() - start - 1) as nat,
                    names_view(params@),
                ),
            decreases remaining(ts, self.position()),
        {
            if !self.match_tokens(&[Token::Int, Token::Bool]) {
                return Err(ParseError { expected: Expected::ParamType, position: self.current });
            }
            let ghost before = params@;
            let name = match self.identifier(Expected::ParamName) {
                Ok(name) => name,
                Err(e) => {
                    return Err(e);
                },
            };
            proof {
                lemma_names_view_push(before, name);
            }
            params.push(name);
            if !self.match_token(&Token::Virgula) {
                return match self.consume(&Token::FechaPar, Expected::CloseParen) {
                    Ok(()) => Ok(params),
                    Err(e) => Err(e),
                };
            }
        }
    }

    /// Parses a function declaration.
    pub fn parse_function(&mut self) -> (r: Result<Function, ParseError>)
        ensures
            final(self).tokens() == old(self).tokens(),
            old(self).position() <= final(self).position(),
            r is Ok ==> old(self).position() < final(self).position(),
            found(r, old(self).position(), final(self).position()) == function(
                old(self).tokens(),
                old(self).position(),
            ),
    {
        if !self.match_tokens(&[Token::Int, Token::Bool]) {
            return Err(ParseError { expected: Expected::ReturnType, position: self.current });
        }
        let name = match self.identifier(Expected::FunctionName) {
            Ok(name) => name,
            Err(e) => {
                return Err(e);
            },
        };
        let params = match self.parse_parameters() {
            Ok(params) => params,
            Err(e) => {
                return Err(e);
            },
        };
        match self.parse_block() {
            Ok(body) => Ok(Function { name, params, body }),
            Err(e) => Err(e),
        }
    }

    /// Whether a function declaration starts at the current token: a type
    /// keyword, then an identifier.
    fn at_declaration(&self) -> (r: bool)
        ensures
            r == declaration_at(self.tokens(), self.position()),
    {
        if self.check(&Token::Int) || self.check(&Token::Bool) {
            match self.peek_ahead(1) {
                Some(Token::Ident(_)) => true,
                _ => false,
            }
        } else {
            false
        }
    }

    /// Parses the tokens from the current one on as a program: its functions
    /// but `main`, and the statements of its entry.
    ///
    /// The tokens must be a program; [`Parser::try_parse`] reports the first
    /// failure instead.
    pub fn parse(&mut self) -> (r: (Vec<Function>, Vec<Stmt>))
        requires
            program(
                old(self).tokens(),
                old(self).position(),
                Seq::empty(),
                Seq::empty(),
                false,
            ) is Ok,
        ensures
            final(self).tokens() == old(self).tokens(),
            final(self).position() == final(self).tokens().len(),
            Ok::<Program, ParseError>((functions_view(r.0@), stmts_view(r.1@))) == program(
                old(self).tokens(),
                old(self).position(),
                Seq::empty(),
                Seq::empty(),
                false,
            ),
    {
        match self.try_parse() {
            Ok(r) => r,
            Err(_) => vstd::pervasive::unreached(),
        }
    }

    /// Parses the tokens from the current one on as a program, or says where
    /// they stop being one.
    pub fn try_parse(&mut self) -> (r: Result<(Vec<Function>, Vec<Stmt>), ParseError>)
        ensures
            final(self).tokens() == old(self).tokens(),
            r is Ok ==> final(self).position() == final(self).tokens().len(),
            found_program(r) == program(
                old(self).tokens(),
                old(self).position(),
                Seq::empty(),
                Seq::empty(),
                false,
            ),
    {
        proof {
            use_type_invariant(&*self);
        }
        let ghost ts = self.tokens();
        let ghost start = self.position();
        let mut funcs: Vec<Function> = Vec::new();
        let mut entry: Vec<Stmt> = Vec::new();
        let mut in_entry = false;
        assert(functions_view(funcs@) =~= Seq::empty());
        assert(stmts_view(entry@) =~= Seq::empty());
        while !self.is_at_end()
            invariant
                self.tokens() == ts,
                ts == old(self).tokens(),
                start == old(self).position(),
                0 <= self.position() <= ts.len(),
                program(ts, start, Seq::empty(), Seq::empty(), false) == program(
                    ts,
                    self.position(),
                    functions_view(funcs@),
                    stmts_view(entry@),
                    in_entry,
                ),
            decreases remaining(ts, self.position()),
        {
            match self.parse_item(&mut funcs, &mut entry, &mut in_entry) {
                Ok(()) => {},
                Err(e) => {
                    return Err(e);
                },
            }
        }
        Ok((funcs, entry))
    }

    /// Parses what stands at the current token of the top level and adds it to
    /// the program so far: a function, a statement of the entry, or a token to
    /// pass over.
    fn parse_item(
        &mut self,
        funcs: &mut Vec<Function>,
        entry: &mut Vec<Stmt>,
        in_entry: &mut bool,
    ) -> (r: Result<(), ParseError>)
        requires
            old(self).position() < old(self).tokens().len(),
        ensures
            final(self).tokens() == old(self).tokens(),
            r is Ok ==> old(self).position() < final(self).position() <= final(self).tokens().len(),
            program(
                old(self).tokens(),
                old(self).position(),
                functions_view(old(funcs)@),
                stmts_view(old(entry)@),
                *old(in_entry),
            ) == match r {
                Ok(()) => program(
                    final(self).tokens(),
                    final(self).position(),
                    functions_view(final(funcs)@),
                    stmts_view(final(entry)@),
                    *final(in_entry),
                ),
                Err(e) => Err(e),
            },
    {
        if self.at_declaration() {
            let f = match self.parse_function() {
                Ok(f) => f,
                Err(e) => {
                    return Err(e);
                },
            };
            if is_entry_name(&f.name) {
                *in_entry = true;
                *entry = f.body;
            } else {
                proof {
                    lemma_functions_view_push(funcs@, f);
                }
                funcs.push(f);
            }
        } else if *in_entry {
            let s = match self.parse_statement() {
                Ok(s) => s,
                Err(e) => {
                    return Err(e);
                },
            };
            proof {
                lemma_stmts_view_push(entry@, s);
            }
            entry.push(s);
        } else {
            self.advance();
        }
        proof {
            use_type_invariant(&*self);
        }
        Ok(())
    }
}

/// Whether `name` names the program's entry.
fn is_entry_name(name: &String) -> (r: bool)
    ensures
        r == (name@ == entry_name()),
{
    let entry = "main".to_owned();
    *name == entry
}

} // verus!
