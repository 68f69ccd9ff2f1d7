//! The text of each error, for whoever reports it.

use vstd::prelude::*;
use vstd::string::StringExecFns;
use crate::grammar::{Expected, ParseError};
use crate::lexer::LexError;
use crate::pipeline::{Failure, FailureView};
use crate::semantics::{RuntimeError, RuntimeErrorView};

verus! {

/// The character that writes the digit `d`.
pub open spec fn digit_char(d: nat) -> char
    recommends
        d < 10,
{
    (('0' as u8) + d) as u8 as char
}

/// The decimal numeral of `n`, without leading zeros.
pub open spec fn decimal_digits(n: nat) -> Seq<char>
    decreases n,
{
    if n < 10 {
        seq![digit_char(n)]
    } else {
        decimal_digits(n / 10).push(digit_char(n % 10))
    }
}

/// The text of a lexical error.
pub open spec fn lex_error_text(e: LexError) -> Seq<char> {
    "Comentário de bloco não fechado"@
}

/// The text of a syntax error: what was expected.
pub open spec fn parse_error_text(e: ParseError) -> Seq<char> {
    match e.expected {
        Expected::ReturnType => "Esperado tipo de retorno"@,
        Expected::FunctionName => "Esperado nome da função"@,
        Expected::ParamType => "Esperado tipo do parâmetro"@,
        Expected::ParamName => "Esperado nome do parâmetro"@,
        Expected::VariableName => "Esperado nome da variável"@,
        Expected::OpenParen => "Esperado '('"@,
        Expected::CloseParen => "Esperado ')'"@,
        Expected::OpenBrace => "Esperado '{'"@,
        Expected::CloseBrace => "Esperado '}'"@,
        Expected::Assign => "Esperado '='"@,
        Expected::Semicolon => "Esperado ';'"@,
        Expected::Expression => "Expressão inválida"@,
    }
}

/// The text of a runtime error.
pub open spec fn message_text(e: RuntimeErrorView) -> Seq<char> {
    match e {
        RuntimeErrorView::UndefinedVariable(name) => "Erro: Variável '"@ + name
            + "' não definida"@,
        RuntimeErrorView::UndefinedFunction(name) => "Erro: Função '"@ + name
            + "' não definida"@,
        RuntimeErrorView::WrongArgumentCount(name, expected, actual) => "Erro: Função '"@ + name
            + "' espera "@ + decimal_digits(expected as nat) + " argumentos, mas recebeu "@
            + decimal_digits(actual as nat),
        RuntimeErrorView::DivisionByZero => "Erro: Divisão por zero"@,
        RuntimeErrorView::TypeMismatch => "Erro: Tentativa de usar não-número como número"@,
        RuntimeErrorView::DepthLimit => "Erro: Limite de profundidade de chamadas excedido"@,
        RuntimeErrorView::IterationLimit => "Erro: Limite de iterações de um laço excedido"@,
    }
}

/// The text of a failure: that of the error it holds.
pub open spec fn failure_text(e: FailureView) -> Seq<char> {
    match e {
        FailureView::Lexical(e) => lex_error_text(e),
        FailureView::Syntax(e) => parse_error_text(e),
        FailureView::Runtime(e) => message_text(e),
    }
}

/// Appends the decimal numeral of `n` to `text`.
pub fn push_decimal(text: &mut String, n: usize)
    ensures
        final(text)@ == old(text)@ + decimal_digits(n as nat),
    decreases n,
{
    if n >= 10 {
        push_decimal(text, n / 10);
    }
    let digit = (n % 10) as u8;
    text.push(('0' as u8 + digit) as char);
    assert(text@ =~= old(text)@ + decimal_digits(n as nat));
}

impl LexError {
    /// The text of the error.
    pub fn message(&self) -> (text: &'static str)
        ensures
            text@ == lex_error_text(*self),
    {
        "Comentário de bloco não fechado"
    }
}

impl ParseError {
    /// The text of the error: what was expected.
    pub fn message(&self) -> (text: &'static str)
        ensures
            text@ == parse_error_text(*self),
    {
        match self.expected {
            Expected::ReturnType => "Esperado tipo de retorno",
            Expected::FunctionName => "Esperado nome da função",
            Expected::ParamType => "Esperado tipo do parâmetro",
            Expected::ParamName => "Esperado nome do parâmetro",
            Expected::VariableName => "Esperado nome da variável",
            Expected::OpenParen => "Esperado '('",
            Expected::CloseParen => "Esperado ')'",
            Expected::OpenBrace => "Esperado '{'",
            Expected::CloseBrace => "Esperado '}'",
            Expected::Assign => "Esperado '='",
            Expected::Semicolon => "Esperado ';'",
            Expected::Expression => "Expressão inválida",
        }
    }
}

impl RuntimeError {
    /// The text of the error.
    pub fn message(&self) -> (text: String)
        ensures
            text@ == message_text(self@),
    {
        match self {
            RuntimeError::UndefinedVariable(name) => {
                let mut text = "Erro: Variável '".to_owned();
                text.append(name.as_str());
                text.append("' não definida");
                text
            },
            RuntimeError::UndefinedFunction(name) => {
                let mut text = "Erro: Função '".to_owned();
                text.append(name.as_str());
                text.append("' não definida");
                text
            },
            RuntimeError::WrongArgumentCount(name, expected, actual) => {
                let mut text = "Erro: Função '".to_owned();
                text.append(name.as_str());
                text.append("' espera ");
                push_decimal(&mut text, *expected);
                text.append(" argumentos, mas recebeu ");
                push_decimal(&mut text, *actual);
                text
            },
            RuntimeError::DivisionByZero => "Erro: Divisão por zero".to_owned(),
            RuntimeError::TypeMismatch => {
                "Erro: Tentativa de usar não-número como número".to_owned()
            },
            RuntimeError::DepthLimit => {
                "Erro: Limite de profundidade de chamadas excedido".to_owned()
            },
            RuntimeError::IterationLimit => {
                "Erro: Limite de iterações de um laço excedido".to_owned()
            },
        }
    }
}

impl Failure {
    /// The text of the failure: that of the error it holds.
    pub fn message(&self) -> (text: String)
        ensures
            text@ == failure_text(self@),
    {
        match self {
            Failure::Lexical(e) => e.message().to_owned(),
            Failure::Syntax(e) => e.message().to_owned(),
            Failure::Runtime(e) => e.message(),
        }
    }
}

} // verus!
