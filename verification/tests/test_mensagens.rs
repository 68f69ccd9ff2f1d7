use mini_interpretador::message::push_decimal;
use mini_interpretador::{Expected, LexError, ParseError, RuntimeError};

#[test]
fn runtime_error_texts() {
    assert_eq!(
        RuntimeError::UndefinedVariable("x".to_string()).message(),
        "Erro: Variável 'x' não definida"
    );
    assert_eq!(
        RuntimeError::UndefinedFunction("soma".to_string()).message(),
        "Erro: Função 'soma' não definida"
    );
    assert_eq!(
        RuntimeError::WrongArgumentCount("soma".to_string(), 2, 1).message(),
        "Erro: Função 'soma' espera 2 argumentos, mas recebeu 1"
    );
    assert_eq!(
        RuntimeError::WrongArgumentCount("f".to_string(), 0, 12).message(),
        "Erro: Função 'f' espera 0 argumentos, mas recebeu 12"
    );
    assert_eq!(RuntimeError::DivisionByZero.message(), "Erro: Divisão por zero");
    assert_eq!(
        RuntimeError::TypeMismatch.message(),
        "Erro: Tentativa de usar não-número como número"
    );
    assert_eq!(
        RuntimeError::DepthLimit.message(),
        "Erro: Limite de profundidade de chamadas excedido"
    );
    assert_eq!(
        RuntimeError::IterationLimit.message(),
        "Erro: Limite de iterações de um laço excedido"
    );
}

#[test]
fn empty_name_in_a_text() {
    assert_eq!(
        RuntimeError::UndefinedVariable(String::new()).message(),
        "Erro: Variável '' não definida"
    );
}

#[test]
fn decimal_numerals() {
    for (n, text) in [
        (0usize, "0"),
        (7, "7"),
        (9, "9"),
        (10, "10"),
        (11, "11"),
        (99, "99"),
        (100, "100"),
        (101, "101"),
        (1234567890, "1234567890"),
        (usize::MAX, &usize::MAX.to_string()),
    ] {
        let mut s = String::from("n=");
        push_decimal(&mut s, n);
        assert_eq!(s, format!("n={}", text));
    }
}

#[test]
fn decimal_numerals_agree_with_the_standard_library() {
    for n in 0usize..2000 {
        let mut s = String::new();
        push_decimal(&mut s, n);
        assert_eq!(s, n.to_string());
    }
}

#[test]
fn lexical_error_text() {
    assert_eq!(LexError::UnterminatedComment(3).message(), "Comentário de bloco não fechado");
}

#[test]
fn syntax_error_texts() {
    let text = |expected| ParseError { expected, position: 0 }.message();
    assert_eq!(text(Expected::ReturnType), "Esperado tipo de retorno");
    assert_eq!(text(Expected::FunctionName), "Esperado nome da função");
    assert_eq!(text(Expected::ParamType), "Esperado tipo do parâmetro");
    assert_eq!(text(Expected::ParamName), "Esperado nome do parâmetro");
    assert_eq!(text(Expected::VariableName), "Esperado nome da variável");
    assert_eq!(text(Expected::OpenParen), "Esperado '('");
    assert_eq!(text(Expected::CloseParen), "Esperado ')'");
    assert_eq!(text(Expected::OpenBrace), "Esperado '{'");
    assert_eq!(text(Expected::CloseBrace), "Esperado '}'");
    assert_eq!(text(Expected::Assign), "Esperado '='");
    assert_eq!(text(Expected::Semicolon), "Esperado ';'");
    assert_eq!(text(Expected::Expression), "Expressão inválida");
}
