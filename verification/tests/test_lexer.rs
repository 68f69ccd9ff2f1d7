use mini_interpretador::{LexError, Lexer, Token};

fn tokens_of(input: &str) -> Vec<Token> {
    Lexer::nova_instancia(input).try_tokenize().unwrap()
}

#[test]
fn test_tokenizar_tokens_basicos() {
    let mut lexer = Lexer::nova_instancia("123 + 456");
    let tokens = lexer.tokenizador();

    assert_eq!(tokens.len(), 3);
    assert_eq!(tokens[0], Token::Number(123));
    assert_eq!(tokens[1], Token::Mais);
    assert_eq!(tokens[2], Token::Number(456));
}

#[test]
fn test_tokenizar_palavras_chave() {
    let mut lexer = Lexer::nova_instancia("int bool return if else while");
    let tokens = lexer.tokenizador();

    assert_eq!(tokens[0], Token::Int);
    assert_eq!(tokens[1], Token::Bool);
    assert_eq!(tokens[2], Token::Return);
    assert_eq!(tokens[3], Token::If);
    assert_eq!(tokens[4], Token::Else);
    assert_eq!(tokens[5], Token::While);
}

#[test]
fn test_tokenizar_identificadores() {
    let mut lexer = Lexer::nova_instancia("main soma variavel_teste");
    let tokens = lexer.tokenizador();

    assert_eq!(tokens[0], Token::Ident("main".to_string()));
    assert_eq!(tokens[1], Token::Ident("soma".to_string()));
    assert_eq!(tokens[2], Token::Ident("variavel_teste".to_string()));
}

#[test]
fn test_tokenizar_operadores() {
    let mut lexer = Lexer::nova_instancia("== != <= >= && ||");
    let tokens = lexer.tokenizador();

    assert_eq!(tokens[0], Token::Equal);
    assert_eq!(tokens[1], Token::NotEqual);
    assert_eq!(tokens[2], Token::LessEqual);
    assert_eq!(tokens[3], Token::GreaterEqual);
    assert_eq!(tokens[4], Token::And);
    assert_eq!(tokens[5], Token::Or);
}

#[test]
fn test_tokenizar_pontuacao() {
    let mut lexer = Lexer::nova_instancia("( ) { } ; ,");
    let tokens = lexer.tokenizador();

    assert_eq!(tokens[0], Token::AbrePar);
    assert_eq!(tokens[1], Token::FechaPar);
    assert_eq!(tokens[2], Token::AbreChave);
    assert_eq!(tokens[3], Token::FechaChave);
    assert_eq!(tokens[4], Token::PontoEVirgula);
    assert_eq!(tokens[5], Token::Virgula);
}

#[test]
fn test_tokenizar_booleanos() {
    let mut lexer = Lexer::nova_instancia("true false");
    let tokens = lexer.tokenizador();

    assert_eq!(tokens[0], Token::True);
    assert_eq!(tokens[1], Token::False);
}

#[test]
fn empty_text_has_no_tokens() {
    assert_eq!(tokens_of(""), vec![]);
    assert_eq!(tokens_of(" \t\r\n"), vec![]);
}

#[test]
fn single_character_operators() {
    assert_eq!(
        tokens_of("+ - * / = ! < >"),
        vec![
            Token::Mais,
            Token::Menos,
            Token::Multiplica,
            Token::Divide,
            Token::Assign,
            Token::Not,
            Token::Less,
            Token::Greater,
        ]
    );
}

#[test]
fn two_character_operators_need_no_space() {
    assert_eq!(
        tokens_of("a<=b==c"),
        vec![
            Token::Ident("a".to_string()),
            Token::LessEqual,
            Token::Ident("b".to_string()),
            Token::Equal,
            Token::Ident("c".to_string()),
        ]
    );
    assert_eq!(tokens_of("==="), vec![Token::Equal, Token::Assign]);
    assert_eq!(tokens_of("!=="), vec![Token::NotEqual, Token::Assign]);
}

#[test]
fn lone_ampersand_and_bar_are_dropped() {
    assert_eq!(tokens_of("1 & 2"), vec![Token::Number(1), Token::Number(2)]);
    assert_eq!(tokens_of("1 | 2"), vec![Token::Number(1), Token::Number(2)]);
    assert_eq!(tokens_of("&"), vec![]);
    assert_eq!(tokens_of("&&&"), vec![Token::And]);
    assert_eq!(tokens_of("|||"), vec![Token::Or]);
}

#[test]
fn unknown_characters_are_dropped() {
    assert_eq!(tokens_of("1 @ # $ 2"), vec![Token::Number(1), Token::Number(2)]);
    assert_eq!(tokens_of("x\u{e9}y"), vec![Token::Ident("x".to_string()), Token::Ident("y".to_string())]);
}

#[test]
fn line_comment_runs_to_the_end_of_the_line() {
    assert_eq!(tokens_of("1 // two 2\n3"), vec![Token::Number(1), Token::Number(3)]);
    assert_eq!(tokens_of("1 // no line feed"), vec![Token::Number(1)]);
    assert_eq!(tokens_of("//"), vec![]);
}

#[test]
fn block_comment_ends_at_the_first_close() {
    assert_eq!(tokens_of("1 /* 2 */ 3"), vec![Token::Number(1), Token::Number(3)]);
    assert_eq!(tokens_of("/**/7"), vec![Token::Number(7)]);
    assert_eq!(tokens_of("/***/7"), vec![Token::Number(7)]);
    assert_eq!(tokens_of("/* a */ b */"), vec![
        Token::Ident("b".to_string()),
        Token::Multiplica,
        Token::Divide,
    ]);
    assert_eq!(tokens_of("/* line\nfeed */ 1"), vec![Token::Number(1)]);
}

#[test]
fn slash_alone_is_division() {
    assert_eq!(tokens_of("/"), vec![Token::Divide]);
    assert_eq!(tokens_of("6/3"), vec![Token::Number(6), Token::Divide, Token::Number(3)]);
}

#[test]
fn unterminated_block_comment_is_an_error() {
    assert_eq!(
        Lexer::nova_instancia("1 /* never").try_tokenize(),
        Err(LexError::UnterminatedComment(2))
    );
    assert_eq!(Lexer::nova_instancia("/*").try_tokenize(), Err(LexError::UnterminatedComment(0)));
    assert_eq!(Lexer::nova_instancia("/*/").try_tokenize(), Err(LexError::UnterminatedComment(0)));
    assert_eq!(
        Lexer::nova_instancia("/* a */ /* b *").try_tokenize(),
        Err(LexError::UnterminatedComment(8))
    );
}

#[test]
fn unterminated_comment_position_counts_characters() {
    assert_eq!(
        Lexer::nova_instancia("\u{e9}\u{e9} /*").try_tokenize(),
        Err(LexError::UnterminatedComment(3))
    );
}

#[test]
fn numbers_are_maximal_digit_runs() {
    assert_eq!(tokens_of("007"), vec![Token::Number(7)]);
    assert_eq!(tokens_of("12ab"), vec![Token::Number(12), Token::Ident("ab".to_string())]);
    assert_eq!(tokens_of("9223372036854775807"), vec![Token::Number(i64::MAX)]);
}

#[test]
fn numbers_wrap_around_at_64_bits() {
    assert_eq!(tokens_of("9223372036854775808"), vec![Token::Number(i64::MIN)]);
    assert_eq!(tokens_of("18446744073709551616"), vec![Token::Number(0)]);
    assert_eq!(tokens_of("18446744073709551617"), vec![Token::Number(1)]);
}

#[test]
fn identifiers_may_hold_digits_and_underscores() {
    assert_eq!(tokens_of("_x1 a_b2"), vec![
        Token::Ident("_x1".to_string()),
        Token::Ident("a_b2".to_string()),
    ]);
}

#[test]
fn keywords_are_whole_words() {
    assert_eq!(tokens_of("for"), vec![Token::For]);
    assert_eq!(tokens_of("form"), vec![Token::Ident("form".to_string())]);
    assert_eq!(tokens_of("If"), vec![Token::Ident("If".to_string())]);
    assert_eq!(tokens_of("inta"), vec![Token::Ident("inta".to_string())]);
    assert_eq!(tokens_of("in"), vec![Token::Ident("in".to_string())]);
}

#[test]
fn unicode_white_space_is_skipped() {
    assert_eq!(tokens_of("1\u{a0}2\u{2003}3\u{3000}4"), vec![
        Token::Number(1),
        Token::Number(2),
        Token::Number(3),
        Token::Number(4),
    ]);
}

#[test]
fn only_word_characters_join_two_letters() {
    for code in 0u32..0x3100 {
        if let Some(c) = char::from_u32(code) {
            let text = format!("a{}b", c);
            let tokens = tokens_of(&text);
            if c.is_ascii_alphanumeric() || c == '_' {
                assert_eq!(tokens, vec![Token::Ident(text.clone())]);
            } else {
                assert_eq!(tokens.first(), Some(&Token::Ident("a".to_string())));
                assert_eq!(tokens.last(), Some(&Token::Ident("b".to_string())));
                if c.is_whitespace() {
                    assert_eq!(tokens.len(), 2);
                }
            }
        }
    }
}

#[test]
fn next_token_steps_through_the_text() {
    let mut lexer = Lexer::nova_instancia("x = 1;");
    assert_eq!(lexer.proximo_token(), Ok(Some(Token::Ident("x".to_string()))));
    assert_eq!(lexer.proximo_token(), Ok(Some(Token::Assign)));
    assert_eq!(lexer.proximo_token(), Ok(Some(Token::Number(1))));
    assert_eq!(lexer.proximo_token(), Ok(Some(Token::PontoEVirgula)));
    assert_eq!(lexer.proximo_token(), Ok(None));
    assert_eq!(lexer.proximo_token(), Ok(None));
}

#[test]
fn tokenizing_continues_from_the_current_position() {
    let mut lexer = Lexer::nova_instancia("1 2 3");
    assert_eq!(lexer.proximo_token(), Ok(Some(Token::Number(1))));
    assert_eq!(lexer.tokenizador(), vec![Token::Number(2), Token::Number(3)]);
    assert_eq!(lexer.tokenizador(), vec![]);
}

#[test]
fn input_is_kept() {
    let lexer = Lexer::nova_instancia("int x");
    assert_eq!(lexer.input(), "int x");
}
