use mini_interpretador::{
    BinOp, Expected, Expr, Function, Lexer, LogicalOp, ParseError, Parser, Stmt, Token, UnaryOp,
};

fn get_statements<'a>(functions: &'a [Function], main_body: &'a [Stmt]) -> &'a [Stmt] {
    if !main_body.is_empty() {
        main_body
    } else if !functions.is_empty() {
        &functions[0].body
    } else {
        panic!("Sem statements encontrados na saída do parser")
    }
}

fn parse_text(input: &str) -> Result<(Vec<Function>, Vec<Stmt>), ParseError> {
    let tokens = Lexer::nova_instancia(input).try_tokenize().unwrap();
    Parser::new(tokens).try_parse()
}

/// The debug rendering of the only statement of `main`, whose body is `body`.
fn shape(body: &str) -> String {
    let (_, main_body) = parse_text(&format!("int main() {{ {} }}", body)).unwrap();
    assert_eq!(main_body.len(), 1);
    format!("{:?}", main_body[0])
}

fn error_of(input: &str) -> ParseError {
    parse_text(input).unwrap_err()
}

#[test]
fn test_debug_saida_parser() {
    let input = "int main() { return 42; }";
    let mut lexer = Lexer::nova_instancia(input);
    let tokens = lexer.tokenizador();
    println!("Tokens: {:?}", tokens);

    let mut parser = Parser::new(tokens);
    let (functions, main_body) = parser.parse();

    println!("Contagem de funções: {}", functions.len());
    println!("Contagem do corpo da função: {}", main_body.len());

    if !functions.is_empty() {
        println!("Primeira função: {:?}", functions[0]);
        println!("Tamanho do corpo da função: {}", functions[0].body.len());
    }

    if !main_body.is_empty() {
        println!("Corpo principal: {:?}", main_body);
    }

    assert!(true);
}

#[test]
fn test_parse_return_simples() {
    let input = "int main() { return 42; }";
    let mut lexer = Lexer::nova_instancia(input);
    let tokens = lexer.tokenizador();
    let mut parser = Parser::new(tokens);
    let (functions, main_body) = parser.parse();

    let statements = get_statements(&functions, &main_body);
    assert!(!statements.is_empty(), "É esperado ao menos um statement");

    match &statements[statements.len() - 1] {
        Stmt::Return(_) => {}
        other => panic!("Era esperado um return, mas obtivemos: {:?}", other),
    }
}

#[test]
fn test_parse_variavel_e_return() {
    let input = "int main() { int x = 42; return x; }";
    let mut lexer = Lexer::nova_instancia(input);
    let tokens = lexer.tokenizador();
    let mut parser = Parser::new(tokens);
    let (functions, main_body) = parser.parse();

    let statements = get_statements(&functions, &main_body);
    assert!(statements.len() >= 2, "Era esperado ao menos 2 statements (decl de variável + return)");

    let has_var_decl = statements.iter().any(|stmt| {
        matches!(stmt, Stmt::VarDecl { name, .. } if name == "x")
    });
    assert!(has_var_decl, "Era esperada declaração de variável pra 'x'");

    let has_return = statements.iter().any(|stmt| matches!(stmt, Stmt::Return(_)));
    assert!(has_return, "Era esperado um return");
}

#[test]
fn test_parse_funcao_com_params() {
    let input = "int soma(int a, int b) { return a + b; }";
    let mut lexer = Lexer::nova_instancia(input);
    let tokens = lexer.tokenizador();
    let mut parser = Parser::new(tokens);
    let (functions, _) = parser.parse();

    assert_eq!(functions.len(), 1);
    let func = &functions[0];
    assert_eq!(func.name, "soma");
    assert_eq!(func.params, vec!["a", "b"]);

    assert!(!func.body.is_empty(), "Corpo da função não devia ser vazio");
}

#[test]
fn test_parse_aritmetica_basica() {
    let input = "int main() { return 2 + 3; }";
    let mut lexer = Lexer::nova_instancia(input);
    let tokens = lexer.tokenizador();
    let mut parser = Parser::new(tokens);
    let (functions, main_body) = parser.parse();

    let statements = get_statements(&functions, &main_body);
    assert!(!statements.is_empty(), "Esperava-se ao menos 1 statement");

    if let Stmt::Return(_expr) = &statements[0] {
    } else {
        panic!("Esperava-se um return com uma expressão aritmética junto");
    }
}

#[test]
fn test_parse_multiplas_funcoes() {
    let input = r#"
        int soma(int a, int b) { return a + b; }
        int main() { return soma(1, 2); }
    "#;
    let mut lexer = Lexer::nova_instancia(input);
    let tokens = lexer.tokenizador();
    let mut parser = Parser::new(tokens);
    let (functions, _main_body) = parser.parse();

    assert!(!functions.is_empty(), "Esperava-se ao menos 1 função");

    let soma_func = functions.iter().find(|f| f.name == "soma");
    assert!(soma_func.is_some(), "Era esperada a função 'soma'");

    let soma = soma_func.unwrap();
    assert_eq!(soma.params.len(), 2, "soma só devia ter 2 parâMetros");
    assert!(!soma.body.is_empty(), "o corpo de soma não devia estar vazio");
}

#[test]
fn product_binds_tighter_than_sum() {
    let (_, main_body) = parse_text("int main() { return 2 + 3 * 4; }").unwrap();
    match &main_body[0] {
        Stmt::Return(Expr::Binary { op: BinOp::Add, lhs, rhs }) => {
            assert!(matches!(**lhs, Expr::Number(2)));
            match &**rhs {
                Expr::Binary { op: BinOp::Mul, lhs, rhs } => {
                    assert!(matches!(**lhs, Expr::Number(3)));
                    assert!(matches!(**rhs, Expr::Number(4)));
                }
                other => panic!("{:?}", other),
            }
        }
        other => panic!("{:?}", other),
    }
}

#[test]
fn subtraction_associates_to_the_left() {
    let (_, main_body) = parse_text("int main() { return 10 - 3 - 2; }").unwrap();
    match &main_body[0] {
        Stmt::Return(Expr::Binary { op: BinOp::Sub, lhs, rhs }) => {
            assert!(matches!(**rhs, Expr::Number(2)));
            match &**lhs {
                Expr::Binary { op: BinOp::Sub, lhs, rhs } => {
                    assert!(matches!(**lhs, Expr::Number(10)));
                    assert!(matches!(**rhs, Expr::Number(3)));
                }
                other => panic!("{:?}", other),
            }
        }
        other => panic!("{:?}", other),
    }
}

#[test]
fn every_level_of_precedence() {
    assert_eq!(
        shape("a || b && c == d < e + f * !g;"),
        "ExprStmt(Logical { op: Or, lhs: Var(\"a\"), rhs: Logical { op: And, lhs: Var(\"b\"), \
         rhs: Binary { op: Equal, lhs: Var(\"c\"), rhs: Binary { op: Less, lhs: Var(\"d\"), \
         rhs: Binary { op: Add, lhs: Var(\"e\"), rhs: Binary { op: Mul, lhs: Var(\"f\"), \
         rhs: Unary { op: Not, expr: Var(\"g\") } } } } } } })"
    );
}

#[test]
fn each_binary_operator() {
    let cases = [
        ("1 + 2;", "Add"),
        ("1 - 2;", "Sub"),
        ("1 * 2;", "Mul"),
        ("1 / 2;", "Div"),
        ("1 == 2;", "Equal"),
        ("1 != 2;", "NotEqual"),
        ("1 > 2;", "Greater"),
        ("1 >= 2;", "GreaterEqual"),
        ("1 < 2;", "Less"),
        ("1 <= 2;", "LessEqual"),
    ];
    for (text, op) in cases {
        assert_eq!(shape(text), format!("ExprStmt(Binary {{ op: {}, lhs: Number(1), rhs: Number(2) }})", op));
    }
    assert_eq!(shape("1 && 2;"), "ExprStmt(Logical { op: And, lhs: Number(1), rhs: Number(2) })");
    assert_eq!(shape("1 || 2;"), "ExprStmt(Logical { op: Or, lhs: Number(1), rhs: Number(2) })");
}

#[test]
fn every_level_associates_to_the_left() {
    assert_eq!(
        shape("8 / 4 / 2;"),
        "ExprStmt(Binary { op: Div, lhs: Binary { op: Div, lhs: Number(8), rhs: Number(4) }, rhs: Number(2) })"
    );
    assert_eq!(
        shape("a || b || c;"),
        "ExprStmt(Logical { op: Or, lhs: Logical { op: Or, lhs: Var(\"a\"), rhs: Var(\"b\") }, rhs: Var(\"c\") })"
    );
    assert_eq!(
        shape("1 < 2 < 3;"),
        "ExprStmt(Binary { op: Less, lhs: Binary { op: Less, lhs: Number(1), rhs: Number(2) }, rhs: Number(3) })"
    );
}

#[test]
fn parentheses_override_precedence() {
    assert_eq!(
        shape("(2 + 3) * 4;"),
        "ExprStmt(Binary { op: Mul, lhs: Binary { op: Add, lhs: Number(2), rhs: Number(3) }, rhs: Number(4) })"
    );
    assert_eq!(shape("((7));"), "ExprStmt(Number(7))");
}

#[test]
fn unary_operators_nest() {
    assert_eq!(
        shape("!-x;"),
        "ExprStmt(Unary { op: Not, expr: Unary { op: Minus, expr: Var(\"x\") } })"
    );
    assert_eq!(
        shape("1 - -2;"),
        "ExprStmt(Binary { op: Sub, lhs: Number(1), rhs: Unary { op: Minus, expr: Number(2) } })"
    );
}

#[test]
fn calls_and_variables() {
    assert_eq!(shape("f();"), "ExprStmt(Call { name: \"f\", args: [] })");
    assert_eq!(shape("f(1);"), "ExprStmt(Call { name: \"f\", args: [Number(1)] })");
    assert_eq!(
        shape("f(1, g(x), 2 + 3);"),
        "ExprStmt(Call { name: \"f\", args: [Number(1), Call { name: \"g\", args: [Var(\"x\")] }, \
         Binary { op: Add, lhs: Number(2), rhs: Number(3) }] })"
    );
    assert_eq!(shape("x;"), "ExprStmt(Var(\"x\"))");
    assert_eq!(shape("true;"), "ExprStmt(Bool(true))");
    assert_eq!(shape("false;"), "ExprStmt(Bool(false))");
}

#[test]
fn statements_of_each_kind() {
    assert_eq!(shape("bool b = true;"), "VarDecl { name: \"b\", value: Bool(true) }");
    assert_eq!(shape("return 1;"), "Return(Number(1))");
    assert_eq!(
        shape("if (x) { return 1; }"),
        "If { condition: Var(\"x\"), then_branch: [Return(Number(1))], else_branch: None }"
    );
    assert_eq!(
        shape("if (x) { } else { 2; }"),
        "If { condition: Var(\"x\"), then_branch: [], else_branch: Some([ExprStmt(Number(2))]) }"
    );
    assert_eq!(
        shape("while (x < 3) { int x = x + 1; }"),
        "While { condition: Binary { op: Less, lhs: Var(\"x\"), rhs: Number(3) }, body: [VarDecl { \
         name: \"x\", value: Binary { op: Add, lhs: Var(\"x\"), rhs: Number(1) } }] }"
    );
}

#[test]
fn for_headers() {
    assert_eq!(
        shape("for (;;) { }"),
        "For { init: None, condition: None, update: None, body: [] }"
    );
    assert_eq!(
        shape("for (int i = 0; i < 3; i) { 1; }"),
        "For { init: Some(VarDecl { name: \"i\", value: Number(0) }), condition: Some(Binary { op: \
         Less, lhs: Var(\"i\"), rhs: Number(3) }), update: Some(Var(\"i\")), body: [ExprStmt(Number(1))] }"
    );
    assert_eq!(
        shape("for (i; ; f()) { }"),
        "For { init: Some(ExprStmt(Var(\"i\"))), condition: None, update: Some(Call { name: \"f\", \
         args: [] }), body: [] }"
    );
    // a statement that ends in a block brings no `;` of its own
    assert_eq!(
        shape("for (if (a) { } b; c) { }"),
        "For { init: Some(If { condition: Var(\"a\"), then_branch: [], else_branch: None }), \
         condition: Some(Var(\"b\")), update: Some(Var(\"c\")), body: [] }"
    );
}

#[test]
fn functions_keep_their_order_and_main_is_the_entry() {
    let (functions, main_body) = parse_text(
        "int a() { return 1; } bool b(bool x) { return x; } int main() { return a(); } int c() { }",
    )
    .unwrap();
    let names: Vec<&str> = functions.iter().map(|f| f.name.as_str()).collect();
    assert_eq!(names, vec!["a", "b", "c"]);
    assert_eq!(functions[1].params, vec!["x"]);
    assert_eq!(format!("{:?}", main_body), "[Return(Call { name: \"a\", args: [] })]");
}

#[test]
fn a_later_main_replaces_the_entry() {
    let (functions, main_body) =
        parse_text("int main() { return 1; } int main() { return 2; }").unwrap();
    assert!(functions.is_empty());
    assert_eq!(format!("{:?}", main_body), "[Return(Number(2))]");
}

#[test]
fn statements_after_main_join_the_entry() {
    let (functions, main_body) = parse_text("int main() { 1; } 2; return 3;").unwrap();
    assert!(functions.is_empty());
    assert_eq!(
        format!("{:?}", main_body),
        "[ExprStmt(Number(1)), ExprStmt(Number(2)), Return(Number(3))]"
    );
}

#[test]
fn tokens_before_the_entry_are_passed_over() {
    let (functions, main_body) = parse_text("; 1 + ) int f() { } } ( int main() { 1; }").unwrap();
    assert_eq!(functions.len(), 1);
    assert_eq!(functions[0].name, "f");
    assert_eq!(main_body.len(), 1);
}

#[test]
fn no_tokens_is_the_empty_program() {
    let (functions, main_body) = parse_text("").unwrap();
    assert!(functions.is_empty());
    assert!(main_body.is_empty());
    let (functions, main_body) = parse_text("1 2 3").unwrap();
    assert!(functions.is_empty());
    assert!(main_body.is_empty());
}

#[test]
fn each_expectation_that_fails() {
    let at = |expected, position| ParseError { expected, position };
    assert_eq!(error_of("int f"), at(Expected::OpenParen, 2));
    assert_eq!(error_of("int f(x"), at(Expected::ParamType, 3));
    assert_eq!(error_of("int f(int)"), at(Expected::ParamName, 4));
    assert_eq!(error_of("int f(int a"), at(Expected::CloseParen, 5));
    assert_eq!(error_of("int f(int a,)"), at(Expected::ParamType, 6));
    assert_eq!(error_of("int f() return"), at(Expected::OpenBrace, 4));
    assert_eq!(error_of("int f() { 1;"), at(Expected::CloseBrace, 7));
    assert_eq!(error_of("int main() { int = 1; }"), at(Expected::VariableName, 6));
    assert_eq!(error_of("int main() { int x 1; }"), at(Expected::Assign, 7));
    assert_eq!(error_of("int main() { int x = 1 }"), at(Expected::Semicolon, 9));
    assert_eq!(error_of("int main() { return; }"), at(Expected::Expression, 6));
    assert_eq!(error_of("int main() { return 1 + ; }"), at(Expected::Expression, 8));
    assert_eq!(error_of("int main() { if x { } }"), at(Expected::OpenParen, 6));
    assert_eq!(error_of("int main() { if (x { } }"), at(Expected::CloseParen, 8));
    assert_eq!(error_of("int main() { while (x) 1; }"), at(Expected::OpenBrace, 9));
    assert_eq!(error_of("int main() { for x; ; ) { } }"), at(Expected::OpenParen, 6));
    assert_eq!(error_of("int main() { for (; x ) { } }"), at(Expected::Semicolon, 9));
    assert_eq!(error_of("int main() { for (; ; x { } }"), at(Expected::CloseParen, 10));
    assert_eq!(error_of("int main() { f(1 2); }"), at(Expected::CloseParen, 8));
    assert_eq!(error_of("int main() { (1; }"), at(Expected::CloseParen, 7));
    assert_eq!(error_of("int main() { x = 1; }"), at(Expected::Semicolon, 6));
    assert_eq!(error_of("int main() { 1"), at(Expected::Semicolon, 6));
    assert_eq!(error_of("int main() { 1 +"), at(Expected::Expression, 7));
}

#[test]
fn a_declaration_shape_after_main_must_be_a_function() {
    // a type keyword and a name start a declaration wherever they stand
    assert_eq!(
        error_of("int main() { } int x = 1;"),
        ParseError { expected: Expected::OpenParen, position: 8 }
    );
}

#[test]
fn parsing_continues_from_the_current_position() {
    let tokens = vec![Token::Int, Token::Ident("main".to_string()), Token::AbrePar, Token::FechaPar,
        Token::AbreChave, Token::FechaChave];
    let mut parser = Parser::new(tokens);
    let (functions, main_body) = parser.parse();
    assert!(functions.is_empty());
    assert!(main_body.is_empty());
    let (functions, main_body) = parser.parse();
    assert!(functions.is_empty());
    assert!(main_body.is_empty());
}

#[test]
fn operators_are_data() {
    assert_eq!(BinOp::Add, BinOp::Add);
    assert_ne!(BinOp::Add, BinOp::Sub);
    assert_ne!(LogicalOp::And, LogicalOp::Or);
    assert_ne!(UnaryOp::Not, UnaryOp::Minus);
}

#[test]
fn a_function_alone() {
    let tokens = Lexer::nova_instancia("bool e(bool a, bool b) { return a && b; } resto").tokenizador();
    let mut parser = Parser::new(tokens);
    let f = parser.parse_function().unwrap();
    assert_eq!(f.name, "e");
    assert_eq!(f.params, vec!["a", "b"]);
    assert_eq!(
        format!("{:?}", f.body),
        "[Return(Logical { op: And, lhs: Var(\"a\"), rhs: Var(\"b\") })]"
    );
    // the parser stands at `resto`
    assert_eq!(format!("{:?}", parser.parse_expression().unwrap()), "Var(\"resto\")");
}

#[test]
fn a_function_needs_a_type_and_a_name() {
    let function_of = |text: &str| {
        Parser::new(Lexer::nova_instancia(text).tokenizador()).parse_function().unwrap_err()
    };
    assert_eq!(function_of("f() { }"), ParseError { expected: Expected::ReturnType, position: 0 });
    assert_eq!(function_of(""), ParseError { expected: Expected::ReturnType, position: 0 });
    assert_eq!(function_of("int () { }"), ParseError { expected: Expected::FunctionName, position: 1 });
    assert_eq!(function_of("int"), ParseError { expected: Expected::FunctionName, position: 1 });
}

#[test]
fn a_statement_or_a_block_alone() {
    let mut parser = Parser::new(Lexer::nova_instancia("int x = 1; { x; return x; }").tokenizador());
    assert_eq!(
        format!("{:?}", parser.parse_statement().unwrap()),
        "VarDecl { name: \"x\", value: Number(1) }"
    );
    assert_eq!(
        format!("{:?}", parser.parse_block().unwrap()),
        "[ExprStmt(Var(\"x\")), Return(Var(\"x\"))]"
    );
    assert_eq!(
        parser.parse_statement().unwrap_err(),
        ParseError { expected: Expected::Expression, position: 12 }
    );
}

#[test]
fn an_expression_stops_where_it_ends() {
    let mut parser = Parser::new(Lexer::nova_instancia("1 + 2 3").tokenizador());
    assert_eq!(
        format!("{:?}", parser.parse_expression().unwrap()),
        "Binary { op: Add, lhs: Number(1), rhs: Number(2) }"
    );
    assert_eq!(format!("{:?}", parser.parse_expression().unwrap()), "Number(3)");
    assert_eq!(
        parser.parse_expression().unwrap_err(),
        ParseError { expected: Expected::Expression, position: 4 }
    );
}

#[test]
fn tokens_of_one_kind() {
    assert!(Token::Number(1).same_kind(&Token::Number(2)));
    assert!(Token::Ident("a".to_string()).same_kind(&Token::Ident("b".to_string())));
    assert!(Token::Int.same_kind(&Token::Int));
    assert!(Token::Virgula.same_kind(&Token::Virgula));
    assert!(!Token::Int.same_kind(&Token::Bool));
    assert!(!Token::Number(1).same_kind(&Token::Ident("a".to_string())));
    assert!(!Token::Less.same_kind(&Token::LessEqual));
}
