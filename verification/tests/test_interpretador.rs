use mini_interpretador::{
    run, run_within, Expected, Failure, Interpreter, LexError, Lexer, ParseError, Parser,
    RuntimeError, Value,
};

fn run_program(input: &str) -> Result<Value, RuntimeError> {
    let mut lexer = Lexer::nova_instancia(input);
    let tokens = lexer.tokenizador();
    let mut parser = Parser::new(tokens);
    let (functions, main_body) = parser.parse();
    let mut interpreter = Interpreter::new();
    interpreter.interpret(functions, main_body)
}

fn run_with_limits(input: &str, max_depth: u64, max_iterations: u64) -> Result<Value, RuntimeError> {
    let mut lexer = Lexer::nova_instancia(input);
    let tokens = lexer.tokenizador();
    let mut parser = Parser::new(tokens);
    let (functions, main_body) = parser.parse();
    let mut interpreter = Interpreter::with_limits(max_depth, max_iterations);
    interpreter.interpret(functions, main_body)
}

/// The value of `main`, whose body is `body`.
fn main_of(body: &str) -> Result<Value, RuntimeError> {
    run_program(&format!("int main() {{ {} }}", body))
}

#[test]
fn test_operacoes_aritmeticas() {
    let result = run_program("int main() { return 2 + 3 * 4; }").unwrap();
    if let Value::Number(n) = result {
        assert_eq!(n, 14);
    } else {
        panic!("Expected number result");
    }
}

#[test]
fn test_chamada_funcao() {
    let input = r#"
        int soma(int a, int b) { 
            return a + b; 
        }
        int main() { 
            return soma(5, 3); 
        }
    "#;

    let result = run_program(input).unwrap();
    if let Value::Number(n) = result {
        assert_eq!(n, 8);
    } else {
        panic!("Expected number result");
    }
}

#[test]
fn test_designacao_variavel() {
    let input = r#"
        int main() {
            int x = 10;
            int y = 20;
            return x + y;
        }
    "#;

    let result = run_program(input).unwrap();
    if let Value::Number(n) = result {
        assert_eq!(n, 30);
    } else {
        panic!("Expected number result");
    }
}

#[test]
fn test_execucao_condicional() {
    let input = r#"
        int main() {
            if (true) {
                return 42;
            } else {
                return 0;
            }
        }
    "#;

    let result = run_program(input).unwrap();
    if let Value::Number(n) = result {
        assert_eq!(n, 42);
    } else {
        panic!("Expected number result");
    }
}

#[test]
fn subtraction_is_left_associative() {
    assert_eq!(main_of("return 10 - 3 - 2;"), Ok(Value::Number(5)));
}

#[test]
fn division_rounds_toward_zero() {
    assert_eq!(main_of("return 7 / 2;"), Ok(Value::Number(3)));
    assert_eq!(main_of("return -7 / 2;"), Ok(Value::Number(-3)));
    assert_eq!(main_of("return 7 / -2;"), Ok(Value::Number(-3)));
    assert_eq!(main_of("return -7 / -2;"), Ok(Value::Number(3)));
    assert_eq!(main_of("return 0 / 5;"), Ok(Value::Number(0)));
}

#[test]
fn arithmetic_wraps_around() {
    assert_eq!(main_of("return 9223372036854775807 + 1;"), Ok(Value::Number(i64::MIN)));
    assert_eq!(main_of("return -9223372036854775807 - 2;"), Ok(Value::Number(i64::MAX)));
    assert_eq!(main_of("return 4611686018427387904 * 2;"), Ok(Value::Number(i64::MIN)));
    assert_eq!(main_of("return 4611686018427387904 * 4;"), Ok(Value::Number(0)));
    assert_eq!(main_of("int m = -9223372036854775807 - 1; return -m;"), Ok(Value::Number(i64::MIN)));
    assert_eq!(
        main_of("int m = -9223372036854775807 - 1; return m / -1;"),
        Ok(Value::Number(i64::MIN))
    );
}

#[test]
fn condition_takes_a_number_by_whether_it_is_zero() {
    assert_eq!(main_of("if (0) { return 1; } else { return 2; }"), Ok(Value::Number(2)));
    assert_eq!(main_of("if (1) { return 1; } else { return 2; }"), Ok(Value::Number(1)));
    assert_eq!(main_of("if (-5) { return 1; } else { return 2; }"), Ok(Value::Number(1)));
    assert_eq!(main_of("if (false) { return 1; } else { return 2; }"), Ok(Value::Number(2)));
}

#[test]
fn condition_takes_void_as_false() {
    let input = "int nada() { } int main() { if (nada()) { return 1; } else { return 2; } }";
    assert_eq!(run_program(input), Ok(Value::Number(2)));
}

#[test]
fn if_without_else_gives_void_when_false() {
    assert_eq!(main_of("if (false) { 1; }"), Ok(Value::Void));
    assert_eq!(main_of("if (true) { 1; }"), Ok(Value::Number(1)));
    assert_eq!(main_of("if (true) { }"), Ok(Value::Void));
}

#[test]
fn division_by_zero_is_an_error() {
    assert_eq!(main_of("return 5 / 0;"), Err(RuntimeError::DivisionByZero));
    assert_eq!(main_of("return 0 / 0;"), Err(RuntimeError::DivisionByZero));
    assert_eq!(main_of("int z = 0; return 1 + 2 / z;"), Err(RuntimeError::DivisionByZero));
}

#[test]
fn undefined_variable_is_named() {
    assert_eq!(main_of("return x;"), Err(RuntimeError::UndefinedVariable("x".to_string())));
    assert_eq!(
        main_of("int a = 1; return a + bee;"),
        Err(RuntimeError::UndefinedVariable("bee".to_string()))
    );
}

#[test]
fn undefined_function_is_named() {
    assert_eq!(main_of("return f(1);"), Err(RuntimeError::UndefinedFunction("f".to_string())));
}

#[test]
fn wrong_argument_count_reports_both_numbers() {
    let input = "int soma(int a, int b) { return a + b; } int main() { return soma(1); }";
    assert_eq!(
        run_program(input),
        Err(RuntimeError::WrongArgumentCount("soma".to_string(), 2, 1))
    );
    let input = "int um() { return 1; } int main() { return um(1, 2, 3); }";
    assert_eq!(run_program(input), Err(RuntimeError::WrongArgumentCount("um".to_string(), 0, 3)));
}

#[test]
fn argument_count_is_checked_before_the_arguments() {
    let input = "int soma(int a, int b) { return a + b; } int main() { return soma(x); }";
    assert_eq!(
        run_program(input),
        Err(RuntimeError::WrongArgumentCount("soma".to_string(), 2, 1))
    );
}

#[test]
fn type_mismatch_is_an_error() {
    assert_eq!(main_of("return true + 1;"), Err(RuntimeError::TypeMismatch));
    assert_eq!(main_of("return 1 - false;"), Err(RuntimeError::TypeMismatch));
    assert_eq!(main_of("return 1 < true;"), Err(RuntimeError::TypeMismatch));
    assert_eq!(main_of("return -true;"), Err(RuntimeError::TypeMismatch));
    assert_eq!(main_of("return true / 0;"), Err(RuntimeError::TypeMismatch));
    let input = "int nada() { } int main() { return nada() * 2; }";
    assert_eq!(run_program(input), Err(RuntimeError::TypeMismatch));
}

#[test]
fn equality_compares_any_two_values() {
    assert_eq!(main_of("return 1 == 1;"), Ok(Value::Bool(true)));
    assert_eq!(main_of("return 1 == 2;"), Ok(Value::Bool(false)));
    assert_eq!(main_of("return true == true;"), Ok(Value::Bool(true)));
    assert_eq!(main_of("return 1 == true;"), Ok(Value::Bool(false)));
    assert_eq!(main_of("return 0 == false;"), Ok(Value::Bool(false)));
    assert_eq!(main_of("return 1 != true;"), Ok(Value::Bool(true)));
    assert_eq!(main_of("return 3 != 3;"), Ok(Value::Bool(false)));
    let input = "int nada() { } int main() { return nada() == nada(); }";
    assert_eq!(run_program(input), Ok(Value::Bool(true)));
}

#[test]
fn ordering_compares_numbers() {
    assert_eq!(main_of("return 1 < 2;"), Ok(Value::Bool(true)));
    assert_eq!(main_of("return 2 < 2;"), Ok(Value::Bool(false)));
    assert_eq!(main_of("return 2 <= 2;"), Ok(Value::Bool(true)));
    assert_eq!(main_of("return 3 > 2;"), Ok(Value::Bool(true)));
    assert_eq!(main_of("return 2 > 2;"), Ok(Value::Bool(false)));
    assert_eq!(main_of("return 2 >= 2;"), Ok(Value::Bool(true)));
    assert_eq!(main_of("return -1 < 0;"), Ok(Value::Bool(true)));
}

#[test]
fn logical_operators_give_an_operand() {
    assert_eq!(main_of("return 0 && 5;"), Ok(Value::Number(0)));
    assert_eq!(main_of("return 3 && 5;"), Ok(Value::Number(5)));
    assert_eq!(main_of("return 3 || 5;"), Ok(Value::Number(3)));
    assert_eq!(main_of("return 0 || 5;"), Ok(Value::Number(5)));
    assert_eq!(main_of("return false || false;"), Ok(Value::Bool(false)));
    assert_eq!(main_of("return true && false;"), Ok(Value::Bool(false)));
}

#[test]
fn logical_operators_skip_the_right_operand() {
    assert_eq!(main_of("return false && x;"), Ok(Value::Bool(false)));
    assert_eq!(main_of("return true || 1 / 0;"), Ok(Value::Bool(true)));
    assert_eq!(main_of("return true && x;"), Err(RuntimeError::UndefinedVariable("x".to_string())));
    assert_eq!(main_of("return false || 1 / 0;"), Err(RuntimeError::DivisionByZero));
}

#[test]
fn binary_operators_evaluate_both_operands_left_first() {
    assert_eq!(main_of("return x + 1 / 0;"), Err(RuntimeError::UndefinedVariable("x".to_string())));
    assert_eq!(main_of("return 1 / 0 + x;"), Err(RuntimeError::DivisionByZero));
    assert_eq!(main_of("return true + x;"), Err(RuntimeError::UndefinedVariable("x".to_string())));
}

#[test]
fn not_negates_truth() {
    assert_eq!(main_of("return !true;"), Ok(Value::Bool(false)));
    assert_eq!(main_of("return !0;"), Ok(Value::Bool(true)));
    assert_eq!(main_of("return !7;"), Ok(Value::Bool(false)));
    assert_eq!(main_of("return !!7;"), Ok(Value::Bool(true)));
    assert_eq!(main_of("return -(3);"), Ok(Value::Number(-3)));
}

#[test]
fn for_loop_sums_one_to_five() {
    let input = r#"
        int main() {
            int soma = 0;
            for (int i = 1; i <= 5; i) {
                int soma = soma + i;
                int i = i + 1;
            }
            return soma;
        }
    "#;
    assert_eq!(run_program(input), Ok(Value::Number(15)));
}

#[test]
fn loop_variables_stay_after_the_loop() {
    let input = r#"
        int main() {
            for (int i = 0; i < 3; i) {
                int dentro = i * 10;
                int i = i + 1;
            }
            return dentro + i;
        }
    "#;
    assert_eq!(run_program(input), Ok(Value::Number(23)));
}

#[test]
fn while_loop_counts() {
    let input = "int main() { int n = 0; while (n < 10) { int n = n + 1; } return n; }";
    assert_eq!(run_program(input), Ok(Value::Number(10)));
}

#[test]
fn loop_value_is_that_of_its_last_pass() {
    assert_eq!(main_of("int n = 0; while (n < 3) { int n = n + 1; n * 2; }"), Ok(Value::Number(6)));
    assert_eq!(main_of("while (false) { 1; }"), Ok(Value::Void));
    assert_eq!(main_of("for (int i = 0; i < 0; i) { 1; }"), Ok(Value::Void));
}

#[test]
fn return_leaves_a_loop_and_the_function() {
    let input = r#"
        int primeiro(int limite) {
            int n = 0;
            while (true) {
                if (n * n > limite) { return n; }
                int n = n + 1;
            }
            return 0 - 1;
        }
        int main() { return primeiro(50); }
    "#;
    assert_eq!(run_program(input), Ok(Value::Number(8)));
}

#[test]
fn return_inside_a_block_ends_the_function() {
    assert_eq!(main_of("if (true) { return 1; } return 2;"), Ok(Value::Number(1)));
    assert_eq!(main_of("for (;;) { return 7; } return 2;"), Ok(Value::Number(7)));
}

#[test]
fn for_update_is_evaluated_after_each_pass() {
    let input = r#"
        int main() {
            int n = 0;
            for (int i = 0; i < 3; 1 / (2 - i)) {
                int n = n + 1;
                int i = i + 1;
            }
            return n;
        }
    "#;
    assert_eq!(run_program(input), Err(RuntimeError::DivisionByZero));
}

#[test]
fn for_without_header_parts() {
    let input = "int main() { int i = 0; for (;;) { int i = i + 1; if (i == 4) { return i; } } }";
    assert_eq!(run_program(input), Ok(Value::Number(4)));
}

#[test]
fn empty_program_gives_void() {
    assert_eq!(run_program(""), Ok(Value::Void));
    assert_eq!(main_of(""), Ok(Value::Void));
}

#[test]
fn value_is_that_of_the_last_statement() {
    assert_eq!(main_of("1; 2; 3;"), Ok(Value::Number(3)));
    assert_eq!(main_of("int x = 9;"), Ok(Value::Number(9)));
    assert_eq!(main_of("1; true;"), Ok(Value::Bool(true)));
}

#[test]
fn function_value_without_return_is_that_of_its_last_statement() {
    let input = "int f(int a) { a * 2; } int main() { return f(21); }";
    assert_eq!(run_program(input), Ok(Value::Number(42)));
}

#[test]
fn callee_does_not_see_the_caller_variables() {
    let input = "int f() { return x; } int main() { int x = 1; return f(); }";
    assert_eq!(run_program(input), Err(RuntimeError::UndefinedVariable("x".to_string())));
}

#[test]
fn call_leaves_the_caller_variables_as_they_were() {
    let input = r#"
        int f(int x) { int x = x + 100; int y = 7; return x; }
        int main() {
            int x = 1;
            int r = f(5);
            return x * 1000 + r;
        }
    "#;
    assert_eq!(run_program(input), Ok(Value::Number(1105)));
    let input = "int f(int x) { int y = 7; return x; } int main() { f(5); return y; }";
    assert_eq!(run_program(input), Err(RuntimeError::UndefinedVariable("y".to_string())));
}

#[test]
fn one_call_leaks_nothing_into_the_next() {
    let input = r#"
        int f(int a) { if (a == 1) { int segredo = 99; } return segredo; }
        int main() { f(1); return f(2); }
    "#;
    assert_eq!(run_program(input), Err(RuntimeError::UndefinedVariable("segredo".to_string())));
    let input = r#"
        int dobro(int a) { int t = a + a; return t; }
        int main() { int p = dobro(2); int q = dobro(10); return p * 100 + q; }
    "#;
    assert_eq!(run_program(input), Ok(Value::Number(420)));
}

#[test]
fn caller_variables_survive_a_failed_call() {
    let mut interpreter = Interpreter::new();
    let tokens = Lexer::nova_instancia("int f(int a) { return a / 0; } int main() { int x = 3; f(1); }")
        .tokenizador();
    let (functions, main_body) = Parser::new(tokens).parse();
    assert_eq!(interpreter.interpret(functions, main_body), Err(RuntimeError::DivisionByZero));
    let tokens = Lexer::nova_instancia("int main() { return x; }").tokenizador();
    let (functions, main_body) = Parser::new(tokens).parse();
    assert_eq!(interpreter.interpret(functions, main_body), Ok(Value::Number(3)));
}

#[test]
fn arguments_are_evaluated_left_to_right() {
    let input = "int f(int a, int b) { return a; } int main() { return f(x, 1 / 0); }";
    assert_eq!(run_program(input), Err(RuntimeError::UndefinedVariable("x".to_string())));
    let input = "int f(int a, int b) { return a; } int main() { return f(1 / 0, x); }";
    assert_eq!(run_program(input), Err(RuntimeError::DivisionByZero));
}

#[test]
fn of_two_parameters_of_one_name_the_later_stays() {
    let input = "int f(int a, int a) { return a; } int main() { return f(1, 2); }";
    assert_eq!(run_program(input), Ok(Value::Number(2)));
}

#[test]
fn of_two_functions_of_one_name_the_later_stays() {
    let input = "int f() { return 1; } int f() { return 2; } int main() { return f(); }";
    assert_eq!(run_program(input), Ok(Value::Number(2)));
}

#[test]
fn recursion_works() {
    let input = r#"
        int fat(int n) { if (n <= 1) { return 1; } return n * fat(n - 1); }
        int main() { return fat(10); }
    "#;
    assert_eq!(run_program(input), Ok(Value::Number(3628800)));
    let input = r#"
        int fib(int n) { if (n < 2) { return n; } return fib(n - 1) + fib(n - 2); }
        int main() { return fib(15); }
    "#;
    assert_eq!(run_program(input), Ok(Value::Number(610)));
}

#[test]
fn endless_recursion_is_an_error() {
    let input = "int f(int n) { return f(n + 1); } int main() { return f(0); }";
    assert_eq!(run_program(input), Err(RuntimeError::DepthLimit));
}

#[test]
fn depth_limit_counts_nested_calls() {
    let input = r#"
        int desce(int n) { if (n == 0) { return 0; } return 1 + desce(n - 1); }
        int main() { return desce(4); }
    "#;
    // desce(4) nests five calls
    assert_eq!(run_with_limits(input, 5, 10), Ok(Value::Number(4)));
    assert_eq!(run_with_limits(input, 4, 10), Err(RuntimeError::DepthLimit));
    assert_eq!(run_with_limits(input, 0, 10), Err(RuntimeError::DepthLimit));
    assert_eq!(run_with_limits("int main() { return 1; }", 0, 0), Ok(Value::Number(1)));
}

#[test]
fn depth_limit_does_not_count_calls_in_sequence() {
    let input = "int um() { return 1; } int main() { return um() + um() + um() + um(); }";
    assert_eq!(run_with_limits(input, 1, 0), Ok(Value::Number(4)));
}

#[test]
fn iteration_limit_counts_the_passes_of_one_loop() {
    let input = "int main() { int n = 0; while (n < 3) { int n = n + 1; } return n; }";
    assert_eq!(run_with_limits(input, 1, 3), Ok(Value::Number(3)));
    assert_eq!(run_with_limits(input, 1, 2), Err(RuntimeError::IterationLimit));
    assert_eq!(run_with_limits("int main() { while (false) { } return 1; }", 1, 0), Ok(Value::Number(1)));
    assert_eq!(run_with_limits("int main() { for (;;) { } }", 1, 1000), Err(RuntimeError::IterationLimit));
}

#[test]
fn iteration_limit_is_per_loop() {
    let input = r#"
        int main() {
            int total = 0;
            for (int i = 0; i < 3; i) {
                for (int j = 0; j < 3; j) { int total = total + 1; int j = j + 1; }
                int i = i + 1;
            }
            while (total < 12) { int total = total + 1; }
            return total;
        }
    "#;
    assert_eq!(run_with_limits(input, 1, 3), Ok(Value::Number(12)));
}

#[test]
fn interpreter_keeps_functions_and_variables_between_runs() {
    let mut interpreter = Interpreter::new();
    let tokens = Lexer::nova_instancia("int dobro(int a) { return a * 2; } int main() { int x = 4; }")
        .tokenizador();
    let (functions, main_body) = Parser::new(tokens).parse();
    assert_eq!(interpreter.interpret(functions, main_body), Ok(Value::Number(4)));
    let tokens = Lexer::nova_instancia("int main() { return dobro(x); }").tokenizador();
    let (functions, main_body) = Parser::new(tokens).parse();
    assert_eq!(interpreter.interpret(functions, main_body), Ok(Value::Number(8)));
}

#[test]
fn values_know_their_truth_and_number() {
    assert!(Value::Number(2).is_truthy());
    assert!(!Value::Number(0).is_truthy());
    assert!(Value::Bool(true).is_truthy());
    assert!(!Value::Bool(false).is_truthy());
    assert!(!Value::Void.is_truthy());
    assert_eq!(Value::Number(5).as_number(), Some(5));
    assert_eq!(Value::Bool(true).as_number(), None);
    assert_eq!(Value::Void.as_number(), None);
    assert_ne!(Value::Number(1), Value::Bool(true));
    assert_ne!(Value::Number(0), Value::Void);
}

#[test]
fn text_to_value_in_one_call() {
    assert_eq!(run("int main() { return 2 + 3 * 4; }"), Ok(Value::Number(14)));
    assert_eq!(run(""), Ok(Value::Void));
    assert_eq!(run("int main() { /* "), Err(Failure::Lexical(LexError::UnterminatedComment(13))));
    assert_eq!(
        run("int main() { return ; }"),
        Err(Failure::Syntax(ParseError { expected: Expected::Expression, position: 6 }))
    );
    assert_eq!(run("int main() { return 1 / 0; }"), Err(Failure::Runtime(RuntimeError::DivisionByZero)));
    assert_eq!(
        run_within("int f() { return f(); } int main() { return f(); }", 3, 3),
        Err(Failure::Runtime(RuntimeError::DepthLimit))
    );
    assert_eq!(
        run_within("int um() { return 1; } int main() { return um(); }", 1, 0),
        Ok(Value::Number(1))
    );
}

#[test]
fn each_run_starts_with_no_variables_and_no_functions() {
    assert_eq!(run("int f() { return 1; } int main() { int x = f(); }"), Ok(Value::Number(1)));
    assert_eq!(
        run("int main() { return x; }"),
        Err(Failure::Runtime(RuntimeError::UndefinedVariable("x".to_string())))
    );
    assert_eq!(
        run("int main() { return f(); }"),
        Err(Failure::Runtime(RuntimeError::UndefinedFunction("f".to_string())))
    );
}

#[test]
fn failure_texts() {
    assert_eq!(
        Failure::Lexical(LexError::UnterminatedComment(0)).message(),
        "Comentário de bloco não fechado"
    );
    assert_eq!(
        Failure::Syntax(ParseError { expected: Expected::Semicolon, position: 3 }).message(),
        "Esperado ';'"
    );
    assert_eq!(Failure::Runtime(RuntimeError::DivisionByZero).message(), "Erro: Divisão por zero");
}

#[test]
fn larger_bounds_give_the_same_result() {
    let input = r#"
        int fat(int n) { if (n <= 1) { return 1; } return n * fat(n - 1); }
        int main() {
            int total = 0;
            for (int i = 1; i <= 6; i) { int total = total + fat(i); int i = i + 1; }
            return total;
        }
    "#;
    let small = run_within(input, 6, 6);
    assert_eq!(small, Ok(Value::Number(873)));
    for (depth, loops) in [(7, 6), (6, 7), (100, 100), (256, u64::MAX)] {
        assert_eq!(run_within(input, depth, loops), small);
    }
}
