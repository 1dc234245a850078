use rusty_buggy_language::ast::BinaryOperator;
use rusty_buggy_language::evaluator::evaluate;
use rusty_buggy_language::lexer::Lexer;
use rusty_buggy_language::parser::Parser;
use rusty_buggy_language::typecheck;
use rusty_buggy_language::typecheck::Function;
use rusty_buggy_language::{Error, SourcePosition, Value};
fn evaluate_source(input: &str) -> Result<Value, Error> {
    let tokens = Lexer::new(input).tokenize()?;
    let program = Parser::new(&tokens).parse()?;
    let functions = typecheck::resolve(&program)?;
    evaluate(&program, &functions)
}

fn integer(value: i64) -> Value {
    Value::Int(value)
}

fn boolean(value: bool) -> Value {
    Value::Bool(value)
}

fn string(value: &str) -> Value {
    Value::String(value.to_owned())
}

fn error_message(input: &str) -> String {
    evaluate_source(input).unwrap_err().to_string()
}

#[test]
fn evaluator_respects_operator_precedence() {
    assert_eq!(evaluate_source("1 + 2 * 3"), Ok(integer(7)));
    assert_eq!(evaluate_source("(1 + 2) * 3"), Ok(integer(9)));
    assert_eq!(evaluate_source("-2 * 3 + 4"), Ok(integer(-2)));
}

#[test]
fn preserves_associativity_and_whitespace_behavior() {
    assert_eq!(evaluate_source("10 - 3 - 2"), Ok(integer(5)));
    assert_eq!(evaluate_source("20 / 5 / 2"), Ok(integer(2)));
    assert_eq!(evaluate_source(" \t12\n / 5 "), Ok(integer(2)));
}

#[test]
fn evaluates_signed_values_and_checked_arithmetic() {
    assert_eq!(evaluate_source("1 - 3 * 2"), Ok(integer(-5)));
    assert_eq!(evaluate_source("0 - 7 / 3"), Ok(integer(-2)));
    assert_eq!(evaluate_source("-1"), Ok(integer(-1)));
    assert_eq!(evaluate_source("-(1 + 2)"), Ok(integer(-3)));
    assert_eq!(evaluate_source("3 * -2"), Ok(integer(-6)));
    assert_eq!(evaluate_source("-2 * -3"), Ok(integer(6)));
    assert_eq!(evaluate_source("--1"), Ok(integer(1)));
    assert_eq!(evaluate_source("---1"), Ok(integer(-1)));
}

#[test]
fn evaluates_comparisons_as_booleans() {
    assert_eq!(evaluate_source("1 < 2"), Ok(boolean(true)));
    assert_eq!(evaluate_source("2 < 1"), Ok(boolean(false)));
    assert_eq!(evaluate_source("2 <= 2"), Ok(boolean(true)));
    assert_eq!(evaluate_source("3 <= 2"), Ok(boolean(false)));
    assert_eq!(evaluate_source("2 > 1"), Ok(boolean(true)));
    assert_eq!(evaluate_source("1 > 2"), Ok(boolean(false)));
    assert_eq!(evaluate_source("2 >= 2"), Ok(boolean(true)));
    assert_eq!(evaluate_source("1 >= 2"), Ok(boolean(false)));
    assert_eq!(evaluate_source("2 == 2"), Ok(boolean(true)));
    assert_eq!(evaluate_source("2 == 3"), Ok(boolean(false)));
    assert_eq!(evaluate_source("2 != 3"), Ok(boolean(true)));
    assert_eq!(evaluate_source("2 != 2"), Ok(boolean(false)));
    assert_eq!(evaluate_source("1 + 2 < 2 * 2"), Ok(boolean(true)));
    assert_eq!(evaluate_source("10 - 3 >= 2 + 6"), Ok(boolean(false)));
    assert_eq!(evaluate_source("(1 < 2) == (2 < 3)"), Ok(boolean(true)));
    assert_eq!(evaluate_source("(1 < 2) == (2 > 3)"), Ok(boolean(false)));
}

#[test]
fn evaluates_boolean_literals_and_logical_operators() {
    assert_eq!(evaluate_source("true"), Ok(boolean(true)));
    assert_eq!(evaluate_source("false"), Ok(boolean(false)));
    assert_eq!(evaluate_source("!true"), Ok(boolean(false)));
    assert_eq!(evaluate_source("!!true"), Ok(boolean(true)));
    assert_eq!(evaluate_source("true && false"), Ok(boolean(false)));
    assert_eq!(evaluate_source("true && true"), Ok(boolean(true)));
    assert_eq!(evaluate_source("true || false"), Ok(boolean(true)));
    assert_eq!(evaluate_source("false || false"), Ok(boolean(false)));
    // && binds tighter than ||.
    assert_eq!(evaluate_source("true || false && false"), Ok(boolean(true)));
    assert_eq!(evaluate_source("1 < 2 && 3 < 4"), Ok(boolean(true)));
    assert_eq!(evaluate_source("1 < 2 && 4 < 3"), Ok(boolean(false)));
}

#[test]
fn logical_operators_short_circuit() {
    // The right side contains a division by zero that must never run.
    assert_eq!(
        evaluate_source("false && 8 / (3 - 3) == 1"),
        Ok(boolean(false))
    );
    assert_eq!(
        evaluate_source("true || 8 / (3 - 3) == 1"),
        Ok(boolean(true))
    );
    // The non-short-circuiting side still fails normally.
    assert_eq!(
        error_message("true && 8 / (3 - 3) == 1"),
        "division by zero"
    );
    assert_eq!(
        error_message("false || 8 / (3 - 3) == 1"),
        "division by zero"
    );
}

#[test]
fn evaluates_strings_and_concatenation() {
    assert_eq!(evaluate_source("\"hello\""), Ok(string("hello")));
    assert_eq!(
        evaluate_source("\"hello\" + \" \" + \"world\""),
        Ok(string("hello world"))
    );
    assert_eq!(
        evaluate_source("let s = \"a\" + \"b\"; s + \"c\""),
        Ok(string("abc"))
    );
    assert_eq!(
        evaluate_source(r#""line\nbreak\tend""#),
        Ok(string("line\nbreak\tend"))
    );
    assert_eq!(
        evaluate_source(r#""say \"hi\" and \\done""#),
        Ok(string("say \"hi\" and \\done"))
    );
}

#[test]
fn evaluates_string_equality() {
    assert_eq!(evaluate_source("\"a\" == \"a\""), Ok(boolean(true)));
    assert_eq!(evaluate_source("\"a\" == \"b\""), Ok(boolean(false)));
    assert_eq!(evaluate_source("\"a\" != \"b\""), Ok(boolean(true)));
    assert_eq!(
        evaluate_source("let s = \"hi\"; s == \"hi\""),
        Ok(boolean(true))
    );
    assert_eq!(evaluate_source("true == true"), Ok(boolean(true)));
    assert_eq!(evaluate_source("true != false"), Ok(boolean(true)));
}

#[test]
fn accepts_the_signed_minimum_literal() {
    assert_eq!(evaluate_source("-9223372036854775808"), Ok(integer(i64::MIN)));
    assert_eq!(evaluate_source("-(9223372036854775808)"), Ok(integer(i64::MIN)));
    assert_eq!(
        evaluate_source("0 - 9223372036854775807 - 1 / (0 - 1)"),
        Ok(integer(-9223372036854775806))
    );
}

#[test]
fn reports_evaluation_errors_without_changing_their_messages() {
    assert_eq!(
        evaluate_source("9223372036854775807 + 1")
            .unwrap_err()
            .to_string(),
        "integer addition overflow"
    );
    assert_eq!(
        evaluate_source("9223372036854775808")
            .unwrap_err()
            .to_string(),
        "integer literal out of range"
    );
    assert_eq!(
        evaluate_source("-9223372036854775809")
            .unwrap_err()
            .to_string(),
        "integer literal out of range"
    );
    assert_eq!(
        evaluate_source("8 / (3 - 3)").unwrap_err().to_string(),
        "division by zero"
    );
    assert_eq!(
        evaluate_source("--9223372036854775808")
            .unwrap_err()
            .to_string(),
        "integer negation overflow"
    );
    assert_eq!(
        evaluate_source("-9223372036854775808 / -1")
            .unwrap_err()
            .to_string(),
        "integer division overflow"
    );
    assert_eq!(
        evaluate_source("missing + 1").unwrap_err().to_string(),
        "undefined variable: 'missing'"
    );
    assert_eq!(
        evaluate_source("let first = second; let second = 2; first")
            .unwrap_err()
            .to_string(),
        "undefined variable: 'second'"
    );
}

#[test]
fn reports_type_errors_before_evaluation() {
    assert_eq!(
        evaluate_source("8 / (3 - 3) + true")
            .unwrap_err()
            .to_string(),
        "type mismatch in '+': expected two integers or two strings, found integer and boolean"
    );
}

#[test]
fn evaluator_defensively_rejects_ill_typed_programs_without_typechecking() {
    // The normal pipeline type-checks before evaluating, but the evaluator
    // must still report a clear error instead of panicking on any program
    // the parser accepts (the fuzz targets exercise exactly this). Bypass
    // the type checker here to cover those defensive paths.
    let parse_only = |source: &str| {
        let tokens = Lexer::new(source).tokenize().unwrap();
        Parser::new(&tokens).parse().unwrap()
    };
    let empty: Vec<Function> = Vec::new();

    for source in [
        "1 + true",
        "true - 1",
        "true * 1",
        "\"a\" * 2",
        "8 / true",
        "1 % \"a\"",
        "true < 1",
        "1 <= true",
        "true > 1",
        "1 >= true",
        "1 == true",
        "true != 1",
        "-true",
        "!5",
        "1 && true",
        "true && 1",
        "1 || true",
        // `true || 1` would short-circuit without evaluating the
        // ill-typed right operand, so use a false left side instead.
        "false || 1",
        "if 1 { 2 } else { 3 }",
    ] {
        let parsed = parse_only(source);
        let error = evaluate(&parsed, &empty).unwrap_err();
        let message = error.to_string();
        assert!(
            message.starts_with("type mismatch") || message.starts_with("if condition"),
            "source: {source}, message: {message}"
        );
    }
}

#[test]
fn evaluates_modulo_with_truncating_division_semantics() {
    assert_eq!(evaluate_source("10 % 3"), Ok(integer(1)));
    assert_eq!(evaluate_source("20 % 5"), Ok(integer(0)));
    assert_eq!(evaluate_source("-7 % 3"), Ok(integer(-1)));
    assert_eq!(evaluate_source("7 % -3"), Ok(integer(1)));
    assert_eq!(evaluate_source("-7 % -3"), Ok(integer(-1)));
}

#[test]
fn evaluates_modulo_at_multiplicative_precedence() {
    assert_eq!(evaluate_source("2 + 3 * 4 % 5"), Ok(integer(4)));
    assert_eq!(evaluate_source("(2 + 3) % 4"), Ok(integer(1)));
    assert_eq!(evaluate_source("17 % 5 * 2"), Ok(integer(4)));
    assert_eq!(evaluate_source("20 % 6 % 5"), Ok(integer(2)));
}

#[test]
fn evaluates_modulo_in_variable_declarations() {
    assert_eq!(
        evaluate_source("let a = 10; let b = a % 3; b + 1"),
        Ok(integer(2))
    );
}

#[test]
fn reports_modulo_errors_with_positions() {
    assert_eq!(
        evaluate_source("8 % (3 - 3)").unwrap_err().to_string(),
        "division by zero"
    );
    assert_eq!(
        evaluate_source("-9223372036854775808 % -1")
            .unwrap_err()
            .to_string(),
        "integer remainder overflow"
    );

    // The '%' operator sits at line 1, column 3 of "8 % (3 - 3)".
    let error = evaluate_source("8 % (3 - 3)").unwrap_err();
    assert_eq!(
        error.position(),
        Some(SourcePosition { line: 1, column: 3 })
    );
}

#[test]
fn evaluates_immutable_variables_in_order() {
    assert_eq!(
        evaluate_source("let rate = 20; let quantity = 5; rate * quantity"),
        Ok(integer(100))
    );
    assert_eq!(
        evaluate_source("let first = 2; let second = first + 3; second * 4"),
        Ok(integer(20))
    );
    assert_eq!(evaluate_source("let _value2 = 7; _value2"), Ok(integer(7)));
}

#[test]
fn evaluates_if_expressions() {
    assert_eq!(evaluate_source("if true { 10 } else { 20 }"), Ok(integer(10)));
    assert_eq!(evaluate_source("if false { 10 } else { 20 }"), Ok(integer(20)));
    assert_eq!(
        evaluate_source("if 1 < 2 { \"a\" } else { \"b\" }"),
        Ok(string("a"))
    );
    assert_eq!(
        evaluate_source("if true { true } else { false }"),
        Ok(boolean(true))
    );
    assert_eq!(
        evaluate_source("if true { 1 } else { 2 } + 100"),
        Ok(integer(101))
    );
}

#[test]
fn evaluates_nested_if_expressions() {
    assert_eq!(
        evaluate_source("if (if true { false } else { true }) { 1 } else { 2 }"),
        Ok(integer(2))
    );
    assert_eq!(
        evaluate_source("if 5 > 3 { if 2 > 1 { 1 } else { 2 } } else { 3 }"),
        Ok(integer(1))
    );
}

#[test]
fn evaluates_blocks_with_scoped_declarations() {
    assert_eq!(
        evaluate_source("if true { let bonus = 3; 10 + bonus } else { 10 }"),
        Ok(integer(13))
    );
    assert_eq!(
        evaluate_source("if true { let x = 1; let y = 2; x + y } else { 0 }"),
        Ok(integer(3))
    );
}

#[test]
fn blocks_shadow_outer_names_without_leaking() {
    assert_eq!(
        evaluate_source("let x = 1; if true { let x = 2; x } else { x }"),
        Ok(integer(2))
    );
    assert_eq!(
        evaluate_source("let x = 1; if false { let x = 2; x } else { x }"),
        Ok(integer(1))
    );
    assert_eq!(
        evaluate_source("let s = \"outer\"; if true { let s = \"inner\"; s } else { s }"),
        Ok(string("inner"))
    );
    // The shadowed declaration does not escape the block: the final `+ x`
    // still sees the outer x = 1, so the result is 3, not 4.
    assert_eq!(
        evaluate_source("let x = 1; (if true { let x = 2; x } else { x }) + x"),
        Ok(integer(3))
    );
}

#[test]
fn declarations_can_use_if_expressions() {
    assert_eq!(
        evaluate_source("let x = if true { 1 } else { 2 }; x * 3"),
        Ok(integer(3))
    );
    assert_eq!(
        evaluate_source(
            "let temperature = 32; let verdict = if temperature > 30 { \"hot\" } else { \"cold\" }; verdict"
        ),
        Ok(string("hot"))
    );
}

// --- Functions ---

#[test]
fn evaluates_simple_function_calls() {
    assert_eq!(evaluate_source("fn sq(x) = { x * x }; sq(5)"), Ok(integer(25)));
    assert_eq!(
        evaluate_source("fn inc(x) = { x + 1 }; inc(41)"),
        Ok(integer(42))
    );
}

#[test]
fn evaluates_multiple_parameters_and_blocks_with_locals() {
    assert_eq!(
        evaluate_source(
            "fn max(a, b) = { let big = if a > b { a } else { b }; big }; max(3, 7)"
        ),
        Ok(integer(7))
    );
    assert_eq!(
        evaluate_source("fn hypo(a) = { let ds = a * 2; ds + 1 }; hypo(10)"),
        Ok(integer(21))
    );
}

#[test]
fn functions_can_refer_to_other_functions() {
    assert_eq!(
        evaluate_source(
            "fn double(x) = { x + x }; fn quad(x) = { double(double(x)) }; quad(3)"
        ),
        Ok(integer(12))
    );
}

#[test]
fn evaluates_recursion() {
    assert_eq!(
        evaluate_source("fn fact(n) = { if n <= 1 { 1 } else { n * fact(n - 1) } }; fact(5)"),
        Ok(integer(120))
    );
    assert_eq!(
        evaluate_source(
            "fn fib(n) = { if n <= 1 { n } else { fib(n - 1) + fib(n - 2) } }; fib(10)"
        ),
        Ok(integer(55))
    );
}

#[test]
fn evaluates_mutual_recursion() {
    assert_eq!(
        evaluate_source(
            "fn even(n) = { if n == 0 { true } else { odd(n - 1) } }; fn odd(n) = { if n == 0 { false } else { even(n - 1) } }; even(10)"
        ),
        Ok(boolean(true))
    );
    assert_eq!(
        evaluate_source(
            "fn even(n) = { if n == 0 { true } else { odd(n - 1) } }; fn odd(n) = { if n == 0 { false } else { even(n - 1) } }; odd(10)"
        ),
        Ok(boolean(false))
    );
}

#[test]
fn parameters_are_scoped_to_the_body() {
    // A parameter must not leak into the top-level final expression.
    assert_eq!(
        error_message("fn f(x) = { x + 1 }; f(1) + x"),
        "undefined variable: 'x'"
    );
}

#[test]
fn infinite_recursion_reports_a_clear_error() {
    // A counting function that recurses deeper than the call-depth guard,
    // so the guard (not the terminal case) must fire. The program still
    // type-checks: `count(n)` is an integer.
    let source = "fn count(n) = { if n == 0 { n } else { count(n - 1) } }; count(2000)";
    assert_eq!(error_message(source), "call depth limit exceeded");
}

#[test]
fn evaluates_the_len_builtin_over_string_characters() {
    assert_eq!(evaluate_source("len(\"\")"), Ok(integer(0)));
    assert_eq!(evaluate_source("len(\"hello\")"), Ok(integer(5)));
    // len counts characters, not bytes: "héllo" is 5 chars over 6 bytes.
    assert_eq!(evaluate_source("len(\"héllo\")"), Ok(integer(5)));
}

#[test]
fn evaluates_the_int_to_string_builtin() {
    assert_eq!(evaluate_source("int_to_string(0)"), Ok(string("0")));
    assert_eq!(evaluate_source("int_to_string(42)"), Ok(string("42")));
    assert_eq!(evaluate_source("int_to_string(-5)"), Ok(string("-5")));
}

#[test]
fn evaluates_the_string_to_int_builtin() {
    assert_eq!(evaluate_source("string_to_int(\"0\")"), Ok(integer(0)));
    assert_eq!(evaluate_source("string_to_int(\"-7\")"), Ok(integer(-7)));
    // Leading zeros are accepted and normalized.
    assert_eq!(evaluate_source("string_to_int(\"007\")"), Ok(integer(7)));
    // The signed minimum fits even though its magnitude does not.
    assert_eq!(
        evaluate_source("string_to_int(\"-9223372036854775808\")"),
        Ok(integer(i64::MIN))
    );
}

#[test]
fn string_to_int_rejects_invalid_text() {
    for text in [
        "",
        "-",
        "+5",
        " 5",
        "5 ",
        "12.5",
        "abc",
        "9223372036854775808",
    ] {
        let source = format!("string_to_int(\"{text}\")");
        assert_eq!(
            error_message(&source),
            format!("invalid integer text: '{text}'"),
            "source: {source}"
        );
    }
}

#[test]
fn evaluates_the_bool_and_int_conversion_builtins() {
    assert_eq!(evaluate_source("bool_to_int(true)"), Ok(integer(1)));
    assert_eq!(evaluate_source("bool_to_int(false)"), Ok(integer(0)));
    assert_eq!(evaluate_source("int_to_bool(0)"), Ok(boolean(false)));
    assert_eq!(evaluate_source("int_to_bool(1)"), Ok(boolean(true)));
    // Any nonzero integer converts to true.
    assert_eq!(evaluate_source("int_to_bool(-2)"), Ok(boolean(true)));
}

#[test]
fn evaluates_string_ordering_comparisons() {
    assert_eq!(evaluate_source("\"abc\" < \"abd\""), Ok(boolean(true)));
    assert_eq!(evaluate_source("\"b\" > \"a\""), Ok(boolean(true)));
    // Equal strings compare false under strict ordering.
    assert_eq!(evaluate_source("\"a\" < \"a\""), Ok(boolean(false)));
    assert_eq!(evaluate_source("\"a\" <= \"a\""), Ok(boolean(true)));
    assert_eq!(evaluate_source("\"abd\" >= \"abc\""), Ok(boolean(true)));
}

#[test]
fn round_trips_integers_through_the_string_builtins() {
    assert_eq!(
        evaluate_source("string_to_int(int_to_string(-42))"),
        Ok(integer(-42))
    );
}


#[test]
fn deep_body_recursion_hits_the_evaluation_depth_guard() {
    let mut source = String::from("fn s()={");
    source.push_str(&"-".repeat(100));
    source.push_str("s()-8};s()-7");
    assert_eq!(error_message(&source), "program too deeply nested");
}

#[test]
fn issue_13_fuzz_crash_input_reports_a_clean_error() {
    let source = "fn\ns()={--------------------------------------------s()-8};s()-7";
    assert_eq!(error_message(source), "program too deeply nested");
}

#[test]
fn deep_if_block_recursion_hits_the_evaluation_depth_guard() {
    let mut source = String::from("fn s()={ if true { ");
    source.push_str(&"-".repeat(100));
    source.push_str("s()-8 } else { 0 } }; s()");
    assert_eq!(error_message(&source), "program too deeply nested");
}

fn binary_of(operator: BinaryOperator, left: Value, right: Value) -> Result<Value, String> {
    rusty_buggy_language::evaluator::binary(operator, left, right, None).map_err(|error| error.to_string())
}

#[test]
fn binary_operations_are_checked_and_typed() {
    assert_eq!(binary_of(BinaryOperator::Add, integer(2), integer(3)), Ok(integer(5)));
    assert_eq!(binary_of(BinaryOperator::Add, integer(i64::MAX), integer(1)), Err("integer addition overflow".to_owned()));
    assert_eq!(binary_of(BinaryOperator::Subtract, integer(i64::MIN), integer(1)), Err("integer subtraction overflow".to_owned()));
    assert_eq!(binary_of(BinaryOperator::Multiply, integer(i64::MAX), integer(2)), Err("integer multiplication overflow".to_owned()));
    assert_eq!(binary_of(BinaryOperator::Add, string("ab"), string("c")), Ok(string("abc")));
    assert_eq!(binary_of(BinaryOperator::Divide, integer(7), integer(0)), Err("division by zero".to_owned()));
    assert_eq!(binary_of(BinaryOperator::Remainder, integer(7), integer(0)), Err("division by zero".to_owned()));
    assert_eq!(binary_of(BinaryOperator::Divide, integer(i64::MIN), integer(-1)), Err("integer division overflow".to_owned()));
    assert_eq!(binary_of(BinaryOperator::Remainder, integer(i64::MIN), integer(-1)), Err("integer remainder overflow".to_owned()));
    assert_eq!(binary_of(BinaryOperator::Divide, integer(-7), integer(2)), Ok(integer(-3)));
    assert_eq!(binary_of(BinaryOperator::Remainder, integer(-7), integer(2)), Ok(integer(-1)));
    assert_eq!(binary_of(BinaryOperator::Remainder, integer(7), integer(-2)), Ok(integer(1)));
    assert_eq!(binary_of(BinaryOperator::Equal, string("a"), string("a")), Ok(boolean(true)));
    assert_eq!(binary_of(BinaryOperator::NotEqual, boolean(true), boolean(false)), Ok(boolean(true)));
    assert_eq!(
        binary_of(BinaryOperator::Equal, integer(1), boolean(true)),
        Err("type mismatch in '==': expected two values of the same type, found integer and boolean".to_owned())
    );
    let position = Some(SourcePosition { line: 2, column: 5 });
    let error = rusty_buggy_language::evaluator::binary(BinaryOperator::Divide, integer(1), integer(0), position).unwrap_err();
    assert_eq!(error.position(), position);
}

#[test]
fn expression_evaluation_leaves_the_environment_as_it_found_it() {
    let tokens = Lexer::new("fn f(n) = { let k = n * 2; k + 1 }; if true { let x = 5; f(x) } else { 0 }")
        .tokenize()
        .unwrap();
    let program = Parser::new(&tokens).parse().unwrap();
    let functions = typecheck::resolve(&program).unwrap();
    let mut env: Vec<(String, Value)> = vec![("outer".to_owned(), integer(1))];
    let result = rusty_buggy_language::evaluator::eval_expression(&program.expression, &functions, &mut env, 0, 0);
    assert_eq!(result, Ok(integer(11)));
    assert_eq!(env, vec![("outer".to_owned(), integer(1))]);
    let deep = rusty_buggy_language::evaluator::eval_expression(&program.expression, &functions, &mut env, 0, 5000);
    assert_eq!(deep.unwrap_err().to_string(), "program too deeply nested");
    assert_eq!(env, vec![("outer".to_owned(), integer(1))]);
}
