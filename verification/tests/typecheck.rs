use rusty_buggy_language::lexer::Lexer;
use rusty_buggy_language::parser::Parser;
use rusty_buggy_language::typecheck::check;
use rusty_buggy_language::Error;
fn check_source(input: &str) -> Result<(), Error> {
    let tokens = Lexer::new(input).tokenize()?;
    let program = Parser::new(&tokens).parse()?;
    check(&program)
}

fn check_error(input: &str) -> String {
    check_source(input).unwrap_err().to_string()
}

fn check_position(input: &str) -> (usize, usize) {
    let error = check_source(input).unwrap_err();
    error
        .position()
        .map(|position| (position.line, position.column))
        .unwrap_or((0, 0))
}

fn accepts(program: &str) {
    assert!(check_source(program).is_ok(), "program: {program}");
}

#[test]
fn accepts_well_typed_programs() {
    for program in [
        "1 + 2 * 3",
        "let x = 5; x < 10",
        "true && false || !true",
        "\"a\" + \"b\"",
        "let s = \"hi\"; s == \"hi\"",
        "let x = 5; if x > 3 { x * 2 } else { x }",
        "if true { \"a\" } else { \"b\" }",
        "let flag = true; if flag { 1 } else { 2 }",
        "if (if true { false } else { true }) { 1 } else { 2 }",
        "let x = 1; if true { let x = true; if x { 1 } else { 2 } } else { 3 }",
        "-(1 + 2) * -3",
    ] {
        check_source(program).expect(program);
    }
}

#[test]
fn rejects_mismatched_binary_operands() {
    assert_eq!(
        check_error("1 + true"),
        "type mismatch in '+': expected two integers or two strings, found integer and boolean"
    );
    assert_eq!(
        check_error("\"a\" + 1"),
        "type mismatch in '+': expected two integers or two strings, found string and integer"
    );
    assert_eq!(
        check_error("true && 1"),
        "type mismatch in '&&': expected two booleans, found boolean and integer"
    );
    assert_eq!(
        check_error("1 || true"),
        "type mismatch in '||': expected two booleans, found integer and boolean"
    );
    assert_eq!(
        check_error("1 < true"),
        "type mismatch in '<': expected two integers, found integer and boolean"
    );
    assert_eq!(
        check_error("\"a\" - 1"),
        "type mismatch in '-': expected two integers, found string and integer"
    );
    assert_eq!(
        check_error("1 / \"a\""),
        "type mismatch in '/': expected two integers, found integer and string"
    );
    assert_eq!(
        check_error("true % 2"),
        "type mismatch in '%': expected two integers, found boolean and integer"
    );
}

#[test]
fn rejects_mismatched_equality_operands() {
    assert_eq!(
        check_error("1 == \"a\""),
        "type mismatch in '==': expected two values of the same type, found integer and string"
    );
    assert_eq!(
        check_error("true != 1"),
        "type mismatch in '!=': expected two values of the same type, found boolean and integer"
    );
}

#[test]
fn rejects_mismatched_unary_operands() {
    assert_eq!(
        check_error("-true"),
        "type mismatch in '-': expected an integer, found boolean"
    );
    assert_eq!(check_error("!5"), "type mismatch in '!': expected a boolean, found integer");
    assert_eq!(
        check_error("!\"a\""),
        "type mismatch in '!': expected a boolean, found string"
    );
}

#[test]
fn rejects_non_boolean_if_conditions() {
    assert_eq!(
        check_error("if 1 { 2 } else { 3 }"),
        "if condition must be a boolean, found integer"
    );
    assert_eq!(
        check_error("if \"a\" { 2 } else { 3 }"),
        "if condition must be a boolean, found string"
    );
}

#[test]
fn rejects_mismatched_if_branches() {
    assert_eq!(
        check_error("if true { 1 } else { \"a\" }"),
        "if branches must have the same type, found integer and string"
    );
    assert_eq!(
        check_error("if true { true } else { 1 }"),
        "if branches must have the same type, found boolean and integer"
    );
}

#[test]
fn rejects_undefined_variables_with_a_position() {
    assert_eq!(check_error("missing + 1"), "undefined variable: 'missing'");
    assert_eq!(check_position("let x = missing; x"), (1, 9));
    assert_eq!(
        check_error("let first = second; let second = 2; first"),
        "undefined variable: 'second'"
    );
}

#[test]
fn comparisons_yield_booleans_and_feed_logical_operators() {
    accepts("1 < 2");
    accepts("(1 < 2) && (2 < 3)");
    assert_eq!(
        check_error("(1 < 2) * 5"),
        "type mismatch in '*': expected two integers, found boolean and integer"
    );
}

#[test]
fn string_concatenation_is_typed_as_string() {
    accepts("let s = \"a\" + \"b\"; s == \"ab\"");
    assert_eq!(
        check_error("(\"a\" + \"b\") * 2"),
        "type mismatch in '*': expected two integers, found string and integer"
    );
}

#[test]
fn type_errors_are_positioned() {
    assert_eq!(check_position("1 + true"), (1, 3));
    assert_eq!(check_position("!5"), (1, 1));
}

#[test]
fn shadowed_names_resolve_to_the_innermost_scope() {
    assert_eq!(
        check_error("let x = 1; if true { let x = true; x } else { x }"),
        "if branches must have the same type, found boolean and integer"
    );
    accepts("let x = 1; if true { let x = true; if x { 1 } else { 2 } } else { 3 }");
}

// --- Function inference ---

#[test]
fn infers_parameter_and_result_types_from_a_body() {
    accepts("fn sq(x) = { x * x }; sq(3)");
    accepts("fn abs(x) = { if x < 0 { -x } else { x } }; abs(-5)");
}

#[test]
fn infers_types_from_call_sites_when_the_body_is_pass_through() {
    // The parameter type of `id` is pinned by the top-level call.
    accepts("fn id(x) = { x }; id(5)");
    accepts("fn id(x) = { x }; id(\"hi\")");
}

#[test]
fn reasons_recursively() {
    accepts("fn fact(n) = { if n <= 1 { 1 } else { n * fact(n - 1) } }; fact(5)");
    accepts(
        "fn even(n) = { if n == 0 { true } else { odd(n - 1) } }; fn odd(n) = { if n == 0 { false } else { even(n - 1) } }; even(10)",
    );
}

#[test]
fn functions_can_return_blocks_with_local_declarations() {
    accepts("fn max(a, b) = { let big = if a > b { a } else { b }; big }; max(3, 7)");
}

#[test]
fn rejects_undefined_functions() {
    assert_eq!(check_error("missing(1)"), "undefined function: 'missing'");
    assert_eq!(check_position("let x = 1; goo(x)"), (1, 12));
}

#[test]
fn rejects_wrong_argument_counts() {
    assert_eq!(
        check_error("fn f(a, b) = { a + b }; f(1)"),
        "wrong number of arguments for function 'f': expected 2, found 1"
    );
    assert_eq!(
        check_error("fn f(a) = { a }; f(1, 2)"),
        "wrong number of arguments for function 'f': expected 1, found 2"
    );
}

#[test]
fn rejects_call_site_type_mismatches() {
    assert_eq!(
        check_error("fn double(x) = { x * 2 }; double(true)"),
        "type mismatch in call to 'double': expected argument 1 to be integer, found boolean"
    );
    assert_eq!(
        check_error("fn takes_int(x) = { if x > 0 { x } else { 0 } }; takes_int(true)"),
        "type mismatch in call to 'takes_int': expected argument 1 to be integer, found boolean"
    );
}

#[test]
fn rejects_unresolvable_inference() {
    // A pass-through parameter with nothing to pin it cannot be inferred.
    assert!(check_error("fn id(x) = { x }; 1").contains("cannot infer"));
    // A never-called function whose parameters are only passed through is
    // ambiguous and must be rejected rather than silently defaulted.
    assert!(check_error("fn choose(a, b) = { if true { a } else { b } }; 1").contains("cannot infer"));
}


#[test]
fn addition_rejects_boolean_operands_before_evaluation() {
    assert_eq!(
        check_error("true + false"),
        "type mismatch in '+': expected two integers or two strings, found boolean and boolean"
    );
    assert_eq!(check_position("true + false"), (1, 6));
    assert_eq!(
        check_error("fn f(x) = { x + true }; 1"),
        "type mismatch in '+': expected two integers or two strings, found an unresolved type and boolean"
    );
    assert_eq!(
        rusty_buggy_language::evaluate("let b = 1 < 2; b + b").unwrap_err().to_string(),
        "type mismatch in '+': expected two integers or two strings, found boolean and boolean"
    );
}

#[test]
fn checked_programs_only_fail_on_arithmetic_and_limits() {
    let program = "fn half(n) = { n / 2 }; fn big(n) = { if n > 0 { n * 4611686018427387904 } else { 0 } }; let x = half(10); big(x)";
    assert!(check_source(program).is_ok());
    assert_eq!(
        rusty_buggy_language::evaluate(program).unwrap_err().to_string(),
        "integer multiplication overflow"
    );
    let fine = "fn half(n) = { n / 2 }; let x = half(10); x == 5";
    assert!(check_source(fine).is_ok());
    assert_eq!(rusty_buggy_language::evaluate(fine), Ok(rusty_buggy_language::Value::Bool(true)));
}

#[test]
fn builtin_results_have_their_fixed_types() {
    assert_eq!(
        check_error("len(\"a\") && true"),
        "type mismatch in '&&': expected two booleans, found integer and boolean"
    );
    assert_eq!(
        check_error("len(\"a\") + \"b\""),
        "type mismatch in '+': expected two integers or two strings, found integer and string"
    );
    assert_eq!(
        check_error("if true { len(\"a\") } else { \"x\" }"),
        "if branches must have the same type, found integer and string"
    );
    accepts("fn f(s) = { len(s) }; f(\"a\") + 1");
    accepts("string_to_bool(\"true\") && int_to_bool(bool_to_int(true))");
    assert_eq!(
        rusty_buggy_language::evaluate("fn f(s) = { len(s) }; f(\"abc\")"),
        Ok(rusty_buggy_language::Value::Int(3))
    );
}

#[test]
fn evaluation_reports_a_misused_builtin_result_only_when_it_is_reached() {
    // Evaluation accepts a program whose built-in result is used at another
    // type, and fails only if it evaluates that use.
    assert_eq!(
        rusty_buggy_language::evaluate("false && string_to_bool(\"x\") + 1 == 2"),
        Ok(rusty_buggy_language::Value::Bool(false))
    );
    assert_eq!(
        rusty_buggy_language::evaluate("int_to_string(1) + 1").unwrap_err().to_string(),
        "type mismatch in '+': expected two integers or two strings, found string and integer"
    );
}

#[test]
fn rebinding_a_parameter_is_resolved_differently_by_checker_and_evaluator() {
    let rebinding = "fn f(x) = { let x = \"s\"; x + 1 }; f(1)";
    assert!(check_source(rebinding).is_ok());
    assert_eq!(
        rusty_buggy_language::evaluate(rebinding).unwrap_err().to_string(),
        "type mismatch in '+': expected two integers or two strings, found string and integer"
    );
}
