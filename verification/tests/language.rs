use rusty_buggy_language::lexer::Lexer;
use rusty_buggy_language::parser::Parser;
use rusty_buggy_language::typecheck::check;
use rusty_buggy_language::{evaluate, evaluate_with_limits, Error, Limits, SourcePosition, Value, DEFAULT_MAX_INPUT_BYTES};

fn message(source: &str) -> String {
    evaluate(source).unwrap_err().to_string()
}

fn check_message(source: &str) -> String {
    let tokens = Lexer::new(source).tokenize().unwrap();
    let program = Parser::new(&tokens).parse().unwrap();
    check(&program).unwrap_err().to_string()
}

fn parse_message(source: &str) -> String {
    let tokens = Lexer::new(source).tokenize().unwrap();
    Parser::new(&tokens).parse().unwrap_err().to_string()
}

#[test]
fn integers_round_trip_through_their_text() {
    for n in [0i64, 7, -7, 42, i64::MAX, i64::MIN, 1000000007] {
        let source = format!("string_to_int(int_to_string({}))", if n == i64::MIN {
            "-9223372036854775808".to_owned()
        } else {
            n.to_string()
        });
        assert_eq!(evaluate(&source), Ok(Value::Int(n)), "source: {source}");
    }
    assert_eq!(evaluate("int_to_string(-9223372036854775808)"), Ok(Value::String("-9223372036854775808".to_owned())));
}

#[test]
fn booleans_round_trip_through_their_text() {
    assert_eq!(evaluate("string_to_bool(bool_to_string(3 > 2))"), Ok(Value::Bool(true)));
    assert_eq!(evaluate("string_to_bool(bool_to_string(3 < 2))"), Ok(Value::Bool(false)));
    assert_eq!(evaluate("bool_to_string(false)"), Ok(Value::String("false".to_owned())));
    assert_eq!(message("string_to_bool(\"True\")"), "invalid boolean text: 'True'");
    assert_eq!(message("string_to_bool(\" 1\")"), "invalid boolean text: ' 1'");
}

#[test]
fn limits_that_admit_a_program_give_the_same_result() {
    let source = "let a = 10; let b = a * 3; b - 2";
    let exact = Limits { max_input_bytes: source.len() };
    let default = Limits { max_input_bytes: DEFAULT_MAX_INPUT_BYTES };
    assert_eq!(evaluate_with_limits(source, &exact), Ok(Value::Int(28)));
    assert_eq!(evaluate_with_limits(source, &default), evaluate_with_limits(source, &exact));
    assert_eq!(evaluate(source), evaluate_with_limits(source, &exact));
    let tight = Limits { max_input_bytes: source.len() - 1 };
    assert_eq!(
        evaluate_with_limits(source, &tight).unwrap_err().to_string(),
        "program is too large to evaluate"
    );
    assert_eq!(evaluate_with_limits(source, &tight).unwrap_err().position(), None);
}

#[test]
fn oversized_programs_are_refused_before_they_are_read() {
    let limits = Limits { max_input_bytes: 3 };
    assert_eq!(evaluate_with_limits("@@@@", &limits).unwrap_err().to_string(), "program is too large to evaluate");
    assert_eq!(evaluate_with_limits("@@@", &limits).unwrap_err().to_string(), "unexpected character '@'");
    let limits = Limits { max_input_bytes: 0 };
    assert_eq!(evaluate_with_limits("", &limits).unwrap_err().to_string(), "expression is empty");
    // Sizes count bytes: "é" is two bytes.
    let limits = Limits { max_input_bytes: 4 };
    assert_eq!(evaluate_with_limits("\"éé\"", &limits).unwrap_err().to_string(), "program is too large to evaluate");
}

#[test]
fn logical_operators_never_evaluate_a_decided_right_operand() {
    assert_eq!(message("false && missing_function(1) == 2"), "undefined function: 'missing_function'");
    assert_eq!(evaluate("false && 1 / 0 == 1"), Ok(Value::Bool(false)));
    assert_eq!(evaluate("true || 1 % 0 == 1"), Ok(Value::Bool(true)));
    assert_eq!(evaluate("false || true && false"), Ok(Value::Bool(false)));
    assert_eq!(evaluate("fn loop_forever(n) = { loop_forever(n) && true }; false && loop_forever(1)"), Ok(Value::Bool(false)));
}

#[test]
fn division_truncates_and_remainder_follows_the_dividend() {
    for (a, b) in [(7i64, 2i64), (-7, 2), (7, -2), (-7, -2), (0, 5), (6, 3), (-6, 3), (i64::MIN, 2), (i64::MAX, -1)] {
        let quotient = evaluate(&format!("{a} / {b}")).unwrap();
        let remainder = evaluate(&format!("{a} % {b}")).unwrap();
        let (Value::Int(q), Value::Int(r)) = (quotient, remainder) else {
            panic!("integers expected")
        };
        assert_eq!(q, a / b);
        assert_eq!(r, a % b);
        assert_eq!(a, b * q + r);
        assert!(r.abs() < b.abs());
        assert!(r == 0 || (r < 0) == (a < 0));
    }
    assert_eq!(message("-9223372036854775808 % -1"), "integer remainder overflow");
    assert_eq!(message("-9223372036854775808 / -1"), "integer division overflow");
}

#[test]
fn arithmetic_overflow_is_reported_per_operator() {
    assert_eq!(message("9223372036854775807 + 1"), "integer addition overflow");
    assert_eq!(message("-9223372036854775807 - 2"), "integer subtraction overflow");
    assert_eq!(message("4611686018427387904 * 2"), "integer multiplication overflow");
    assert_eq!(message("-(-9223372036854775807 - 1)"), "integer negation overflow");
}

#[test]
fn builtins_check_their_argument_counts_and_types() {
    assert_eq!(message("len(\"a\", \"b\")"), "wrong number of arguments for function 'len': expected 1, found 2");
    assert_eq!(message("int_to_bool()"), "wrong number of arguments for function 'int_to_bool': expected 1, found 0");
    assert_eq!(
        message("len(5)"),
        "type mismatch in call to 'len': expected argument 1 to be string, found integer"
    );
    assert_eq!(
        message("bool_to_int(\"x\")"),
        "type mismatch in call to 'bool_to_int': expected argument 1 to be boolean, found string"
    );
    assert_eq!(evaluate("len(\"héllo\") + 1"), Ok(Value::Int(6)));
    assert_eq!(evaluate("int_to_string(-12) + \"!\""), Ok(Value::String("-12!".to_owned())));
}

#[test]
fn builtin_names_cannot_be_declared() {
    assert_eq!(parse_message("fn len(s) = { 0 }; 1"), "duplicate function declaration: 'len'");
    assert_eq!(parse_message("fn string_to_bool(s) = { s }; 1"), "duplicate function declaration: 'string_to_bool'");
    assert_eq!(message("len"), "undefined variable: 'len'");
}

#[test]
fn function_declarations_are_checked_by_the_parser() {
    assert_eq!(parse_message("fn f(a) = { a }; fn f(b) = { b }; 1"), "duplicate function declaration: 'f'");
    assert_eq!(parse_message("fn f(a, a) = { a }; 1"), "duplicate parameter name in function 'f': 'a'");
    assert_eq!(parse_message("fn f a = { a }; 1"), "expected '(' after function name 'f'");
    assert_eq!(parse_message("fn f(1) = { 1 }; 1"), "expected a parameter name after '(' in function 'f'");
    assert_eq!(parse_message("fn f(a b) = { 1 }; 1"), "expected ',' or ')' in function 'f' parameter list");
    assert_eq!(parse_message("fn f(a) { a }; 1"), "expected '=' before the function body");
    assert_eq!(parse_message("fn f(a) = a; 1"), "expected a block for the function body");
    assert_eq!(parse_message("fn f(a) = { a } 1"), "expected ';' after declaration of function 'f'");
    assert_eq!(parse_message("fn (a) = { a }; 1"), "expected a function name after 'fn'");
    assert_eq!(parse_message("fn f(a) = { a }; f(1, )"), "expected an expression");
    assert_eq!(parse_message("fn f(a) = { a }; f(1,)"), "expected an expression");
    assert_eq!(
        evaluate("fn f(a) = { a }; f(1, )").unwrap_err().position(),
        Some(SourcePosition { line: 1, column: 23 })
    );
    assert_eq!(parse_message("f(, 1)"), "unexpected ',' in function call");
    assert_eq!(parse_message("f(1 2)"), "expected ',' or ')' in function call arguments");
    assert_eq!(parse_message("f(1,"), "unmatched '(' in function call");
    assert_eq!(parse_message("f(1"), "expected ',' or ')' in function call arguments");
}

#[test]
fn functions_without_parameters_are_called_with_none() {
    assert_eq!(evaluate("fn answer() = { 42 }; answer() + 1"), Ok(Value::Int(43)));
    assert_eq!(message("fn answer() = { 42 }; answer(1)"), "wrong number of arguments for function 'answer': expected 0, found 1");
}

#[test]
fn unconstrained_parameters_are_left_open_for_evaluation_but_rejected_by_the_checker() {
    let source = "fn first(a, b) = { a + 1 }; first(1, \"ignored\") + first(2, true)";
    assert_eq!(
        message(source),
        "type mismatch in call to 'first': expected argument 2 to be string, found boolean"
    );
    assert_eq!(evaluate("fn unused(x) = { 1 }; 2"), Ok(Value::Int(2)));
    assert_eq!(check_message("fn unused(x) = { 1 }; 2"), "cannot infer the type of parameter 'x' in function 'unused'");
    assert_eq!(check_message("fn id(x) = { x }; 1"), "cannot infer the type of parameter 'x' in function 'id'");
    assert_eq!(evaluate("fn id(x) = { x }; 1"), Ok(Value::Int(1)));
    assert_eq!(evaluate("fn id(x) = { x }; id(5) + 1"), Ok(Value::Int(6)));
}

#[test]
fn recursion_is_bounded_by_the_call_depth() {
    assert_eq!(evaluate("fn count(n) = { if n == 0 { 0 } else { 1 + count(n - 1) } }; count(100)"), Ok(Value::Int(100)));
    assert_eq!(message("fn count(n) = { if n == 0 { 0 } else { 1 + count(n - 1) } }; count(200)"), "call depth limit exceeded");
}

#[test]
fn string_ordering_is_lexicographic_by_character() {
    assert_eq!(evaluate("\"apple\" < \"banana\""), Ok(Value::Bool(true)));
    assert_eq!(evaluate("\"ab\" < \"abc\""), Ok(Value::Bool(true)));
    assert_eq!(evaluate("\"abc\" > \"ab\""), Ok(Value::Bool(true)));
    assert_eq!(evaluate("\"Z\" < \"a\""), Ok(Value::Bool(true)));
    assert_eq!(evaluate("\"é\" > \"z\""), Ok(Value::Bool(true)));
    assert_eq!(evaluate("\"\" <= \"\""), Ok(Value::Bool(true)));
    assert_eq!(message("true < false"), "type mismatch in '<': expected two integers, found boolean and boolean");
    assert_eq!(message("1 >= \"a\""), "type mismatch in '>=': expected two integers, found integer and string");
}

#[test]
fn type_errors_report_flows_by_name() {
    assert_eq!(message("if true { 1 } else { false }"), "if branches must have the same type, found integer and boolean");
    assert_eq!(message("!\"x\""), "type mismatch in '!': expected a boolean, found string");
    assert_eq!(message("-\"x\""), "type mismatch in '-': expected an integer, found string");
    assert_eq!(message("undefined(1)"), "undefined function: 'undefined'");
    assert_eq!(message("fn f(x) = { if x { 1 } else { 2 } }; f(1)"), "type mismatch in call to 'f': expected argument 1 to be boolean, found integer");
}

#[test]
fn errors_expose_message_and_position_separately() {
    let error: Error = evaluate("let x = 1;\nlet y = x + true;\ny").unwrap_err();
    assert_eq!(error.message(), "type mismatch in '+': expected two integers or two strings, found integer and boolean");
    assert_eq!(error.position().map(|p| (p.line, p.column)), Some((2, 11)));
}
