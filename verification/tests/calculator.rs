use rusty_buggy_language::expression::evaluate;

#[test]
fn calculator_reports_each_error_kind() {
    assert_eq!(evaluate(""), Err("expression is empty".to_owned()));
    assert_eq!(evaluate("()"), Err("unexpected ')'".to_owned()));
    assert_eq!(evaluate("+"), Err("expected an expression".to_owned()));
    assert_eq!(evaluate(")"), Err("unexpected ')'".to_owned()));
    assert_eq!(evaluate("(1"), Err("unmatched '('".to_owned()));
    assert_eq!(evaluate("1 +"), Err("expected an expression".to_owned()));
    assert_eq!(evaluate("2 3"), Err("unexpected trailing token: integer literal".to_owned()));
    assert_eq!(evaluate("2 ("), Err("unexpected trailing token: '('".to_owned()));
    assert_eq!(evaluate("2 x"), Err("unexpected character 'x'".to_owned()));
    assert_eq!(evaluate("-9223372036854775807 "), Err("expected an expression".to_owned()));
    assert_eq!(evaluate("0 - 9223372036854775807 - 2"), Err("integer subtraction overflow".to_owned()));
    assert_eq!(evaluate("3037000500 * 3037000500"), Err("integer multiplication overflow".to_owned()));
}

#[test]
fn calculator_evaluates_exact_values() {
    assert_eq!(evaluate("9223372036854775807"), Ok(i64::MAX));
    assert_eq!(evaluate("((2))*((3+4))"), Ok(14));
    assert_eq!(evaluate("7 / 2 * 2 + 7 - 7 / 2 * 2"), Ok(7));
    assert_eq!(evaluate("0 - 7 / 2"), Ok(-3));
}
