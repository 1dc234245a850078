use rusty_buggy_language::expression::evaluate;
#[test]
fn expression_respects_operator_precedence() {
    assert_eq!(evaluate("1 + 2 * 3"), Ok(7));
}

#[test]
fn respects_parentheses() {
    assert_eq!(evaluate("(1 + 2) * 3"), Ok(9));
}

#[test]
fn subtraction_is_left_associative() {
    assert_eq!(evaluate("10 - 3 - 2"), Ok(5));
}

#[test]
fn division_is_left_associative() {
    assert_eq!(evaluate("20 / 5 / 2"), Ok(2));
}

#[test]
fn accepts_whitespace() {
    assert_eq!(evaluate(" \t12\n / 5 "), Ok(2));
}

#[test]
fn supports_negative_computed_results() {
    assert_eq!(evaluate("1 - 3 * 2"), Ok(-5));
}

#[test]
fn division_truncates_toward_zero() {
    assert_eq!(evaluate("0 - 7 / 3"), Ok(-2));
}

#[test]
fn expression_rejects_empty_input() {
    assert_eq!(evaluate("   "), Err("expression is empty".to_owned()));
}

#[test]
fn expression_rejects_malformed_syntax() {
    assert_eq!(
        evaluate("1 + * 2"),
        Err("expected an expression".to_owned())
    );
}

#[test]
fn expression_rejects_invalid_characters() {
    assert_eq!(
        evaluate("1 @ 2"),
        Err("unexpected character '@'".to_owned())
    );
}

#[test]
fn expression_rejects_unmatched_parentheses() {
    assert_eq!(evaluate("(1 + 2"), Err("unmatched '('".to_owned()));
    assert_eq!(evaluate("1 + 2)"), Err("unmatched ')'".to_owned()));
}

#[test]
fn expression_rejects_trailing_input() {
    assert_eq!(
        evaluate("1 2"),
        Err("unexpected trailing token: integer literal".to_owned())
    );
}

#[test]
fn expression_rejects_out_of_range_literals() {
    assert_eq!(
        evaluate("9223372036854775808"),
        Err("integer literal out of range".to_owned())
    );
}

#[test]
fn rejects_arithmetic_overflow() {
    assert_eq!(
        evaluate("9223372036854775807 + 1"),
        Err("integer addition overflow".to_owned())
    );
}

#[test]
fn rejects_signed_minimum_divided_by_negative_one() {
    assert_eq!(
        evaluate("0 - 9223372036854775807 - 1 / (0 - 1)"),
        Ok(-9223372036854775806)
    );
    assert_eq!(
        evaluate("(0 - 9223372036854775807 - 1) / (0 - 1)"),
        Err("integer division overflow".to_owned())
    );
}

#[test]
fn rejects_division_by_zero() {
    assert_eq!(evaluate("8 / (3 - 3)"), Err("division by zero".to_owned()));
}

#[test]
fn unary_negation_is_not_supported() {
    assert_eq!(evaluate("-1"), Err("expected an expression".to_owned()));
}

