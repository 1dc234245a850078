//! Properties of the language that hold for every input, stated over the
//! specifications that the implementation is proved against.

use vstd::prelude::*;

use crate::ast::{BinaryOperator, ExprView, Type};
use crate::builtins::Builtin;
use crate::error::{error_of, ErrorView};
use crate::semantics::{binary_value, builtin_value, eval_expr, in_i64, trunc_div, trunc_rem, Env, MAX_EVAL_DEPTH};
use crate::text::{chars_less, chars_less_from, int_text, lemma_int_text_round_trip};
use crate::typecheck_spec::ResolvedView;
use crate::{run, run_within, ValueView};

verus! {

/// `string_to_int(int_to_string(n))` is `n` for every integer `n`.
pub proof fn law_integer_text_round_trip(n: i64, position: Option<crate::error::SourcePosition>)
    ensures
        builtin_value(Builtin::IntToString, ValueView::Int(n), position) == Ok::<ValueView, crate::error::ErrorView>(
            ValueView::Str(int_text(n as int)),
        ),
        builtin_value(Builtin::StringToInt, ValueView::Str(int_text(n as int)), position) == Ok::<
            ValueView,
            crate::error::ErrorView,
        >(ValueView::Int(n)),
{
    lemma_int_text_round_trip(n);
}

/// `string_to_bool(bool_to_string(b))` is `b` for both booleans.
pub proof fn law_boolean_text_round_trip(b: bool, position: Option<crate::error::SourcePosition>)
    ensures
        builtin_value(Builtin::BoolToString, ValueView::Bool(b), position) matches Ok(ValueView::Str(text))
            && builtin_value(Builtin::StringToBool, ValueView::Str(text), position) == Ok::<
            ValueView,
            crate::error::ErrorView,
        >(ValueView::Bool(b)),
{
    reveal_strlit("true");
    reveal_strlit("false");
}

/// A limit only decides whether a program is read: any two limits that
/// admit a program give it the same result, the result of the program
/// without limits.
pub proof fn law_limits_do_not_change_semantics(text: Seq<char>, size: nat, first: nat, second: nat)
    requires
        size <= first,
        size <= second,
    ensures
        run_within(text, size, first) == run_within(text, size, second),
        run_within(text, size, first) == run(text),
{
}

/// A program longer than the limit is refused before it is read.
pub proof fn law_oversized_programs_are_refused(text: Seq<char>, size: nat, limit: nat)
    requires
        size > limit,
    ensures
        run_within(text, size, limit) == Err::<ValueView, crate::error::ErrorView>(
            error_of("program is too large to evaluate"@, None),
        ),
{
}

/// `&&` does not evaluate its right operand when the left one is `false`,
/// and `||` does not when the left one is `true`: whatever the right
/// operand, the result is the left operand's value.
pub proof fn law_logical_operators_short_circuit(
    left: ExprView,
    right: ExprView,
    position: Option<crate::error::SourcePosition>,
    env: Env,
    fns: Seq<ResolvedView>,
    calls: nat,
    depth: nat,
)
    requires
        depth + 1 <= MAX_EVAL_DEPTH,
    ensures
        eval_expr(left, env, fns, calls, depth + 1) == Ok::<ValueView, crate::error::ErrorView>(ValueView::Bool(false))
            ==> eval_expr(ExprView::LogicalAnd { left: Box::new(left), right: Box::new(right), position }, env, fns, calls, depth)
            == Ok::<ValueView, crate::error::ErrorView>(ValueView::Bool(false)),
        eval_expr(left, env, fns, calls, depth + 1) == Ok::<ValueView, crate::error::ErrorView>(ValueView::Bool(true))
            ==> eval_expr(ExprView::LogicalOr { left: Box::new(left), right: Box::new(right), position }, env, fns, calls, depth)
            == Ok::<ValueView, crate::error::ErrorView>(ValueView::Bool(true)),
{
}

/// Division truncates toward zero and `%` is its remainder: for a nonzero
/// divisor, `a == b * (a / b) + a % b`, the remainder is smaller than the
/// divisor in magnitude, and its sign follows the dividend.
pub proof fn law_truncating_division(a: int, b: int)
    requires
        b != 0,
    ensures
        a == b * trunc_div(a, b) + trunc_rem(a, b),
        (if trunc_rem(a, b) < 0 { -trunc_rem(a, b) } else { trunc_rem(a, b) }) < (if b < 0 { -b } else { b }),
        a >= 0 ==> trunc_rem(a, b) >= 0,
        a <= 0 ==> trunc_rem(a, b) <= 0,
        (a >= 0) == (b > 0) ==> trunc_div(a, b) >= 0,
        (a >= 0) != (b > 0) ==> trunc_div(a, b) <= 0,
{
    let x: int = if a < 0 { -a } else { a };
    let y: int = if b < 0 { -b } else { b };
    assert(x == y * (x / y) + x % y && 0 <= x % y < y && x / y >= 0) by (nonlinear_arith)
        requires
            x >= 0,
            y > 0,
    ;
    if a < 0 {
        if b < 0 {
            assert(a == b * (x / y) - x % y) by (nonlinear_arith)
                requires
                    x == -a,
                    y == -b,
                    x == y * (x / y) + x % y,
            ;
        } else {
            assert(a == b * -(x / y) - x % y) by (nonlinear_arith)
                requires
                    x == -a,
                    y == b,
                    x == y * (x / y) + x % y,
            ;
        }
    } else {
        if b < 0 {
            assert(a == b * -(x / y) + x % y) by (nonlinear_arith)
                requires
                    x == a,
                    y == -b,
                    x == y * (x / y) + x % y,
            ;
        } else {
            assert(a == b * (x / y) + x % y);
        }
    }
}



/// Comparisons produce real booleans: an ordering or equality comparison of
/// two values either fails or yields a boolean.
pub proof fn law_comparisons_yield_booleans(
    operator: crate::ast::BinaryOperator,
    left: ValueView,
    right: ValueView,
    position: Option<crate::error::SourcePosition>,
)
    requires
        operator != crate::ast::BinaryOperator::Add,
        operator != crate::ast::BinaryOperator::Subtract,
        operator != crate::ast::BinaryOperator::Multiply,
        operator != crate::ast::BinaryOperator::Divide,
        operator != crate::ast::BinaryOperator::Remainder,
    ensures
        crate::semantics::binary_value(operator, left, right, position) is Err
            || crate::semantics::binary_value(operator, left, right, position) matches Ok(ValueView::Bool(_)),
{
}

/// Two values of the same type compare equal exactly when they are the same
/// value, and `!=` is the negation of `==`.
pub proof fn law_equality_is_value_equality(left: ValueView, right: ValueView, position: Option<crate::error::SourcePosition>)
    requires
        crate::semantics::value_type(left) == crate::semantics::value_type(right),
    ensures
        crate::semantics::binary_value(crate::ast::BinaryOperator::Equal, left, right, position) == Ok::<
            ValueView,
            crate::error::ErrorView,
        >(ValueView::Bool(left == right)),
        crate::semantics::binary_value(crate::ast::BinaryOperator::NotEqual, left, right, position) == Ok::<
            ValueView,
            crate::error::ErrorView,
        >(ValueView::Bool(left != right)),
{
}



proof fn lemma_order_irreflexive(a: Seq<char>, i: nat)
    ensures
        !chars_less_from(a, a, i),
    decreases a.len() - i,
{
    if i < a.len() {
        lemma_order_irreflexive(a, i + 1);
    }
}

proof fn lemma_order_asymmetric(a: Seq<char>, b: Seq<char>, i: nat)
    ensures
        chars_less_from(a, b, i) ==> !chars_less_from(b, a, i),
    decreases a.len() - i,
{
    if i < a.len() && i < b.len() && a[i as int] == b[i as int] {
        lemma_order_asymmetric(a, b, i + 1);
    }
}

proof fn lemma_order_total(a: Seq<char>, b: Seq<char>, i: nat)
    requires
        i <= a.len(),
        i <= b.len(),
    ensures
        chars_less_from(a, b, i) || chars_less_from(b, a, i) || (a.len() == b.len() && forall|k: int|
            i <= k < a.len() ==> a[k] == b[k]),
    decreases a.len() - i,
{
    if i < a.len() && i < b.len() && a[i as int] == b[i as int] {
        lemma_order_total(a, b, i + 1);
        if !chars_less_from(a, b, i) && !chars_less_from(b, a, i) {
            assert forall|k: int| i <= k < a.len() implies a[k] == b[k] by {
                if k > i {
                    assert(i + 1 <= k);
                }
            }
        }
    } else if i < a.len() && i < b.len() {
        vstd::utf8::char_u32_cast(a[i as int], a[i as int] as u32);
        vstd::utf8::char_u32_cast(b[i as int], b[i as int] as u32);
    }
}

proof fn lemma_order_transitive(a: Seq<char>, b: Seq<char>, c: Seq<char>, i: nat)
    ensures
        chars_less_from(a, b, i) && chars_less_from(b, c, i) ==> chars_less_from(a, c, i),
    decreases a.len() - i,
{
    if i < a.len() && i < b.len() && i < c.len() && a[i as int] == b[i as int] && b[i as int] == c[i as int] {
        lemma_order_transitive(a, b, c, i + 1);
    }
}

/// Strings are ordered lexicographically by character: the order is
/// irreflexive, asymmetric, total on distinct strings, and transitive.
pub proof fn law_string_order_is_strict_and_total(a: Seq<char>, b: Seq<char>, c: Seq<char>)
    ensures
        !chars_less(a, a),
        chars_less(a, b) ==> !chars_less(b, a),
        a != b ==> chars_less(a, b) || chars_less(b, a),
        chars_less(a, b) && chars_less(b, c) ==> chars_less(a, c),
{
    lemma_order_irreflexive(a, 0);
    lemma_order_asymmetric(a, b, 0);
    lemma_order_total(a, b, 0);
    lemma_order_transitive(a, b, c, 0);
    if a != b && !chars_less(a, b) && !chars_less(b, a) {
        assert(a =~= b);
    }
}


/// Integer arithmetic is checked: `+`, `-` and `*` give the exact result when
/// it fits in 64 bits and an overflow error otherwise; `/` and `%` give the
/// truncated quotient and its remainder, and fail exactly on a zero divisor
/// and on the minimum integer divided by `-1`.
pub proof fn law_integer_arithmetic_is_checked(a: i64, b: i64, position: Option<crate::error::SourcePosition>)
    ensures
        binary_value(BinaryOperator::Add, ValueView::Int(a), ValueView::Int(b), position) == (if in_i64(a + b) {
            Ok::<ValueView, ErrorView>(ValueView::Int((a + b) as i64))
        } else {
            Err(error_of("integer addition overflow"@, position))
        }),
        binary_value(BinaryOperator::Subtract, ValueView::Int(a), ValueView::Int(b), position) == (if in_i64(a - b) {
            Ok::<ValueView, ErrorView>(ValueView::Int((a - b) as i64))
        } else {
            Err(error_of("integer subtraction overflow"@, position))
        }),
        binary_value(BinaryOperator::Multiply, ValueView::Int(a), ValueView::Int(b), position) == (if in_i64(a * b) {
            Ok::<ValueView, ErrorView>(ValueView::Int((a * b) as i64))
        } else {
            Err(error_of("integer multiplication overflow"@, position))
        }),
        binary_value(BinaryOperator::Divide, ValueView::Int(a), ValueView::Int(b), position) is Ok <==> (b != 0 && !(a
            == i64::MIN && b == -1)),
        binary_value(BinaryOperator::Divide, ValueView::Int(a), ValueView::Int(b), position) matches Ok(v) ==> v
            == ValueView::Int(trunc_div(a as int, b as int) as i64) && in_i64(trunc_div(a as int, b as int)),
        binary_value(BinaryOperator::Remainder, ValueView::Int(a), ValueView::Int(b), position) is Ok <==> (b != 0
            && !(a == i64::MIN && b == -1)),
        binary_value(BinaryOperator::Remainder, ValueView::Int(a), ValueView::Int(b), position) matches Ok(v) ==> v
            == ValueView::Int(trunc_rem(a as int, b as int) as i64) && in_i64(trunc_rem(a as int, b as int)),
{
    if b != 0 {
        let x: int = if a < 0 { -(a as int) } else { a as int };
        let y: int = if b < 0 { -(b as int) } else { b as int };
        assert(x / y <= x && x % y < y && x % y >= 0) by (nonlinear_arith)
            requires
                x >= 0,
                y >= 1,
        ;
        if y >= 2 {
            assert(x / y <= x / 2) by (nonlinear_arith)
                requires
                    x >= 0,
                    y >= 2,
            ;
        }
        if y == 1 {
            assert(x / y == x) by (nonlinear_arith)
                requires
                    y == 1,
            ;
        }
    }
}

} // verus!
