//! How the integer calculator groups `*` and `/`: a chain of literals joined
//! by these operators is evaluated from left to right, each operator applied
//! to the value so far and the next literal.

use vstd::prelude::*;

use crate::expression::{calc_literal, calc_tokens, calculate, calc_additive, calc_additive_rest, calc_multiplicative, calc_multiplicative_rest, calc_parse, calc_primary, calc_value, Calc, Tok};
use crate::semantics::trunc_div;
use crate::text::{digit_value, is_digit};

verus! {

/// The tokens `v0 op0 v1 op1 ... vn`, where `multiply[k]` chooses `*` over
/// `/` for the operator between `values[k]` and `values[k as int + 1]`.
pub open spec fn product_chain(values: Seq<i64>, multiply: Seq<bool>) -> Seq<Tok> {
    Seq::new(
        2 * multiply.len() + 1,
        |i: int|
            if i % 2 == 0 {
                Tok::Integer(values[i / 2])
            } else if multiply[i / 2] {
                Tok::Star
            } else {
                Tok::Slash
            },
    )
}

/// One checked step: `a * b`, or `a / b` truncated toward zero.
pub open spec fn product_step(multiply: bool, a: i64, b: i64) -> Result<i64, Seq<char>> {
    if multiply {
        if i64::MIN <= a * b <= i64::MAX {
            Ok((a * b) as i64)
        } else {
            Err("integer multiplication overflow"@)
        }
    } else if b == 0 {
        Err("division by zero"@)
    } else if i64::MIN <= trunc_div(a as int, b as int) <= i64::MAX {
        Ok(trunc_div(a as int, b as int) as i64)
    } else {
        Err("integer division overflow"@)
    }
}

/// The value of the first `k` operations of the chain, taken from the left.
pub open spec fn left_to_right(values: Seq<i64>, multiply: Seq<bool>, k: nat) -> Result<i64, Seq<char>>
    decreases k,
{
    if k == 0 {
        Ok(values[0])
    } else {
        match left_to_right(values, multiply, (k - 1) as nat) {
            Err(m) => Err(m),
            Ok(a) => product_step(multiply[k - 1], a, values[k - 1 + 1]),
        }
    }
}

proof fn lemma_chain_rest(values: Seq<i64>, multiply: Seq<bool>, k: nat, left: Calc)
    requires
        values.len() == multiply.len() + 1,
        k <= multiply.len(),
        calc_value(left) == left_to_right(values, multiply, k),
    ensures
        calc_multiplicative_rest(product_chain(values, multiply), left, 2 * k + 1) matches Ok((e, end)) && end == 2
            * multiply.len() + 1 && calc_value(e) == left_to_right(values, multiply, multiply.len()),
    decreases multiply.len() - k,
{
    let ts = product_chain(values, multiply);
    if k < multiply.len() {
        let op_at = 2 * k + 1;
        assert(op_at % 2 == 1 && op_at / 2 == k) by (nonlinear_arith)
            requires
                op_at == 2 * k + 1,
        ;
        let lit_at = 2 * k + 2;
        assert(lit_at % 2 == 0 && lit_at / 2 == k + 1) by (nonlinear_arith)
            requires
                lit_at == 2 * k + 2,
        ;
        assert(ts[op_at as int] == if multiply[k as int] { Tok::Star } else { Tok::Slash });
        assert(ts[lit_at as int] == Tok::Integer(values[k as int + 1]));
        let op = if multiply[k as int] { crate::expression::Op::Multiply } else { crate::expression::Op::Divide };
        let next = Calc::Binary { operator: op, left: Box::new(left), right: Box::new(Calc::Literal(values[k as int + 1])) };
        assert(calc_primary(ts, lit_at) == Ok::<(Calc, nat), Seq<char>>((Calc::Literal(values[k as int + 1]), lit_at + 1)));
        assert(((k + 1) - 1) as nat == k);
        assert(left_to_right(values, multiply, k + 1) == match left_to_right(values, multiply, k) {
            Err(m) => Err(m),
            Ok(a) => product_step(multiply[k as int], a, values[k as int + 1]),
        });
        assert(calc_value(Calc::Literal(values[k as int + 1])) == Ok::<i64, Seq<char>>(values[k as int + 1]));
        assert(calc_value(next) == left_to_right(values, multiply, k + 1));
        lemma_chain_rest(values, multiply, k + 1, next);
        assert(2 * (k + 1) + 1 == lit_at + 1);
    }
}

/// `*` and `/` associate to the left: a chain of literals joined by them
/// parses, and its value is that of applying the operators one by one from
/// the left, each to the value so far and the next literal. So `a * b / c`
/// is `(a * b) / c` and `a / b * c` is `(a / b) * c`.
pub proof fn law_products_associate_to_the_left(values: Seq<i64>, multiply: Seq<bool>)
    requires
        values.len() == multiply.len() + 1,
    ensures
        calc_parse(product_chain(values, multiply)) matches Ok(e) && calc_value(e) == left_to_right(
            values,
            multiply,
            multiply.len(),
        ),
{
    let ts = product_chain(values, multiply);
    assert(ts[0] == Tok::Integer(values[0]));
    assert(calc_primary(ts, 0) == Ok::<(Calc, nat), Seq<char>>((Calc::Literal(values[0]), 1)));
    lemma_chain_rest(values, multiply, 0, Calc::Literal(values[0]));
    let (e, end) = calc_multiplicative_rest(ts, Calc::Literal(values[0]), 1)->Ok_0;
    assert(calc_multiplicative(ts, 0) == Ok::<(Calc, nat), Seq<char>>((e, end)));
    assert(calc_additive_rest(ts, e, end) == Ok::<(Calc, nat), Seq<char>>((e, end)));
    assert(calc_additive(ts, 0) == Ok::<(Calc, nat), Seq<char>>((e, end)));
}

/// For instance `a * b / c` with a nonzero `c` and a product that fits is
/// `trunc_div(a * b, c)`, whatever `b` and `c` would give first.
pub proof fn law_product_then_quotient(a: i64, b: i64, c: i64)
    requires
        i64::MIN <= a * b <= i64::MAX,
        c != 0,
        i64::MIN <= trunc_div(a * b, c as int) <= i64::MAX,
    ensures
        calc_parse(seq![Tok::Integer(a), Tok::Star, Tok::Integer(b), Tok::Slash, Tok::Integer(c)]) matches Ok(e) && calc_value(e)
            == Ok::<i64, Seq<char>>(trunc_div(a * b, c as int) as i64),
{
    let values = seq![a, b, c];
    let multiply = seq![true, false];
    law_products_associate_to_the_left(values, multiply);
    assert(product_chain(values, multiply) =~= seq![Tok::Integer(a), Tok::Star, Tok::Integer(b), Tok::Slash, Tok::Integer(c)]);
    assert(left_to_right(values, multiply, 0) == Ok::<i64, Seq<char>>(a));
    assert(left_to_right(values, multiply, 1) == product_step(true, a, b));
    assert(left_to_right(values, multiply, 1) == Ok::<i64, Seq<char>>((a * b) as i64));
    assert(left_to_right(values, multiply, 2) == product_step(false, (a * b) as i64, c));
}

/// The tokens `v0 op0 v1 op1 ... vn`, where `add[k]` chooses `+` over `-`
/// for the operator between `values[k]` and `values[k + 1]`.
pub open spec fn sum_chain(values: Seq<i64>, add: Seq<bool>) -> Seq<Tok> {
    Seq::new(
        2 * add.len() + 1,
        |i: int|
            if i % 2 == 0 {
                Tok::Integer(values[i / 2])
            } else if add[i / 2] {
                Tok::Plus
            } else {
                Tok::Minus
            },
    )
}

/// One checked step: `a + b` or `a - b`.
pub open spec fn sum_step(add: bool, a: i64, b: i64) -> Result<i64, Seq<char>> {
    if add {
        if i64::MIN <= a + b <= i64::MAX {
            Ok((a + b) as i64)
        } else {
            Err("integer addition overflow"@)
        }
    } else if i64::MIN <= a - b <= i64::MAX {
        Ok((a - b) as i64)
    } else {
        Err("integer subtraction overflow"@)
    }
}

/// The value of the first `k` additions and subtractions, from the left.
pub open spec fn sum_left_to_right(values: Seq<i64>, add: Seq<bool>, k: nat) -> Result<i64, Seq<char>>
    decreases k,
{
    if k == 0 {
        Ok(values[0])
    } else {
        match sum_left_to_right(values, add, (k - 1) as nat) {
            Err(m) => Err(m),
            Ok(a) => sum_step(add[k - 1], a, values[k - 1 + 1]),
        }
    }
}

proof fn lemma_sum_operand(values: Seq<i64>, add: Seq<bool>, k: nat)
    requires
        values.len() == add.len() + 1,
        k <= add.len(),
    ensures
        calc_multiplicative(sum_chain(values, add), 2 * k) == Ok::<(Calc, nat), Seq<char>>((Calc::Literal(values[k as int]), 2 * k + 1)),
{
    let ts = sum_chain(values, add);
    let lit_at = 2 * k;
    assert(lit_at % 2 == 0 && lit_at / 2 == k) by (nonlinear_arith)
        requires
            lit_at == 2 * k,
    ;
    assert(ts[lit_at as int] == Tok::Integer(values[k as int]));
    if k < add.len() {
        let op_at = 2 * k + 1;
        assert(op_at % 2 == 1 && op_at / 2 == k) by (nonlinear_arith)
            requires
                op_at == 2 * k + 1,
        ;
        assert(ts[op_at as int] == if add[k as int] { Tok::Plus } else { Tok::Minus });
    }
    assert(calc_primary(ts, lit_at) == Ok::<(Calc, nat), Seq<char>>((Calc::Literal(values[k as int]), lit_at + 1)));
}

proof fn lemma_sum_rest(values: Seq<i64>, add: Seq<bool>, k: nat, left: Calc)
    requires
        values.len() == add.len() + 1,
        k <= add.len(),
        calc_value(left) == sum_left_to_right(values, add, k),
    ensures
        calc_additive_rest(sum_chain(values, add), left, 2 * k + 1) matches Ok((e, end)) && end == 2 * add.len() + 1
            && calc_value(e) == sum_left_to_right(values, add, add.len()),
    decreases add.len() - k,
{
    let ts = sum_chain(values, add);
    if k < add.len() {
        let op_at = 2 * k + 1;
        assert(op_at % 2 == 1 && op_at / 2 == k) by (nonlinear_arith)
            requires
                op_at == 2 * k + 1,
        ;
        assert(ts[op_at as int] == if add[k as int] { Tok::Plus } else { Tok::Minus });
        lemma_sum_operand(values, add, k + 1);
        let op = if add[k as int] { crate::expression::Op::Add } else { crate::expression::Op::Subtract };
        let next = Calc::Binary { operator: op, left: Box::new(left), right: Box::new(Calc::Literal(values[k as int + 1])) };
        assert(((k + 1) - 1) as nat == k);
        assert(sum_left_to_right(values, add, k + 1) == match sum_left_to_right(values, add, k) {
            Err(m) => Err(m),
            Ok(a) => sum_step(add[k as int], a, values[k as int + 1]),
        });
        assert(calc_value(Calc::Literal(values[k as int + 1])) == Ok::<i64, Seq<char>>(values[k as int + 1]));
        assert(calc_value(next) == sum_left_to_right(values, add, k + 1));
        lemma_sum_rest(values, add, k + 1, next);
    }
}

/// `+` and `-` associate to the left: a chain of literals joined by them
/// parses, and its value is that of applying the operators one by one from
/// the left. So `a - b - c` is `(a - b) - c` and `a - b + c` is
/// `(a - b) + c`.
pub proof fn law_sums_associate_to_the_left(values: Seq<i64>, add: Seq<bool>)
    requires
        values.len() == add.len() + 1,
    ensures
        calc_parse(sum_chain(values, add)) matches Ok(e) && calc_value(e) == sum_left_to_right(values, add, add.len()),
{
    let ts = sum_chain(values, add);
    lemma_sum_operand(values, add, 0);
    lemma_sum_rest(values, add, 0, Calc::Literal(values[0]));
}

/// `*` binds more tightly than `+` on its right: `a + b * c` is
/// `a + (b * c)`, for all literals whose product and sum fit.
pub proof fn law_product_binds_tighter_after_a_sum(a: i64, b: i64, c: i64)
    requires
        i64::MIN <= b * c <= i64::MAX,
        i64::MIN <= a + b * c <= i64::MAX,
    ensures
        calc_parse(seq![Tok::Integer(a), Tok::Plus, Tok::Integer(b), Tok::Star, Tok::Integer(c)]) matches Ok(e) && calc_value(e)
            == Ok::<i64, Seq<char>>((a + b * c) as i64),
{
    let ts = seq![Tok::Integer(a), Tok::Plus, Tok::Integer(b), Tok::Star, Tok::Integer(c)];
    assert(calc_primary(ts, 0) == Ok::<(Calc, nat), Seq<char>>((Calc::Literal(a), 1)));
    assert(calc_multiplicative_rest(ts, Calc::Literal(a), 1) == Ok::<(Calc, nat), Seq<char>>((Calc::Literal(a), 1)));
    assert(calc_primary(ts, 2) == Ok::<(Calc, nat), Seq<char>>((Calc::Literal(b), 3)));
    assert(calc_primary(ts, 4) == Ok::<(Calc, nat), Seq<char>>((Calc::Literal(c), 5)));
    let bc = Calc::Binary { operator: crate::expression::Op::Multiply, left: Box::new(Calc::Literal(b)), right: Box::new(Calc::Literal(c)) };
    assert(calc_multiplicative_rest(ts, bc, 5) == Ok::<(Calc, nat), Seq<char>>((bc, 5)));
    assert(calc_multiplicative_rest(ts, Calc::Literal(b), 3) == Ok::<(Calc, nat), Seq<char>>((bc, 5)));
    assert(calc_multiplicative(ts, 2) == Ok::<(Calc, nat), Seq<char>>((bc, 5)));
    let whole = Calc::Binary { operator: crate::expression::Op::Add, left: Box::new(Calc::Literal(a)), right: Box::new(bc) };
    assert(calc_additive_rest(ts, whole, 5) == Ok::<(Calc, nat), Seq<char>>((whole, 5)));
    assert(calc_additive_rest(ts, Calc::Literal(a), 1) == Ok::<(Calc, nat), Seq<char>>((whole, 5)));
    assert(calc_value(Calc::Literal(b)) == Ok::<i64, Seq<char>>(b));
    assert(calc_value(Calc::Literal(c)) == Ok::<i64, Seq<char>>(c));
    assert(calc_value(bc) == Ok::<i64, Seq<char>>((b * c) as i64));
    assert(calc_value(Calc::Literal(a)) == Ok::<i64, Seq<char>>(a));
}

/// `*` binds more tightly than `+` on its left: `a * b + c` is
/// `(a * b) + c`, for all literals whose product and sum fit.
pub proof fn law_product_binds_tighter_before_a_sum(a: i64, b: i64, c: i64)
    requires
        i64::MIN <= a * b <= i64::MAX,
        i64::MIN <= a * b + c <= i64::MAX,
    ensures
        calc_parse(seq![Tok::Integer(a), Tok::Star, Tok::Integer(b), Tok::Plus, Tok::Integer(c)]) matches Ok(e) && calc_value(e)
            == Ok::<i64, Seq<char>>((a * b + c) as i64),
{
    let us = seq![Tok::Integer(a), Tok::Star, Tok::Integer(b), Tok::Plus, Tok::Integer(c)];
    assert(calc_primary(us, 0) == Ok::<(Calc, nat), Seq<char>>((Calc::Literal(a), 1)));
    assert(calc_primary(us, 2) == Ok::<(Calc, nat), Seq<char>>((Calc::Literal(b), 3)));
    assert(calc_primary(us, 4) == Ok::<(Calc, nat), Seq<char>>((Calc::Literal(c), 5)));
    let ab = Calc::Binary { operator: crate::expression::Op::Multiply, left: Box::new(Calc::Literal(a)), right: Box::new(Calc::Literal(b)) };
    assert(calc_multiplicative_rest(us, ab, 3) == Ok::<(Calc, nat), Seq<char>>((ab, 3)));
    assert(calc_multiplicative_rest(us, Calc::Literal(a), 1) == Ok::<(Calc, nat), Seq<char>>((ab, 3)));
    assert(calc_multiplicative_rest(us, Calc::Literal(c), 5) == Ok::<(Calc, nat), Seq<char>>((Calc::Literal(c), 5)));
    let sum = Calc::Binary { operator: crate::expression::Op::Add, left: Box::new(ab), right: Box::new(Calc::Literal(c)) };
    assert(calc_additive_rest(us, sum, 5) == Ok::<(Calc, nat), Seq<char>>((sum, 5)));
    assert(calc_additive_rest(us, ab, 3) == Ok::<(Calc, nat), Seq<char>>((sum, 5)));
    assert(calc_value(Calc::Literal(a)) == Ok::<i64, Seq<char>>(a));
    assert(calc_value(Calc::Literal(b)) == Ok::<i64, Seq<char>>(b));
    assert(calc_value(ab) == Ok::<i64, Seq<char>>((a * b) as i64));
    assert(calc_value(Calc::Literal(c)) == Ok::<i64, Seq<char>>(c));
}

/// The text `d0 op0 d1 op1 ... dn` of single digits, where `multiply[k]`
/// chooses `*` over `/` between `digits[k]` and `digits[k + 1]`.
pub open spec fn product_text(digits: Seq<char>, multiply: Seq<bool>) -> Seq<char> {
    Seq::new(
        2 * multiply.len() + 1,
        |i: int|
            if i % 2 == 0 {
                digits[i / 2]
            } else if multiply[i / 2] {
                '*'
            } else {
                '/'
            },
    )
}

/// The values of single digits.
pub open spec fn digit_values(digits: Seq<char>) -> Seq<i64> {
    digits.map_values(|c: char| digit_value(c) as i64)
}

proof fn lemma_product_text_tokens(digits: Seq<char>, multiply: Seq<bool>, i: nat, acc: Seq<Tok>)
    requires
        digits.len() == multiply.len() + 1,
        forall|k: int| 0 <= k < digits.len() ==> #[trigger] is_digit(digits[k]),
        i <= 2 * multiply.len() + 1,
        acc == product_chain(digit_values(digits), multiply).take(i as int),
    ensures
        calc_tokens(product_text(digits, multiply), i, acc) == Ok::<Seq<Tok>, Seq<char>>(product_chain(digit_values(digits), multiply)),
    decreases 2 * multiply.len() + 1 - i,
{
    let cs = product_text(digits, multiply);
    let ts = product_chain(digit_values(digits), multiply);
    let n = 2 * multiply.len() + 1;
    if i < n {
        let k = i / 2;
        assert(i % 2 == 0 || i % 2 == 1);
        if i % 2 == 0 {
            assert(cs[i as int] == digits[k as int]);
            assert(is_digit(digits[k as int]));
            assert(ts[i as int] == Tok::Integer(digit_values(digits)[k as int]));
            let d = digit_value(digits[k as int]);
            assert(d <= 9);
            if i + 1 < n {
                assert((i + 1) % 2 == 1);
                assert(cs[i as int + 1] == '*' || cs[i as int + 1] == '/');
            }
            assert(calc_literal(cs, i + 1, d as i64) == Ok::<(i64, nat), Seq<char>>((d as i64, i + 1)));
            assert(calc_literal(cs, i, 0) == Ok::<(i64, nat), Seq<char>>((d as i64, i + 1)));
        } else {
            assert(cs[i as int] == if multiply[k as int] { '*' } else { '/' });
            assert(ts[i as int] == if multiply[k as int] { Tok::Star } else { Tok::Slash });
        }
        assert(acc.push(ts[i as int]) =~= ts.take(i as int + 1));
        lemma_product_text_tokens(digits, multiply, i + 1, acc.push(ts[i as int]));
    } else {
        assert(acc =~= ts);
    }
}

/// On text: single digits joined by `*` and `/` evaluate from left to
/// right, so for instance `5*3/4` is `(5 * 3) / 4 = 3`, not `5 * (3 / 4) = 0`.
pub proof fn law_product_texts_evaluate_left_to_right(digits: Seq<char>, multiply: Seq<bool>)
    requires
        digits.len() == multiply.len() + 1,
        forall|k: int| 0 <= k < digits.len() ==> #[trigger] is_digit(digits[k]),
    ensures
        calculate(product_text(digits, multiply)) == left_to_right(digit_values(digits), multiply, multiply.len()),
{
    let values = digit_values(digits);
    assert(product_chain(values, multiply).take(0) =~= Seq::<Tok>::empty());
    lemma_product_text_tokens(digits, multiply, 0, Seq::empty());
    law_products_associate_to_the_left(values, multiply);
}

} // verus!
