//! What a program evaluates to, as functions on program views.
//!
//! Evaluation is bounded twice: a call may nest at most [`MAX_CALL_DEPTH`]
//! calls deep, and expression evaluation at most [`MAX_EVAL_DEPTH`] levels
//! deep; either bound reports a clear error instead of running on.

use vstd::prelude::*;

use crate::ast::{name_of_type, BinaryOperator, BlockView, DeclView, ExprView, ProgramView, Type};
use crate::builtins::{builtin_name, builtin_named, builtin_parameter, Builtin};
use crate::error::{error_of, ErrorView, SourcePosition};
use crate::text::{chars_less, decimal, int_text, parse_int_text};
use crate::typecheck_spec::{operator_symbol, ResolvedView};
use crate::ValueView;

verus! {

/// The deepest nesting of function calls evaluation allows.
pub const MAX_CALL_DEPTH: usize = 128;

/// The deepest nesting of expression evaluation allows.
pub const MAX_EVAL_DEPTH: usize = 2048;

/// Variables in scope, innermost last; a later binding shadows an earlier one.
pub type Env = Seq<(Seq<char>, ValueView)>;

/// The outcome of evaluating a phrase.
pub type Evaluated = Result<ValueView, ErrorView>;

/// The type of a value.
pub open spec fn value_type(v: ValueView) -> Type {
    match v {
        ValueView::Int(_) => Type::Int,
        ValueView::Bool(_) => Type::Bool,
        ValueView::Str(_) => Type::String,
    }
}

/// The name of a value's type, as used in error messages.
pub open spec fn kind_of_value(v: ValueView) -> Seq<char> {
    name_of_type(value_type(v))
}

/// How a value is displayed: integers in decimal, booleans as `true` or
/// `false`, strings as their characters.
pub open spec fn value_text(v: ValueView) -> Seq<char> {
    match v {
        ValueView::Int(n) => int_text(n as int),
        ValueView::Bool(b) => if b { "true"@ } else { "false"@ },
        ValueView::Str(s) => s,
    }
}

/// The innermost binding of `name`.
pub open spec fn lookup(env: Env, name: Seq<char>) -> Option<ValueView>
    decreases env.len(),
{
    if env.len() == 0 {
        None
    } else if env.last().0 == name {
        Some(env.last().1)
    } else {
        lookup(env.drop_last(), name)
    }
}

/// The first function at or after `i` named `name`.
pub open spec fn function_from(fns: Seq<ResolvedView>, i: nat, name: Seq<char>) -> Option<nat>
    decreases fns.len() - i,
{
    if i >= fns.len() {
        None
    } else if fns[i as int].name == name {
        Some(i)
    } else {
        function_from(fns, i + 1, name)
    }
}

/// The first argument at or after `i` whose type differs from the type its
/// parameter demands.
pub open spec fn mismatch_from(values: Seq<ValueView>, types: Seq<Option<Type>>, i: nat) -> Option<nat>
    decreases values.len() - i,
{
    if i >= values.len() {
        None
    } else if types[i as int] matches Some(t) && value_type(values[i as int]) != t {
        Some(i)
    } else {
        mismatch_from(values, types, i + 1)
    }
}

/// Parameters bound to argument values, in order.
pub open spec fn bind(names: Seq<Seq<char>>, values: Seq<ValueView>) -> Env {
    Seq::new(names.len(), |i: int| (names[i], values[i]))
}

/// Division truncating toward zero.
pub open spec fn trunc_div(a: int, b: int) -> int {
    let magnitude = (if a < 0 { -a } else { a }) / (if b < 0 { -b } else { b });
    if (a < 0) == (b < 0) { magnitude } else { -magnitude }
}

/// The remainder of truncating division; its sign follows the dividend.
pub open spec fn trunc_rem(a: int, b: int) -> int {
    let magnitude = (if a < 0 { -a } else { a }) % (if b < 0 { -b } else { b });
    if a < 0 { -magnitude } else { magnitude }
}

pub open spec fn in_i64(n: int) -> bool {
    i64::MIN <= n <= i64::MAX
}

/// An integer result, or `message` when it does not fit in 64 bits.
pub open spec fn checked(n: int, message: Seq<char>, position: Option<SourcePosition>) -> Evaluated {
    if in_i64(n) {
        Ok(ValueView::Int(n as i64))
    } else {
        Err(error_of(message, position))
    }
}

/// Two-operand type error of an operator family.
pub open spec fn operand_mismatch(symbol: Seq<char>, family: Seq<char>, left: ValueView, right: ValueView, position: Option<SourcePosition>) -> ErrorView {
    error_of(
        "type mismatch in '"@ + symbol + "': expected two "@ + family + ", found "@ + kind_of_value(left) + " and "@ + kind_of_value(right),
        position,
    )
}

/// A logical operator's operand that is not a boolean.
pub open spec fn logical_mismatch(symbol: Seq<char>, found: ValueView, position: Option<SourcePosition>) -> ErrorView {
    error_of("type mismatch in '"@ + symbol + "': expected a boolean, found "@ + kind_of_value(found), position)
}

/// Whether an ordering comparison holds, given whether the left operand is
/// less than and equal to the right one.
pub open spec fn ordering_holds(operator: BinaryOperator, less: bool, equal: bool) -> bool {
    match operator {
        BinaryOperator::LessThan => less,
        BinaryOperator::LessThanOrEqual => less || equal,
        BinaryOperator::GreaterThan => !less && !equal,
        _ => !less,
    }
}

/// A binary operation on two values.
pub open spec fn binary_value(operator: BinaryOperator, left: ValueView, right: ValueView, position: Option<SourcePosition>) -> Evaluated {
    let symbol = operator_symbol(operator);
    match operator {
        BinaryOperator::Add => match (left, right) {
            (ValueView::Int(a), ValueView::Int(b)) => checked(a + b, "integer addition overflow"@, position),
            (ValueView::Str(a), ValueView::Str(b)) => Ok(ValueView::Str(a + b)),
            _ => Err(operand_mismatch(symbol, "integers or two strings"@, left, right, position)),
        },
        BinaryOperator::Equal | BinaryOperator::NotEqual => {
            let equal = match (left, right) {
                (ValueView::Int(a), ValueView::Int(b)) => Some(a == b),
                (ValueView::Bool(a), ValueView::Bool(b)) => Some(a == b),
                (ValueView::Str(a), ValueView::Str(b)) => Some(a == b),
                _ => None,
            };
            match equal {
                Some(eq) => Ok(ValueView::Bool(if operator == BinaryOperator::Equal { eq } else { !eq })),
                None => Err(error_of(
                    "type mismatch in '"@ + symbol + "': expected two values of the same type, found "@ + kind_of_value(left)
                        + " and "@ + kind_of_value(right),
                    position,
                )),
            }
        },
        BinaryOperator::LessThan | BinaryOperator::LessThanOrEqual | BinaryOperator::GreaterThan
        | BinaryOperator::GreaterThanOrEqual => match (left, right) {
            (ValueView::Int(a), ValueView::Int(b)) => Ok(ValueView::Bool(ordering_holds(operator, a < b, a == b))),
            (ValueView::Str(a), ValueView::Str(b)) => Ok(ValueView::Bool(ordering_holds(operator, chars_less(a, b), a == b))),
            _ => Err(operand_mismatch(symbol, "integers"@, left, right, position)),
        },
        _ => match (left, right) {
            (ValueView::Int(a), ValueView::Int(b)) => match operator {
                BinaryOperator::Subtract => checked(a - b, "integer subtraction overflow"@, position),
                BinaryOperator::Multiply => checked(a * b, "integer multiplication overflow"@, position),
                BinaryOperator::Divide => if b == 0 {
                    Err(error_of("division by zero"@, position))
                } else {
                    checked(trunc_div(a as int, b as int), "integer division overflow"@, position)
                },
                _ => if b == 0 {
                    Err(error_of("division by zero"@, position))
                } else if a == i64::MIN && b == -1 {
                    Err(error_of("integer remainder overflow"@, position))
                } else {
                    Ok(ValueView::Int(trunc_rem(a as int, b as int) as i64))
                },
            },
            _ => Err(operand_mismatch(symbol, "integers"@, left, right, position)),
        },
    }
}

/// Applies a built-in to its argument.
pub open spec fn builtin_value(b: Builtin, argument: ValueView, position: Option<SourcePosition>) -> Evaluated {
    if value_type(argument) != builtin_parameter(b) {
        Err(error_of(
            "type mismatch in call to '"@ + builtin_name(b) + "': expected an argument of type "@
                + name_of_type(builtin_parameter(b)) + ", found "@ + kind_of_value(argument),
            position,
        ))
    } else {
        match (b, argument) {
            (Builtin::Len, ValueView::Str(s)) => Ok(ValueView::Int(s.len() as i64)),
            (Builtin::IntToString, ValueView::Int(n)) => Ok(ValueView::Str(int_text(n as int))),
            (Builtin::StringToInt, ValueView::Str(s)) => match parse_int_text(s) {
                Some(n) => Ok(ValueView::Int(n)),
                None => Err(error_of("invalid integer text: '"@ + s + "'"@, position)),
            },
            (Builtin::BoolToInt, ValueView::Bool(flag)) => Ok(ValueView::Int(if flag { 1 } else { 0 })),
            (Builtin::IntToBool, ValueView::Int(n)) => Ok(ValueView::Bool(n != 0)),
            (Builtin::BoolToString, ValueView::Bool(flag)) => Ok(ValueView::Str(if flag { "true"@ } else { "false"@ })),
            (_, ValueView::Str(s)) => if s == "true"@ {
                Ok(ValueView::Bool(true))
            } else if s == "false"@ {
                Ok(ValueView::Bool(false))
            } else {
                Err(error_of("invalid boolean text: '"@ + s + "'"@, position))
            },
            _ => Err(error_of(Seq::empty(), position)),
        }
    }
}

/// The measure of evaluation at nesting `depth`: the levels still allowed.
pub open spec fn room(depth: nat) -> nat {
    if depth <= MAX_EVAL_DEPTH { (MAX_EVAL_DEPTH + 1 - depth) as nat } else { 0 }
}

/// Evaluates an expression at nesting `depth` within `calls` nested calls.
pub open spec fn eval_expr(e: ExprView, env: Env, fns: Seq<ResolvedView>, calls: nat, depth: nat) -> Evaluated
    decreases room(depth), 0nat, 0nat,
{
    let d = depth + 1;
    if d > MAX_EVAL_DEPTH {
        Err(error_of("program too deeply nested"@, e.position()))
    } else {
        match e {
            ExprView::Literal { value, position } => if value <= i64::MAX as u64 {
                Ok(ValueView::Int(value as i64))
            } else {
                Err(error_of("integer literal out of range"@, position))
            },
            ExprView::StringLiteral { value, .. } => Ok(ValueView::Str(value)),
            ExprView::BoolLiteral { value, .. } => Ok(ValueView::Bool(value)),
            ExprView::Variable { name, position } => match lookup(env, name) {
                Some(v) => Ok(v),
                None => Err(error_of("undefined variable: '"@ + name + "'"@, position)),
            },
            ExprView::Call { callee, arguments, position } => eval_call(callee, arguments, position, env, fns, calls, d),
            ExprView::UnaryNegation { operand, position } => if *operand matches ExprView::Literal { value, .. } && value
                == 9223372036854775808u64 {
                Ok(ValueView::Int(i64::MIN))
            } else {
                match eval_expr(*operand, env, fns, calls, d) {
                    Err(err) => Err(err),
                    Ok(ValueView::Int(v)) => checked(-(v as int), "integer negation overflow"@, position),
                    Ok(other) => Err(error_of("type mismatch in '-': expected an integer, found "@ + kind_of_value(other), position)),
                }
            },
            ExprView::UnaryNot { operand, position } => match eval_expr(*operand, env, fns, calls, d) {
                Err(err) => Err(err),
                Ok(ValueView::Bool(b)) => Ok(ValueView::Bool(!b)),
                Ok(other) => Err(error_of("type mismatch in '!': expected a boolean, found "@ + kind_of_value(other), position)),
            },
            ExprView::Binary { operator, left, right, position } => match eval_expr(*left, env, fns, calls, d) {
                Err(err) => Err(err),
                Ok(l) => match eval_expr(*right, env, fns, calls, d) {
                    Err(err) => Err(err),
                    Ok(r) => binary_value(operator, l, r, position),
                },
            },
            ExprView::LogicalAnd { left, right, position } => match eval_expr(*left, env, fns, calls, d) {
                Err(err) => Err(err),
                Ok(ValueView::Bool(false)) => Ok(ValueView::Bool(false)),
                Ok(ValueView::Bool(true)) => match eval_expr(*right, env, fns, calls, d) {
                    Err(err) => Err(err),
                    Ok(ValueView::Bool(b)) => Ok(ValueView::Bool(b)),
                    Ok(other) => Err(logical_mismatch("&&"@, other, position)),
                },
                Ok(other) => Err(logical_mismatch("&&"@, other, position)),
            },
            ExprView::LogicalOr { left, right, position } => match eval_expr(*left, env, fns, calls, d) {
                Err(err) => Err(err),
                Ok(ValueView::Bool(true)) => Ok(ValueView::Bool(true)),
                Ok(ValueView::Bool(false)) => match eval_expr(*right, env, fns, calls, d) {
                    Err(err) => Err(err),
                    Ok(ValueView::Bool(b)) => Ok(ValueView::Bool(b)),
                    Ok(other) => Err(logical_mismatch("||"@, other, position)),
                },
                Ok(other) => Err(logical_mismatch("||"@, other, position)),
            },
            ExprView::If { condition, then_branch, else_branch, position } => match eval_expr(*condition, env, fns, calls, d) {
                Err(err) => Err(err),
                Ok(ValueView::Bool(b)) => if b {
                    eval_body((*then_branch).declarations, 0, (*then_branch).expression, env, fns, calls, d)
                } else {
                    eval_body((*else_branch).declarations, 0, (*else_branch).expression, env, fns, calls, d)
                },
                Ok(other) => Err(error_of("if condition must be a boolean, found "@ + kind_of_value(other), position)),
            },
        }
    }
}

/// Evaluates declarations from index `i` on, binding each in turn, then the
/// final expression.
pub open spec fn eval_body(ds: Seq<DeclView>, i: nat, expression: ExprView, env: Env, fns: Seq<ResolvedView>, calls: nat, depth: nat) -> Evaluated
    decreases room(depth), 1nat, ds.len() - i,
{
    if i >= ds.len() {
        eval_expr(expression, env, fns, calls, depth)
    } else {
        match eval_expr(ds[i as int].initializer, env, fns, calls, depth) {
            Err(err) => Err(err),
            Ok(v) => eval_body(ds, i + 1, expression, env.push((ds[i as int].name, v)), fns, calls, depth),
        }
    }
}

/// Evaluates arguments from index `i` on, after the values `done`.
pub open spec fn eval_args(args: Seq<ExprView>, i: nat, env: Env, fns: Seq<ResolvedView>, calls: nat, depth: nat, done: Seq<ValueView>) -> Result<Seq<ValueView>, ErrorView>
    decreases room(depth), 1nat, args.len() - i,
{
    if i >= args.len() {
        Ok(done)
    } else {
        match eval_expr(args[i as int], env, fns, calls, depth) {
            Err(err) => Err(err),
            Ok(v) => eval_args(args, i + 1, env, fns, calls, depth, done.push(v)),
        }
    }
}

/// Evaluates a call: a built-in, or a declared function whose body runs
/// with its parameters bound, one call deeper.
pub open spec fn eval_call(
    callee: Seq<char>,
    args: Seq<ExprView>,
    position: Option<SourcePosition>,
    env: Env,
    fns: Seq<ResolvedView>,
    calls: nat,
    depth: nat,
) -> Evaluated
    decreases room(depth), 2nat, 0nat,
{
    match builtin_named(callee) {
        Some(b) => if args.len() != 1 {
            Err(arity_error(callee, 1, args.len(), position))
        } else {
            match eval_args(args, 0, env, fns, calls, depth, Seq::empty()) {
                Err(err) => Err(err),
                Ok(values) => builtin_value(b, values[0], position),
            }
        },
        None => match function_from(fns, 0, callee) {
            None => Err(error_of("undefined function: '"@ + callee + "'"@, position)),
            Some(fi) => {
                let f = fns[fi as int];
                if args.len() != f.parameters.len() {
                    Err(arity_error(callee, f.parameters.len(), args.len(), position))
                } else {
                    match eval_args(args, 0, env, fns, calls, depth, Seq::empty()) {
                        Err(err) => Err(err),
                        Ok(values) => match mismatch_from(values, f.parameter_types, 0) {
                            Some(i) => Err(error_of(
                                "type mismatch in call to '"@ + callee + "': expected an argument of type "@
                                    + name_of_type(f.parameter_types[i as int]->0) + ", found "@ + kind_of_value(values[i as int]),
                                position,
                            )),
                            None => if calls + 1 > MAX_CALL_DEPTH {
                                Err(error_of("call depth limit exceeded"@, position))
                            } else {
                                eval_body(f.body.declarations, 0, f.body.expression, env + bind(f.parameters, values), fns, calls + 1, depth)
                            },
                        },
                    }
                }
            },
        },
    }
}

/// Truncating division and remainder agree with the case analysis on the
/// signs of the operands that std's checked operations are specified by.
pub proof fn lemma_division_matches(a: i64, b: i64)
    requires
        b != 0,
    ensures
        trunc_div(a as int, b as int) == (if a == 0 {
            0
        } else if a > 0 && b > 0 {
            (a as int) / (b as int)
        } else if a < 0 && b < 0 {
            ((a as int) * -1) / ((b as int) * -1)
        } else if a < 0 {
            (((a as int) * -1) / (b as int)) * -1
        } else {
            ((a as int) / ((b as int) * -1)) * -1
        }),
        trunc_rem(a as int, b as int) == (if a == 0 {
            0
        } else if a > 0 && b > 0 {
            (a as int) % (b as int)
        } else if a < 0 && b < 0 {
            (((a as int) * -1) % ((b as int) * -1)) * -1
        } else if a < 0 {
            (((a as int) * -1) % (b as int)) * -1
        } else {
            (a as int) % ((b as int) * -1)
        }),
{
    if a == 0 {
        let m: int = if b < 0 { -b } else { b as int };
        assert(0int / m == 0) by (nonlinear_arith)
            requires
                m > 0,
        ;
        assert(0int % m == 0) by (nonlinear_arith)
            requires
                m > 0,
        ;
    }
}

/// Evaluating arguments yields one value per argument after those done.
pub proof fn lemma_eval_args_len(args: Seq<ExprView>, i: nat, env: Env, fns: Seq<ResolvedView>, calls: nat, depth: nat, done: Seq<ValueView>)
    requires
        i <= args.len(),
    ensures
        eval_args(args, i, env, fns, calls, depth, done) matches Ok(vs) ==> vs.len() == done.len() + args.len() - i,
    decreases args.len() - i,
{
    if i < args.len() {
        match eval_expr(args[i as int], env, fns, calls, depth) {
            Err(_) => {},
            Ok(v) => lemma_eval_args_len(args, i + 1, env, fns, calls, depth, done.push(v)),
        }
    }
}

pub open spec fn arity_error(callee: Seq<char>, expected: nat, found: nat, position: Option<SourcePosition>) -> ErrorView {
    error_of(
        "wrong number of arguments for function '"@ + callee + "': expected "@ + decimal(expected) + ", found "@ + decimal(found),
        position,
    )
}

/// Evaluates a program's declarations and final expression.
pub open spec fn eval_program(p: ProgramView, fns: Seq<ResolvedView>) -> Evaluated {
    eval_body(p.declarations, 0, p.expression, Seq::empty(), fns, 0, 0)
}

} // verus!
