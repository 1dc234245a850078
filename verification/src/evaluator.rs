//! The evaluator: runs a program over a stack of variable bindings with
//! checked 64-bit arithmetic, short-circuiting logical operators, scoped
//! blocks, function calls and the built-ins.
//!
//! The type checker rejects ill-typed programs before evaluation, but the
//! evaluator defends the same rules itself and reports a clear error on any
//! program the parser accepts.

use vstd::prelude::*;

use crate::ast::{
    block_view, decl_view, decls_view, expr_view, exprs_view, lemma_decls_view_index, lemma_exprs_view_index,
    strings_view, BinaryOperator, Declaration, Expression, Program, Type,
};
use crate::builtins::Builtin;
use crate::error::{error_of, Error, SourcePosition};
use crate::semantics::{
    lemma_division_matches, lemma_eval_args_len, binary_value, bind, builtin_value, eval_args, eval_body, eval_call, eval_expr, eval_program,
    function_from, kind_of_value, lookup, mismatch_from, ordering_holds, room, trunc_div, trunc_rem,
    value_type, Env, Evaluated, MAX_CALL_DEPTH, MAX_EVAL_DEPTH,
};
use crate::text::{less_chars, parse_int, push_int_text, push_str, push_usize_text, str_chars, str_eq, string_from_chars};
use crate::typecheck::{functions_wf, resolved_views, Function};
use crate::typecheck_spec::{operator_symbol, ResolvedView};
use crate::{Value, ValueView};

verus! {

pub open spec fn env_view(env: Seq<(String, Value)>) -> Env {
    env.map_values(|binding: (String, Value)| (binding.0@, binding.1@))
}

pub open spec fn values_view(values: Seq<Value>) -> Seq<ValueView> {
    values.map_values(|v: Value| v@)
}

/// The outcome of an evaluation, against its specification.
pub open spec fn value_outcome(result: Result<Value, Error>, spec: Evaluated) -> bool {
    match spec {
        Ok(v) => result is Ok && result->Ok_0@ == v,
        Err(e) => result is Err && result->Err_0@ == e,
    }
}


fn type_of(value: &Value) -> (ty: Type)
    ensures
        ty == value_type(value@),
{
    match value {
        Value::Int(_) => Type::Int,
        Value::Bool(_) => Type::Bool,
        Value::String(_) => Type::String,
    }
}

fn kind_name(value: &Value) -> (name: &'static str)
    ensures
        name@ == kind_of_value(value@),
{
    type_of(value).name()
}

/// The innermost binding of `name`.
fn lookup_variable(env: &Vec<(String, Value)>, name: &String) -> (value: Option<Value>)
    ensures
        match lookup(env_view(env@), name@) {
            Some(v) => value is Some && value->0@ == v,
            None => value is None,
        },
{
    let mut i: usize = env.len();
    assert(env@.subrange(0, i as int) =~= env@);
    while i > 0
        invariant
            i <= env@.len(),
            lookup(env_view(env@), name@) == lookup(env_view(env@.subrange(0, i as int)), name@),
        decreases i,
    {
        let ghost prefix = env@.subrange(0, i as int);
        assert(env_view(prefix).drop_last() =~= env_view(env@.subrange(0, i - 1)));
        assert(env_view(prefix).last() == (env@[i - 1].0@, env@[i - 1].1@));
        if str_eq(env[i - 1].0.as_str(), name.as_str()) {
            return Some(env[i - 1].1.duplicate());
        }
        i = i - 1;
    }
    assert(env_view(env@.subrange(0, 0)) =~= Seq::empty());
    None
}

/// The first function named `name`.
fn find_function(fns: &Vec<Function>, name: &String) -> (index: Option<usize>)
    ensures
        match function_from(resolved_views(fns@), 0, name@) {
            Some(i) => index is Some && index->0 as nat == i && i < fns@.len(),
            None => index is None,
        },
{
    let mut i: usize = 0;
    while i < fns.len()
        invariant
            i <= fns@.len(),
            function_from(resolved_views(fns@), 0, name@) == function_from(resolved_views(fns@), i as nat, name@),
        decreases fns@.len() - i,
    {
        if str_eq(fns[i].name.as_str(), name.as_str()) {
            return Some(i);
        }
        i = i + 1;
    }
    None
}

/// `type mismatch in '<symbol>': expected two <family>, found <l> and <r>`.
fn operand_error(symbol: &str, family: &str, left: &Value, right: &Value, position: Option<SourcePosition>) -> (error: Error)
    ensures
        error@ == crate::semantics::operand_mismatch(symbol@, family@, left@, right@, position),
{
    let mut message: Vec<char> = Vec::new();
    push_str(&mut message, "type mismatch in '");
    push_str(&mut message, symbol);
    push_str(&mut message, "': expected two ");
    push_str(&mut message, family);
    push_str(&mut message, ", found ");
    push_str(&mut message, kind_name(left));
    push_str(&mut message, " and ");
    push_str(&mut message, kind_name(right));
    Error::positioned(&message, position)
}

fn symbol_of(operator: BinaryOperator) -> (symbol: &'static str)
    ensures
        symbol@ == operator_symbol(operator),
{
    match operator {
        BinaryOperator::Add => "+",
        BinaryOperator::Subtract => "-",
        BinaryOperator::Multiply => "*",
        BinaryOperator::Divide => "/",
        BinaryOperator::Remainder => "%",
        BinaryOperator::LessThan => "<",
        BinaryOperator::LessThanOrEqual => "<=",
        BinaryOperator::GreaterThan => ">",
        BinaryOperator::GreaterThanOrEqual => ">=",
        BinaryOperator::Equal => "==",
        BinaryOperator::NotEqual => "!=",
    }
}

fn holds(operator: BinaryOperator, less: bool, equal: bool) -> (b: bool)
    ensures
        b == ordering_holds(operator, less, equal),
{
    match operator {
        BinaryOperator::LessThan => less,
        BinaryOperator::LessThanOrEqual => less || equal,
        BinaryOperator::GreaterThan => !less && !equal,
        _ => !less,
    }
}

/// A binary operation on two values: checked integer arithmetic, string
/// concatenation, comparisons and equality, or a type mismatch error.
pub fn binary(operator: BinaryOperator, left: Value, right: Value, position: Option<SourcePosition>) -> (result: Result<Value, Error>)
    ensures
        value_outcome(result, binary_value(operator, left@, right@, position)),
{
    match operator {
        BinaryOperator::Add => match (&left, &right) {
            (Value::Int(a), Value::Int(b)) => match a.checked_add(*b) {
                Some(sum) => Ok(Value::Int(sum)),
                None => Err(Error::located("integer addition overflow", position)),
            },
            (Value::String(a), Value::String(b)) => Ok(Value::String(a.clone().concat(b.as_str()))),
            _ => Err(operand_error("+", "integers or two strings", &left, &right, position)),
        },
        BinaryOperator::Equal | BinaryOperator::NotEqual => {
            let equal = match (&left, &right) {
                (Value::Int(a), Value::Int(b)) => *a == *b,
                (Value::Bool(a), Value::Bool(b)) => *a == *b,
                (Value::String(a), Value::String(b)) => str_eq(a.as_str(), b.as_str()),
                _ => {
                    let mut message: Vec<char> = Vec::new();
                    push_str(&mut message, "type mismatch in '");
                    push_str(&mut message, symbol_of(operator));
                    push_str(&mut message, "': expected two values of the same type, found ");
                    push_str(&mut message, kind_name(&left));
                    push_str(&mut message, " and ");
                    push_str(&mut message, kind_name(&right));
                    return Err(Error::positioned(&message, position));
                },
            };
            Ok(Value::Bool(if operator == BinaryOperator::Equal { equal } else { !equal }))
        },
        BinaryOperator::LessThan | BinaryOperator::LessThanOrEqual | BinaryOperator::GreaterThan
        | BinaryOperator::GreaterThanOrEqual => match (&left, &right) {
            (Value::Int(a), Value::Int(b)) => Ok(Value::Bool(holds(operator, *a < *b, *a == *b))),
            (Value::String(a), Value::String(b)) => {
                let x = str_chars(a.as_str());
                let y = str_chars(b.as_str());
                let less = less_chars(x.as_slice(), y.as_slice());
                let equal = str_eq(a.as_str(), b.as_str());
                Ok(Value::Bool(holds(operator, less, equal)))
            },
            _ => Err(operand_error(symbol_of(operator), "integers", &left, &right, position)),
        },
        _ => match (&left, &right) {
            (Value::Int(a), Value::Int(b)) => {
                let (a, b) = (*a, *b);
                match operator {
                    BinaryOperator::Subtract => match a.checked_sub(b) {
                        Some(difference) => Ok(Value::Int(difference)),
                        None => Err(Error::located("integer subtraction overflow", position)),
                    },
                    BinaryOperator::Multiply => match a.checked_mul(b) {
                        Some(product) => Ok(Value::Int(product)),
                        None => Err(Error::located("integer multiplication overflow", position)),
                    },
                    BinaryOperator::Divide => {
                        if b == 0 {
                            return Err(Error::located("division by zero", position));
                        }
                        proof {
                            lemma_division_matches(a, b);
                        }
                        match a.checked_div(b) {
                            Some(quotient) => Ok(Value::Int(quotient)),
                            None => Err(Error::located("integer division overflow", position)),
                        }
                    },
                    _ => {
                        if b == 0 {
                            return Err(Error::located("division by zero", position));
                        }
                        proof {
                            lemma_division_matches(a, b);
                        }
                        match a.checked_rem(b) {
                            Some(remainder) => Ok(Value::Int(remainder)),
                            None => Err(Error::located("integer remainder overflow", position)),
                        }
                    },
                }
            },
            _ => Err(operand_error(symbol_of(operator), "integers", &left, &right, position)),
        },
    }
}

/// Applies a built-in to its argument.
pub fn apply_builtin(b: Builtin, argument: Value, position: Option<SourcePosition>) -> (result: Result<Value, Error>)
    ensures
        value_outcome(result, builtin_value(b, argument@, position)),
{
    if type_of(&argument) != b.parameter_type() {
        let mut message: Vec<char> = Vec::new();
        push_str(&mut message, "type mismatch in call to '");
        push_str(&mut message, b.name());
        push_str(&mut message, "': expected an argument of type ");
        push_str(&mut message, b.parameter_type().name());
        push_str(&mut message, ", found ");
        push_str(&mut message, kind_name(&argument));
        return Err(Error::positioned(&message, position));
    }
    match (b, argument) {
        (Builtin::Len, Value::String(s)) => {
            let chars = str_chars(s.as_str());
            Ok(Value::Int(chars.len() as i64))
        },
        (Builtin::IntToString, Value::Int(n)) => {
            let mut text: Vec<char> = Vec::new();
            push_int_text(&mut text, n);
            Ok(Value::String(string_from_chars(text.as_slice())))
        },
        (Builtin::StringToInt, Value::String(s)) => {
            let chars = str_chars(s.as_str());
            match parse_int(chars.as_slice()) {
                Some(n) => Ok(Value::Int(n)),
                None => {
                    let mut message: Vec<char> = Vec::new();
                    push_str(&mut message, "invalid integer text: '");
                    push_str(&mut message, s.as_str());
                    push_str(&mut message, "'");
                    Err(Error::positioned(&message, position))
                },
            }
        },
        (Builtin::BoolToInt, Value::Bool(flag)) => Ok(Value::Int(if flag { 1 } else { 0 })),
        (Builtin::IntToBool, Value::Int(n)) => Ok(Value::Bool(n != 0)),
        (Builtin::BoolToString, Value::Bool(flag)) => Ok(Value::String(if flag { "true".to_owned() } else { "false".to_owned() })),
        (_, Value::String(s)) => {
            if str_eq(s.as_str(), "true") {
                Ok(Value::Bool(true))
            } else if str_eq(s.as_str(), "false") {
                Ok(Value::Bool(false))
            } else {
                let mut message: Vec<char> = Vec::new();
                push_str(&mut message, "invalid boolean text: '");
                push_str(&mut message, s.as_str());
                push_str(&mut message, "'");
                Err(Error::positioned(&message, position))
            }
        },
        _ => vstd::pervasive::unreached(),
    }
}

/// Evaluates an expression at nesting `depth` within `calls` nested calls.
pub fn eval_expression(e: &Expression, fns: &Vec<Function>, env: &mut Vec<(String, Value)>, calls: usize, depth: usize) -> (result: Result<Value, Error>)
    requires
        functions_wf(resolved_views(fns@)),
        calls <= MAX_CALL_DEPTH,
    ensures
        final(env)@ == old(env)@,
        value_outcome(result, eval_expr(e@, env_view(old(env)@), resolved_views(fns@), calls as nat, depth as nat)),
    decreases room(depth as nat), 0nat, 0nat,
{
    if depth >= MAX_EVAL_DEPTH {
        return Err(Error::located("program too deeply nested", e.position()));
    }
    match e {
        Expression::Literal { value, position } => {
            if *value <= 9223372036854775807u64 {
                Ok(Value::Int(*value as i64))
            } else {
                Err(Error::located("integer literal out of range", *position))
            }
        },
        Expression::StringLiteral { value, .. } => Ok(Value::String(value.clone())),
        Expression::BoolLiteral { value, .. } => Ok(Value::Bool(*value)),
        Expression::Variable { name, position } => match lookup_variable(env, name) {
            Some(value) => Ok(value),
            None => {
                let mut message: Vec<char> = Vec::new();
                push_str(&mut message, "undefined variable: '");
                push_str(&mut message, name.as_str());
                push_str(&mut message, "'");
                Err(Error::positioned(&message, *position))
            },
        },
        Expression::Call { callee, arguments, position } => eval_call_at(callee, arguments, *position, fns, env, calls, depth + 1),
        Expression::UnaryNegation { .. } => eval_negation(e, fns, env, calls, depth),
        Expression::UnaryNot { .. } => eval_not(e, fns, env, calls, depth),
        Expression::Binary { .. } => eval_binary(e, fns, env, calls, depth),
        Expression::LogicalAnd { .. } => eval_logical(e, fns, env, calls, depth),
        Expression::LogicalOr { .. } => eval_logical(e, fns, env, calls, depth),
        Expression::If { .. } => eval_if(e, fns, env, calls, depth),
    }
}

/// Evaluates a prefix `!`.
fn eval_not(e: &Expression, fns: &Vec<Function>, env: &mut Vec<(String, Value)>, calls: usize, depth: usize) -> (result: Result<Value, Error>)
    requires
        e is UnaryNot,
        functions_wf(resolved_views(fns@)),
        calls <= MAX_CALL_DEPTH,
    ensures
        final(env)@ == old(env)@,
        value_outcome(result, eval_expr(e@, env_view(old(env)@), resolved_views(fns@), calls as nat, depth as nat)),
    decreases room((depth + 1) as nat), 3nat, 0nat,
{
    if depth >= MAX_EVAL_DEPTH {
        return Err(Error::located("program too deeply nested", e.position()));
    }
    let (operand, position) = match e {
        Expression::UnaryNot { operand, position } => (operand, *position),
        _ => vstd::pervasive::unreached(),
    };
    match eval_expression(operand, fns, env, calls, depth + 1)? {
        Value::Bool(b) => Ok(Value::Bool(!b)),
        other => {
            let mut message: Vec<char> = Vec::new();
            push_str(&mut message, "type mismatch in '!': expected a boolean, found ");
            push_str(&mut message, kind_name(&other));
            Err(Error::positioned(&message, position))
        },
    }
}

/// Evaluates a binary operator: both operands, left first.
fn eval_binary(e: &Expression, fns: &Vec<Function>, env: &mut Vec<(String, Value)>, calls: usize, depth: usize) -> (result: Result<Value, Error>)
    requires
        e is Binary,
        functions_wf(resolved_views(fns@)),
        calls <= MAX_CALL_DEPTH,
    ensures
        final(env)@ == old(env)@,
        value_outcome(result, eval_expr(e@, env_view(old(env)@), resolved_views(fns@), calls as nat, depth as nat)),
    decreases room((depth + 1) as nat), 3nat, 0nat,
{
    if depth >= MAX_EVAL_DEPTH {
        return Err(Error::located("program too deeply nested", e.position()));
    }
    let (operator, left, right, position) = match e {
        Expression::Binary { operator, left, right, position } => (*operator, left, right, *position),
        _ => vstd::pervasive::unreached(),
    };
    let left_value = eval_expression(left, fns, env, calls, depth + 1)?;
    let right_value = eval_expression(right, fns, env, calls, depth + 1)?;
    binary(operator, left_value, right_value, position)
}

/// Evaluates an `if`: the condition, then the chosen branch in a scope of
/// its own.
fn eval_if(e: &Expression, fns: &Vec<Function>, env: &mut Vec<(String, Value)>, calls: usize, depth: usize) -> (result: Result<Value, Error>)
    requires
        e is If,
        functions_wf(resolved_views(fns@)),
        calls <= MAX_CALL_DEPTH,
    ensures
        final(env)@ == old(env)@,
        value_outcome(result, eval_expr(e@, env_view(old(env)@), resolved_views(fns@), calls as nat, depth as nat)),
    decreases room((depth + 1) as nat), 3nat, 0nat,
{
    if depth >= MAX_EVAL_DEPTH {
        return Err(Error::located("program too deeply nested", e.position()));
    }
    let (condition, then_branch, else_branch, position) = match e {
        Expression::If { condition, then_branch, else_branch, position } => (condition, then_branch, else_branch, *position),
        _ => vstd::pervasive::unreached(),
    };
    match eval_expression(condition, fns, env, calls, depth + 1)? {
        Value::Bool(b) => {
            assert(block_view(then_branch).declarations == decls_view(then_branch.declarations@));
            assert(block_view(else_branch).declarations == decls_view(else_branch.declarations@));
            if b {
                eval_scope(&then_branch.declarations, &then_branch.expression, fns, env, calls, depth + 1)
            } else {
                eval_scope(&else_branch.declarations, &else_branch.expression, fns, env, calls, depth + 1)
            }
        },
        other => {
            let mut message: Vec<char> = Vec::new();
            push_str(&mut message, "if condition must be a boolean, found ");
            push_str(&mut message, kind_name(&other));
            Err(Error::positioned(&message, position))
        },
    }
}

/// Evaluates a prefix `-`; the literal `9223372036854775808` directly under
/// it denotes the least integer.
fn eval_negation(e: &Expression, fns: &Vec<Function>, env: &mut Vec<(String, Value)>, calls: usize, depth: usize) -> (result: Result<Value, Error>)
    requires
        e is UnaryNegation,
        functions_wf(resolved_views(fns@)),
        calls <= MAX_CALL_DEPTH,
    ensures
        final(env)@ == old(env)@,
        value_outcome(result, eval_expr(e@, env_view(old(env)@), resolved_views(fns@), calls as nat, depth as nat)),
    decreases room((depth + 1) as nat), 3nat, 0nat,
{
    if depth >= MAX_EVAL_DEPTH {
        return Err(Error::located("program too deeply nested", e.position()));
    }
    let (operand, position) = match e {
        Expression::UnaryNegation { operand, position } => (operand, *position),
        _ => vstd::pervasive::unreached(),
    };
    let least = match &**operand {
        Expression::Literal { value, .. } => *value == 9223372036854775808u64,
        _ => false,
    };
    if least {
        assert(depth + 1 <= MAX_EVAL_DEPTH);
        assert(expr_view(operand) matches crate::ast::ExprView::Literal { value, .. } && value == 9223372036854775808u64);
        return Ok(Value::Int(-9223372036854775808i64));
    }
    match eval_expression(operand, fns, env, calls, depth + 1)? {
        Value::Int(v) => {
            if v == -9223372036854775808i64 {
                Err(Error::located("integer negation overflow", position))
            } else {
                Ok(Value::Int(-v))
            }
        },
        other => {
            let mut message: Vec<char> = Vec::new();
            push_str(&mut message, "type mismatch in '-': expected an integer, found ");
            push_str(&mut message, kind_name(&other));
            Err(Error::positioned(&message, position))
        },
    }
}

/// Evaluates `&&` or `||`; the right operand is evaluated only when the left
/// one does not decide the result.
fn eval_logical(e: &Expression, fns: &Vec<Function>, env: &mut Vec<(String, Value)>, calls: usize, depth: usize) -> (result: Result<Value, Error>)
    requires
        e is LogicalAnd || e is LogicalOr,
        functions_wf(resolved_views(fns@)),
        calls <= MAX_CALL_DEPTH,
    ensures
        final(env)@ == old(env)@,
        value_outcome(result, eval_expr(e@, env_view(old(env)@), resolved_views(fns@), calls as nat, depth as nat)),
    decreases room((depth + 1) as nat), 3nat, 0nat,
{
    if depth >= MAX_EVAL_DEPTH {
        return Err(Error::located("program too deeply nested", e.position()));
    }
    let (left, right, position, conjunction) = match e {
        Expression::LogicalAnd { left, right, position } => (left, right, *position, true),
        Expression::LogicalOr { left, right, position } => (left, right, *position, false),
        _ => vstd::pervasive::unreached(),
    };
    let symbol = if conjunction { "&&" } else { "||" };
    assert(symbol@ == (if conjunction { "&&"@ } else { "||"@ }));
    let left_value = eval_expression(left, fns, env, calls, depth + 1)?;
    let decided = match left_value {
        Value::Bool(b) => b != conjunction,
        other => {
            let mut message: Vec<char> = Vec::new();
            push_str(&mut message, "type mismatch in '");
            push_str(&mut message, symbol);
            push_str(&mut message, "': expected a boolean, found ");
            push_str(&mut message, kind_name(&other));
            return Err(Error::positioned(&message, position));
        },
    };
    if decided {
        return Ok(Value::Bool(!conjunction));
    }
    match eval_expression(right, fns, env, calls, depth + 1)? {
        Value::Bool(b) => Ok(Value::Bool(b)),
        other => {
            let mut message: Vec<char> = Vec::new();
            push_str(&mut message, "type mismatch in '");
            push_str(&mut message, symbol);
            push_str(&mut message, "': expected a boolean, found ");
            push_str(&mut message, kind_name(&other));
            Err(Error::positioned(&message, position))
        },
    }
}

/// Evaluates declarations in order, binding each, then the final expression;
/// the bindings do not outlive the call.
fn eval_scope(
    ds: &Vec<Declaration>,
    expression: &Expression,
    fns: &Vec<Function>,
    env: &mut Vec<(String, Value)>,
    calls: usize,
    depth: usize,
) -> (result: Result<Value, Error>)
    requires
        functions_wf(resolved_views(fns@)),
        calls <= MAX_CALL_DEPTH,
    ensures
        final(env)@ == old(env)@,
        value_outcome(result, eval_body(decls_view(ds@), 0, expression@, env_view(old(env)@), resolved_views(fns@), calls as nat, depth as nat)),
    decreases room(depth as nat), 1nat, 0nat,
{
    proof {
        lemma_decls_view_index(ds@);
    }
    let ghost whole = eval_body(decls_view(ds@), 0, expression@, env_view(env@), resolved_views(fns@), calls as nat, depth as nat);
    let mark = env.len();
    let mut i: usize = 0;
    while i < ds.len()
        invariant
            i <= ds@.len(),
            mark == old(env)@.len(),
            env@.len() >= mark,
            env@.subrange(0, mark as int) == old(env)@,
            decls_view(ds@).len() == ds@.len(),
            forall|k: int| 0 <= k < ds@.len() ==> #[trigger] decls_view(ds@)[k] == decl_view(&ds@[k]),
            functions_wf(resolved_views(fns@)),
            calls <= MAX_CALL_DEPTH,
                whole == eval_body(decls_view(ds@), 0, expression@, env_view(old(env)@), resolved_views(fns@), calls as nat, depth as nat),
            whole == eval_body(decls_view(ds@), i as nat, expression@, env_view(env@), resolved_views(fns@), calls as nat, depth as nat),
        decreases ds@.len() - i,
    {
        let value = match eval_expression(&ds[i].initializer, fns, env, calls, depth) {
            Ok(value) => value,
            Err(error) => {
                env.truncate(mark);
                return Err(error);
            },
        };
        let ghost before = env@;
        env.push((ds[i].name.clone(), value));
        proof {
            assert(env_view(env@) =~= env_view(before).push((ds@[i as int].name@, value@)));
            assert(env@.subrange(0, mark as int) =~= before.subrange(0, mark as int));
        }
        i = i + 1;
    }
    let result = eval_expression(expression, fns, env, calls, depth);
    env.truncate(mark);
    result
}

/// Evaluates arguments in order.
fn eval_arguments(args: &Vec<Expression>, fns: &Vec<Function>, env: &mut Vec<(String, Value)>, calls: usize, depth: usize) -> (result: Result<Vec<Value>, Error>)
    requires
        functions_wf(resolved_views(fns@)),
        calls <= MAX_CALL_DEPTH,
    ensures
        final(env)@ == old(env)@,
        match eval_args(exprs_view(args@), 0, env_view(old(env)@), resolved_views(fns@), calls as nat, depth as nat, Seq::empty()) {
            Ok(vs) => result is Ok && values_view(result->Ok_0@) == vs,
            Err(e) => result is Err && result->Err_0@ == e,
        },
    decreases room(depth as nat), 1nat, 0nat,
{
    proof {
        lemma_exprs_view_index(args@);
    }
    let ghost whole = eval_args(exprs_view(args@), 0, env_view(env@), resolved_views(fns@), calls as nat, depth as nat, Seq::empty());
    let mut values: Vec<Value> = Vec::new();
    assert(values_view(values@) =~= Seq::empty());
    let mut i: usize = 0;
    while i < args.len()
        invariant
            i <= args@.len(),
            env@ == old(env)@,
            exprs_view(args@).len() == args@.len(),
            forall|k: int| 0 <= k < args@.len() ==> #[trigger] exprs_view(args@)[k] == expr_view(&args@[k]),
            functions_wf(resolved_views(fns@)),
            calls <= MAX_CALL_DEPTH,
                whole == eval_args(exprs_view(args@), 0, env_view(old(env)@), resolved_views(fns@), calls as nat, depth as nat, Seq::empty()),
            whole == eval_args(exprs_view(args@), i as nat, env_view(env@), resolved_views(fns@), calls as nat, depth as nat, values_view(values@)),
        decreases args@.len() - i,
    {
        let value = eval_expression(&args[i], fns, env, calls, depth)?;
        let ghost before = values@;
        values.push(value);
        assert(values_view(values@) =~= values_view(before).push(value@));
        i = i + 1;
    }
    Ok(values)
}

/// The first argument whose type differs from its parameter's.
fn first_mismatch(values: &Vec<Value>, types: &Vec<Option<Type>>) -> (index: Option<usize>)
    requires
        values@.len() == types@.len(),
    ensures
        match mismatch_from(values_view(values@), types@, 0) {
            Some(i) => index is Some && index->0 as nat == i && i < values@.len() && types@[i as int] is Some,
            None => index is None,
        },
{
    let mut i: usize = 0;
    while i < values.len()
        invariant
            i <= values@.len(),
            values@.len() == types@.len(),
            mismatch_from(values_view(values@), types@, 0) == mismatch_from(values_view(values@), types@, i as nat),
        decreases values@.len() - i,
    {
        if let Some(t) = types[i] {
            if type_of(&values[i]) != t {
                return Some(i);
            }
        }
        i = i + 1;
    }
    None
}

/// Binds each parameter to its argument value, in order.
fn bind_parameters(env: &mut Vec<(String, Value)>, names: &Vec<String>, values: &Vec<Value>)
    requires
        values@.len() == names@.len(),
    ensures
        final(env)@.len() == old(env)@.len() + names@.len(),
        final(env)@.subrange(0, old(env)@.len() as int) == old(env)@,
        env_view(final(env)@) == env_view(old(env)@) + bind(strings_view(names@), values_view(values@)),
{
    let ghost bound = bind(strings_view(names@), values_view(values@));
    let mut j: usize = 0;
    while j < names.len()
        invariant
            j <= names@.len(),
            values@.len() == names@.len(),
            bound == bind(strings_view(names@), values_view(values@)),
            env@.len() == old(env)@.len() + j,
            env@.subrange(0, old(env)@.len() as int) == old(env)@,
            env_view(env@) == env_view(old(env)@) + bound.subrange(0, j as int),
        decreases names@.len() - j,
    {
        let ghost before = env@;
        env.push((names[j].clone(), values[j].duplicate()));
        proof {
            assert(bound.subrange(0, j + 1) =~= bound.subrange(0, j as int).push(bound[j as int]));
            assert(env_view(env@) =~= env_view(before).push(bound[j as int]));
            assert(env@.subrange(0, old(env)@.len() as int) =~= before.subrange(0, old(env)@.len() as int));
        }
        j = j + 1;
    }
    assert(bound.subrange(0, j as int) =~= bound);
}

/// Evaluates a call: a built-in, or a declared function whose body runs with
/// its parameters bound, one call deeper.
fn eval_call_at(
    callee: &String,
    args: &Vec<Expression>,
    position: Option<SourcePosition>,
    fns: &Vec<Function>,
    env: &mut Vec<(String, Value)>,
    calls: usize,
    depth: usize,
) -> (result: Result<Value, Error>)
    requires
        functions_wf(resolved_views(fns@)),
        calls <= MAX_CALL_DEPTH,
    ensures
        final(env)@ == old(env)@,
        value_outcome(result, eval_call(callee@, exprs_view(args@), position, env_view(old(env)@), resolved_views(fns@), calls as nat, depth as nat)),
    decreases room(depth as nat), 2nat, 0nat,
{
    proof {
        lemma_exprs_view_index(args@);
    }
    if let Some(b) = Builtin::named(callee.as_str()) {
        if args.len() != 1 {
            return Err(arity_error(callee, 1, args.len(), position));
        }
        let mut values = eval_arguments(args, fns, env, calls, depth)?;
        let argument = values.remove(0);
        return apply_builtin(b, argument, position);
    }
    let fi = match find_function(fns, callee) {
        Some(fi) => fi,
        None => {
            let mut message: Vec<char> = Vec::new();
            push_str(&mut message, "undefined function: '");
            push_str(&mut message, callee.as_str());
            push_str(&mut message, "'");
            return Err(Error::positioned(&message, position));
        },
    };
    let function = &fns[fi];
    let ghost f = resolved_views(fns@)[fi as int];
    assert(f == crate::typecheck::resolved_view(fns@[fi as int]));
    if args.len() != function.parameters.len() {
        return Err(arity_error(callee, function.parameters.len(), args.len(), position));
    }
    let values = eval_arguments(args, fns, env, calls, depth)?;
    proof {
        lemma_eval_args_len(exprs_view(args@), 0, env_view(env@), resolved_views(fns@), calls as nat, depth as nat, Seq::empty());
    }
    if let Some(i) = first_mismatch(&values, &function.parameter_types) {
        let mut message: Vec<char> = Vec::new();
        push_str(&mut message, "type mismatch in call to '");
        push_str(&mut message, callee.as_str());
        push_str(&mut message, "': expected an argument of type ");
        let expected = match function.parameter_types[i] {
            Some(t) => t,
            None => vstd::pervasive::unreached(),
        };
        push_str(&mut message, expected.name());
        push_str(&mut message, ", found ");
        push_str(&mut message, kind_name(&values[i]));
        return Err(Error::positioned(&message, position));
    }
    if calls + 1 > MAX_CALL_DEPTH {
        return Err(Error::located("call depth limit exceeded", position));
    }
    let mark = env.len();
    let ghost outer = env@;
    bind_parameters(env, &function.parameters, &values);
    let result = eval_scope(&function.body.declarations, &function.body.expression, fns, env, calls + 1, depth);
    env.truncate(mark);
    assert(env@ =~= outer);
    result
}

/// `wrong number of arguments for function '<callee>': expected <e>, found <f>`.
fn arity_error(callee: &String, expected: usize, found: usize, position: Option<SourcePosition>) -> (error: Error)
    ensures
        error@ == crate::semantics::arity_error(callee@, expected as nat, found as nat, position),
{
    let mut message: Vec<char> = Vec::new();
    push_str(&mut message, "wrong number of arguments for function '");
    push_str(&mut message, callee.as_str());
    push_str(&mut message, "': expected ");
    push_usize_text(&mut message, expected);
    push_str(&mut message, ", found ");
    push_usize_text(&mut message, found);
    Error::positioned(&message, position)
}

/// Evaluates a parsed program with the functions the type checker resolved.
pub fn evaluate(program: &Program, functions: &Vec<Function>) -> (result: Result<Value, Error>)
    requires
        functions_wf(resolved_views(functions@)),
    ensures
        value_outcome(result, eval_program(program@, resolved_views(functions@))),
{
    let mut env: Vec<(String, Value)> = Vec::new();
    assert(env_view(env@) =~= Seq::empty());
    eval_scope(&program.declarations, &program.expression, functions, &mut env, 0, 0)
}

} // verus!
