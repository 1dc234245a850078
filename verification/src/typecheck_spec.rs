//! The type rules of the language as functions on program views.
//!
//! Checking an expression yields a [`Flow`] (its type, or where an unknown
//! type comes from) and the refined function signatures. Function types are
//! inferred by iterating a checking pass over the whole program until the
//! signatures stop changing. Every checking function takes `strict`: when
//! set, a built-in call has its fixed result type; when not, its result's
//! type is left unknown.

use vstd::prelude::*;

use crate::ast::{name_of_type, BinaryOperator, BlockView, DeclView, ExprView, FunctionView, ProgramView, Type};
use crate::builtins::{builtin_named, builtin_parameter, builtin_result};
use crate::error::{error_of, ErrorView, SourcePosition};
use crate::text::decimal;

verus! {

/// The inference lattice: `Unknown` below the three types, `Mixed` above
/// them for two incompatible demands on one slot.
#[derive(Debug, Clone, Copy, PartialEq, Eq, Structural)]
pub enum Lattice {
    Unknown,
    Concrete(Type),
    Mixed,
}

/// Where an unknown type comes from: a parameter slot of a function, the
/// result slot of a function, or a combination that names no single slot.
#[derive(Debug, Clone, Copy, PartialEq, Eq, Structural)]
pub enum Where {
    Param(usize, usize),
    Result(usize),
    Aggregate,
}

/// The inferred type of an expression.
#[derive(Debug, Clone, Copy, PartialEq, Eq, Structural)]
pub enum Flow {
    Concrete(Type),
    Mixed,
    Unknown(Where),
}

/// A function signature as inference refines it.
pub struct SigView {
    pub name: Seq<char>,
    pub params: Seq<Lattice>,
    pub result: Lattice,
}

/// The parameters in scope inside the body of function `function`.
pub struct ParamsView {
    pub function: usize,
    pub names: Seq<Seq<char>>,
}

/// Local variables in scope, innermost last.
pub type Locals = Seq<(Seq<char>, Lattice)>;

/// The outcome of checking a phrase: its flow and the refined signatures.
pub type Checked<T> = Result<(T, Seq<SigView>), ErrorView>;

/// Least upper bound in the inference order.
pub open spec fn join(left: Lattice, right: Lattice) -> Lattice {
    match (left, right) {
        (Lattice::Unknown, other) => other,
        (other, Lattice::Unknown) => other,
        (Lattice::Mixed, _) => Lattice::Mixed,
        (_, Lattice::Mixed) => Lattice::Mixed,
        (Lattice::Concrete(a), Lattice::Concrete(b)) => if a == b {
            Lattice::Concrete(a)
        } else {
            Lattice::Mixed
        },
    }
}

pub open spec fn flow_lattice(flow: Flow) -> Lattice {
    match flow {
        Flow::Concrete(ty) => Lattice::Concrete(ty),
        Flow::Mixed => Lattice::Mixed,
        Flow::Unknown(_) => Lattice::Unknown,
    }
}

/// The flow of a value whose slot holds `lattice`, coming from `from`.
pub open spec fn lattice_flow(lattice: Lattice, from: Where) -> Flow {
    match lattice {
        Lattice::Unknown => Flow::Unknown(from),
        Lattice::Concrete(ty) => Flow::Concrete(ty),
        Lattice::Mixed => Flow::Mixed,
    }
}

/// How a flow is named in error messages.
pub open spec fn flow_name(flow: Flow) -> Seq<char> {
    match flow {
        Flow::Concrete(ty) => name_of_type(ty),
        Flow::Mixed => "mixed types"@,
        Flow::Unknown(_) => "an unresolved type"@,
    }
}

/// An error at `position`, if there is one.
pub open spec fn positioned(message: Seq<char>, position: Option<SourcePosition>) -> ErrorView {
    error_of(message, position)
}

/// The first index at or after `i` holding `name`.
pub open spec fn index_from(names: Seq<Seq<char>>, i: nat, name: Seq<char>) -> Option<nat>
    decreases names.len() - i,
{
    if i >= names.len() {
        None
    } else if names[i as int] == name {
        Some(i)
    } else {
        index_from(names, i + 1, name)
    }
}

/// The first signature at or after `i` named `name`.
pub open spec fn signature_from(sigs: Seq<SigView>, i: nat, name: Seq<char>) -> Option<nat>
    decreases sigs.len() - i,
{
    if i >= sigs.len() {
        None
    } else if sigs[i as int].name == name {
        Some(i)
    } else {
        signature_from(sigs, i + 1, name)
    }
}

/// The innermost local named `name`.
pub open spec fn lookup_local(locals: Locals, name: Seq<char>) -> Option<Lattice>
    decreases locals.len(),
{
    if locals.len() == 0 {
        None
    } else if locals.last().0 == name {
        Some(locals.last().1)
    } else {
        lookup_local(locals.drop_last(), name)
    }
}

/// The flow of a variable: a parameter first, then the innermost local.
pub open spec fn variable_flow(name: Seq<char>, ps: Option<ParamsView>, locals: Locals, sigs: Seq<SigView>) -> Option<Flow> {
    let parameter = match ps {
        Some(p) => match index_from(p.names, 0, name) {
            Some(pi) => Some(lattice_flow(sigs[p.function as int].params[pi as int], Where::Param(p.function, pi as usize))),
            None => None,
        },
        None => None,
    };
    match parameter {
        Some(flow) => Some(flow),
        None => match lookup_local(locals, name) {
            Some(lattice) => Some(lattice_flow(lattice, Where::Aggregate)),
            None => None,
        },
    }
}

pub open spec fn set_param(sigs: Seq<SigView>, fi: int, pi: int, lattice: Lattice) -> Seq<SigView> {
    sigs.update(fi, SigView { name: sigs[fi].name, params: sigs[fi].params.update(pi, lattice), result: sigs[fi].result })
}

pub open spec fn set_result(sigs: Seq<SigView>, fi: int, lattice: Lattice) -> Seq<SigView> {
    sigs.update(fi, SigView { name: sigs[fi].name, params: sigs[fi].params, result: lattice })
}

/// Pins the slot an unknown flow comes from to `required`.
pub open spec fn pin(flow: Flow, required: Type, sigs: Seq<SigView>) -> Seq<SigView> {
    match flow {
        Flow::Unknown(Where::Param(fi, pi)) => set_param(
            sigs,
            fi as int,
            pi as int,
            join(sigs[fi as int].params[pi as int], Lattice::Concrete(required)),
        ),
        Flow::Unknown(Where::Result(fi)) => set_result(
            sigs,
            fi as int,
            join(sigs[fi as int].result, Lattice::Concrete(required)),
        ),
        _ => sigs,
    }
}

/// Whether a flow is a settled type other than `required`.
pub open spec fn is_bad_operand(flow: Flow, required: Type) -> bool {
    match flow {
        Flow::Concrete(ty) => ty != required,
        Flow::Mixed => true,
        Flow::Unknown(_) => false,
    }
}

/// The article-prefixed type name used by unary operator errors.
pub open spec fn expected_one(ty: Type) -> Seq<char> {
    match ty {
        Type::Int => "an integer"@,
        Type::Bool => "a boolean"@,
        Type::String => "a string"@,
    }
}

/// A prefix operator demands one operand type.
pub open spec fn require_unary(flow: Flow, symbol: Seq<char>, required: Type, position: Option<SourcePosition>, sigs: Seq<SigView>) -> Result<Seq<SigView>, ErrorView> {
    if is_bad_operand(flow, required) {
        Err(positioned(
            "type mismatch in '"@ + symbol + "': expected "@ + expected_one(required) + ", found "@ + flow_name(flow),
            position,
        ))
    } else {
        Ok(pin(flow, required, sigs))
    }
}

/// A binary operator demands two operands of one type.
pub open spec fn require_two(left: Flow, right: Flow, required: Type, family: Seq<char>, symbol: Seq<char>, position: Option<SourcePosition>, sigs: Seq<SigView>) -> Result<Seq<SigView>, ErrorView> {
    if is_bad_operand(left, required) || is_bad_operand(right, required) {
        Err(mismatch_two(symbol, family, left, right, position))
    } else {
        Ok(pin(right, required, pin(left, required, sigs)))
    }
}

pub open spec fn mismatch_two(symbol: Seq<char>, family: Seq<char>, left: Flow, right: Flow, position: Option<SourcePosition>) -> ErrorView {
    positioned(
        "type mismatch in '"@ + symbol + "': expected two "@ + family + ", found "@ + flow_name(left) + " and "@ + flow_name(right),
        position,
    )
}

pub open spec fn concrete_type(flow: Flow) -> Option<Type> {
    match flow {
        Flow::Concrete(ty) => Some(ty),
        _ => None,
    }
}

/// `+` adds two integers or concatenates two strings; the intended type is
/// taken from any settled operand, and a boolean operand is an error.
pub open spec fn add_flow(left: Flow, right: Flow, position: Option<SourcePosition>, sigs: Seq<SigView>) -> Checked<Flow> {
    let error = mismatch_two("+"@, "integers or two strings"@, left, right, position);
    if left == Flow::Mixed || right == Flow::Mixed {
        Err(error)
    } else {
        match (concrete_type(left), concrete_type(right)) {
            (Some(a), Some(b)) => if a != b || a == Type::Bool {
                Err(error)
            } else {
                Ok((Flow::Concrete(a), pin(right, a, pin(left, a, sigs))))
            },
            (Some(a), None) => if a == Type::Bool {
                Err(error)
            } else {
                Ok((Flow::Concrete(a), pin(right, a, pin(left, a, sigs))))
            },
            (None, Some(b)) => if b == Type::Bool {
                Err(error)
            } else {
                Ok((Flow::Concrete(b), pin(right, b, pin(left, b, sigs))))
            },
            (None, None) => Ok((Flow::Unknown(Where::Aggregate), sigs)),
        }
    }
}

/// The ordering comparisons compare two integers or two strings and yield a
/// boolean; the intended operand type is taken from any settled operand.
pub open spec fn ordering_flow(symbol: Seq<char>, left: Flow, right: Flow, position: Option<SourcePosition>, sigs: Seq<SigView>) -> Checked<Flow> {
    let error = mismatch_two(symbol, "integers"@, left, right, position);
    if left == Flow::Mixed || right == Flow::Mixed {
        Err(error)
    } else {
        match (concrete_type(left), concrete_type(right)) {
            (Some(a), Some(b)) => if a != b || a == Type::Bool {
                Err(error)
            } else {
                Ok((Flow::Concrete(Type::Bool), sigs))
            },
            (Some(a), None) => if a == Type::Bool {
                Err(error)
            } else {
                Ok((Flow::Concrete(Type::Bool), pin(right, a, sigs)))
            },
            (None, Some(b)) => if b == Type::Bool {
                Err(error)
            } else {
                Ok((Flow::Concrete(Type::Bool), pin(left, b, sigs)))
            },
            (None, None) => Ok((Flow::Concrete(Type::Bool), sigs)),
        }
    }
}

/// The symbol of a binary operator as written in source.
pub open spec fn operator_symbol(operator: BinaryOperator) -> Seq<char> {
    match operator {
        BinaryOperator::Add => "+"@,
        BinaryOperator::Subtract => "-"@,
        BinaryOperator::Multiply => "*"@,
        BinaryOperator::Divide => "/"@,
        BinaryOperator::Remainder => "%"@,
        BinaryOperator::LessThan => "<"@,
        BinaryOperator::LessThanOrEqual => "<="@,
        BinaryOperator::GreaterThan => ">"@,
        BinaryOperator::GreaterThanOrEqual => ">="@,
        BinaryOperator::Equal => "=="@,
        BinaryOperator::NotEqual => "!="@,
    }
}

/// The flow of a binary operation given the flows of its operands.
pub open spec fn binary_flow(operator: BinaryOperator, left: Flow, right: Flow, position: Option<SourcePosition>, sigs: Seq<SigView>) -> Checked<Flow> {
    match operator {
        BinaryOperator::Add => add_flow(left, right, position, sigs),
        BinaryOperator::Equal | BinaryOperator::NotEqual => {
            if left is Concrete && right is Concrete && left != right {
                Err(positioned(
                    "type mismatch in '"@ + operator_symbol(operator) + "': expected two values of the same type, found "@
                        + flow_name(left) + " and "@ + flow_name(right),
                    position,
                ))
            } else {
                Ok((Flow::Concrete(Type::Bool), sigs))
            }
        },
        BinaryOperator::LessThan | BinaryOperator::LessThanOrEqual | BinaryOperator::GreaterThan
        | BinaryOperator::GreaterThanOrEqual => ordering_flow(operator_symbol(operator), left, right, position, sigs),
        _ => match require_two(left, right, Type::Int, "integers"@, operator_symbol(operator), position, sigs) {
            Err(e) => Err(e),
            Ok(s) => Ok((Flow::Concrete(Type::Int), s)),
        },
    }
}

/// The two branches of an `if` must agree on their type.
pub open spec fn unify_branches(then_flow: Flow, else_flow: Flow, position: Option<SourcePosition>) -> Result<Flow, ErrorView> {
    let error = positioned(
        "if branches must have the same type, found "@ + flow_name(then_flow) + " and "@ + flow_name(else_flow),
        position,
    );
    if then_flow is Concrete && else_flow is Concrete {
        if then_flow != else_flow { Err(error) } else { Ok(then_flow) }
    } else if then_flow == Flow::Mixed || else_flow == Flow::Mixed {
        Err(error)
    } else {
        match (then_flow, else_flow) {
            (Flow::Unknown(_), Flow::Concrete(ty)) => Ok(Flow::Concrete(ty)),
            (Flow::Concrete(ty), Flow::Unknown(_)) => Ok(Flow::Concrete(ty)),
            _ => Ok(Flow::Unknown(Where::Aggregate)),
        }
    }
}

pub open spec fn wrong_arity(callee: Seq<char>, expected: nat, found: nat, position: Option<SourcePosition>) -> ErrorView {
    positioned(
        "wrong number of arguments for function '"@ + callee + "': expected "@ + decimal(expected) + ", found "@ + decimal(found),
        position,
    )
}

pub open spec fn argument_mismatch(callee: Seq<char>, index: nat, expected: Type, found: Seq<char>, position: Option<SourcePosition>) -> ErrorView {
    positioned(
        "type mismatch in call to '"@ + callee + "': expected argument "@ + decimal(index + 1) + " to be "@
            + name_of_type(expected) + ", found "@ + found,
        position,
    )
}

/// Checks an expression; with `strict`, built-in calls have their fixed
/// result types.
pub open spec fn tc_expr(strict: bool, e: ExprView, ps: Option<ParamsView>, locals: Locals, sigs: Seq<SigView>) -> Checked<Flow>
    decreases e, 0nat,
{
    match e {
        ExprView::Literal { .. } => Ok((Flow::Concrete(Type::Int), sigs)),
        ExprView::StringLiteral { .. } => Ok((Flow::Concrete(Type::String), sigs)),
        ExprView::BoolLiteral { .. } => Ok((Flow::Concrete(Type::Bool), sigs)),
        ExprView::Variable { name, position } => match variable_flow(name, ps, locals, sigs) {
            Some(flow) => Ok((flow, sigs)),
            None => Err(positioned("undefined variable: '"@ + name + "'"@, position)),
        },
        ExprView::Call { callee, arguments, position } => match builtin_named(callee) {
            Some(b) => tc_builtin_call(strict, arguments, callee, builtin_parameter(b), builtin_result(b), position, ps, locals, sigs),
            None => match signature_from(sigs, 0, callee) {
                None => Err(positioned("undefined function: '"@ + callee + "'"@, position)),
                Some(fi) => if arguments.len() != sigs[fi as int].params.len() {
                    Err(wrong_arity(callee, sigs[fi as int].params.len(), arguments.len(), position))
                } else {
                    match tc_args(strict, arguments, 0, fi, callee, position, ps, locals, sigs) {
                        Err(err) => Err(err),
                        Ok(s) => Ok((lattice_flow(s[fi as int].result, Where::Result(fi as usize)), s)),
                    }
                },
            },
        },
        ExprView::UnaryNegation { operand, position } => match tc_expr(strict, *operand, ps, locals, sigs) {
            Err(err) => Err(err),
            Ok((flow, s1)) => match require_unary(flow, "-"@, Type::Int, position, s1) {
                Err(err) => Err(err),
                Ok(s2) => Ok((Flow::Concrete(Type::Int), s2)),
            },
        },
        ExprView::UnaryNot { operand, position } => match tc_expr(strict, *operand, ps, locals, sigs) {
            Err(err) => Err(err),
            Ok((flow, s1)) => match require_unary(flow, "!"@, Type::Bool, position, s1) {
                Err(err) => Err(err),
                Ok(s2) => Ok((Flow::Concrete(Type::Bool), s2)),
            },
        },
        ExprView::LogicalAnd { left, right, position } => match tc_expr(strict, *left, ps, locals, sigs) {
            Err(err) => Err(err),
            Ok((lf, s1)) => match tc_expr(strict, *right, ps, locals, s1) {
                Err(err) => Err(err),
                Ok((rf, s2)) => match require_two(lf, rf, Type::Bool, "booleans"@, "&&"@, position, s2) {
                    Err(err) => Err(err),
                    Ok(s3) => Ok((Flow::Concrete(Type::Bool), s3)),
                },
            },
        },
        ExprView::LogicalOr { left, right, position } => match tc_expr(strict, *left, ps, locals, sigs) {
            Err(err) => Err(err),
            Ok((lf, s1)) => match tc_expr(strict, *right, ps, locals, s1) {
                Err(err) => Err(err),
                Ok((rf, s2)) => match require_two(lf, rf, Type::Bool, "booleans"@, "||"@, position, s2) {
                    Err(err) => Err(err),
                    Ok(s3) => Ok((Flow::Concrete(Type::Bool), s3)),
                },
            },
        },
        ExprView::Binary { operator, left, right, position } => match tc_expr(strict, *left, ps, locals, sigs) {
            Err(err) => Err(err),
            Ok((lf, s1)) => match tc_expr(strict, *right, ps, locals, s1) {
                Err(err) => Err(err),
                Ok((rf, s2)) => binary_flow(operator, lf, rf, position, s2),
            },
        },
        ExprView::If { condition, then_branch, else_branch, position } => match tc_expr(strict, *condition, ps, locals, sigs) {
            Err(err) => Err(err),
            Ok((cf, s1)) => if is_bad_operand(cf, Type::Bool) {
                Err(positioned("if condition must be a boolean, found "@ + flow_name(cf), position))
            } else {
                match tc_block(strict, *then_branch, ps, locals, pin(cf, Type::Bool, s1)) {
                    Err(err) => Err(err),
                    Ok((tf, s2)) => match tc_block(strict, *else_branch, ps, locals, s2) {
                        Err(err) => Err(err),
                        Ok((ef, s3)) => match unify_branches(tf, ef, position) {
                            Err(err) => Err(err),
                            Ok(flow) => Ok((flow, s3)),
                        },
                    },
                }
            },
        },
    }
}

/// Checks the arguments of a call to function `fi` from index `i` on; each
/// argument refines the matching parameter slot, and a settled argument type
/// that differs from a settled slot is an error.
pub open spec fn tc_args(
    strict: bool,
    args: Seq<ExprView>,
    i: nat,
    fi: nat,
    callee: Seq<char>,
    position: Option<SourcePosition>,
    ps: Option<ParamsView>,
    locals: Locals,
    sigs: Seq<SigView>,
) -> Result<Seq<SigView>, ErrorView>
    decreases args, args.len() - i,
{
    if i >= args.len() {
        Ok(sigs)
    } else {
        match tc_expr(strict, args[i as int], ps, locals, sigs) {
            Err(err) => Err(err),
            Ok((flow, s1)) => {
                let slot = s1[fi as int].params[i as int];
                match (slot, flow) {
                    (Lattice::Concrete(expected), Flow::Concrete(found)) if expected != found => Err(
                        argument_mismatch(callee, i, expected, name_of_type(found), position),
                    ),
                    _ => tc_args(strict, args, i + 1, fi, callee, position, ps, locals, set_param(s1, fi as int, i as int, join(slot, flow_lattice(flow)))),
                }
            },
        }
    }
}

/// Checks a call to a built-in, whose one parameter has a fixed type. Its
/// fixed result type is the call's flow when `strict`; otherwise the
/// result's type is left unknown, constraining nothing around the call.
pub open spec fn tc_builtin_call(
    strict: bool,
    args: Seq<ExprView>,
    callee: Seq<char>,
    parameter: Type,
    result: Type,
    position: Option<SourcePosition>,
    ps: Option<ParamsView>,
    locals: Locals,
    sigs: Seq<SigView>,
) -> Checked<Flow>
    decreases args, 0nat,
{
    if args.len() != 1 {
        Err(wrong_arity(callee, 1, args.len(), position))
    } else {
        match tc_expr(strict, args[0], ps, locals, sigs) {
            Err(err) => Err(err),
            Ok((flow, s1)) => if is_bad_operand(flow, parameter) {
                Err(argument_mismatch(callee, 0, parameter, flow_name(flow), position))
            } else {
                Ok((builtin_flow(strict, result), pin(flow, parameter, s1)))
            },
        }
    }
}

/// The flow of a built-in call's result: its fixed type when checking
/// strictly, unknown otherwise.
pub open spec fn builtin_flow(strict: bool, result: Type) -> Flow {
    if strict {
        Flow::Concrete(result)
    } else {
        Flow::Unknown(Where::Aggregate)
    }
}

/// Checks declarations from index `i` on, each binding its name for the rest.
pub open spec fn tc_decls(strict: bool, ds: Seq<DeclView>, i: nat, ps: Option<ParamsView>, locals: Locals, sigs: Seq<SigView>) -> Result<(Locals, Seq<SigView>), ErrorView>
    decreases ds, ds.len() - i,
{
    if i >= ds.len() {
        Ok((locals, sigs))
    } else {
        match tc_expr(strict, ds[i as int].initializer, ps, locals, sigs) {
            Err(err) => Err(err),
            Ok((flow, s1)) => tc_decls(strict, ds, i + 1, ps, locals.push((ds[i as int].name, flow_lattice(flow))), s1),
        }
    }
}

/// Checks a block; its declarations do not outlive it.
pub open spec fn tc_block(strict: bool, b: BlockView, ps: Option<ParamsView>, locals: Locals, sigs: Seq<SigView>) -> Checked<Flow>
    decreases b, 0nat,
{
    match tc_decls(strict, b.declarations, 0, ps, locals, sigs) {
        Err(err) => Err(err),
        Ok((inner, s1)) => tc_expr(strict, b.expression, ps, inner, s1),
    }
}

/// Checks the top-level declarations and final expression.
pub open spec fn tc_top(strict: bool, p: ProgramView, sigs: Seq<SigView>) -> Result<Seq<SigView>, ErrorView> {
    match tc_decls(strict, p.declarations, 0, None, Seq::empty(), sigs) {
        Err(err) => Err(err),
        Ok((locals, s1)) => match tc_expr(strict, p.expression, None, locals, s1) {
            Err(err) => Err(err),
            Ok((_, s2)) => Ok(s2),
        },
    }
}

/// The parameters in scope in the body of function `fi`.
pub open spec fn params_of(p: ProgramView, fi: nat) -> ParamsView {
    ParamsView { function: fi as usize, names: p.functions[fi as int].parameters }
}

/// Checks the bodies of the functions from index `fi` on, joining each
/// body's flow into its function's result slot.
pub open spec fn tc_functions(strict: bool, p: ProgramView, fi: nat, sigs: Seq<SigView>) -> Result<Seq<SigView>, ErrorView>
    decreases p.functions.len() - fi,
{
    if fi >= p.functions.len() {
        Ok(sigs)
    } else {
        match tc_block(strict, p.functions[fi as int].body, Some(params_of(p, fi)), Seq::empty(), sigs) {
            Err(err) => Err(err),
            Ok((flow, s1)) => tc_functions(strict, p, fi + 1, set_result(s1, fi as int, join(s1[fi as int].result, flow_lattice(flow)))),
        }
    }
}

/// One inference pass: every function body, then the top level.
pub open spec fn tc_pass(strict: bool, p: ProgramView, sigs: Seq<SigView>) -> Result<Seq<SigView>, ErrorView> {
    match tc_functions(strict, p, 0, sigs) {
        Err(err) => Err(err),
        Ok(s1) => tc_top(strict, p, s1),
    }
}

/// Runs at most `passes` passes until the signatures stop changing.
pub open spec fn infer(strict: bool, p: ProgramView, sigs: Seq<SigView>, passes: nat) -> Result<Seq<SigView>, ErrorView>
    decreases passes,
{
    if passes == 0 {
        Err(error_of("could not infer the types of the declared functions"@, None))
    } else {
        match tc_pass(strict, p, sigs) {
            Err(err) => Err(err),
            Ok(next) => if next == sigs { Ok(next) } else { infer(strict, p, next, (passes - 1) as nat) },
        }
    }
}

/// The number of passes inference may take for `n` functions.
pub open spec fn max_passes(n: nat) -> nat {
    n * 8 + 32
}

/// The signatures before inference: every slot unknown.
pub open spec fn initial_signatures(fs: Seq<FunctionView>) -> Seq<SigView> {
    Seq::new(fs.len(), |i: int| SigView {
        name: fs[i].name,
        params: Seq::new(fs[i].parameters.len(), |j: int| Lattice::Unknown),
        result: Lattice::Unknown,
    })
}

pub open spec fn undefined_function(callee: Seq<char>, position: Option<SourcePosition>) -> ErrorView {
    positioned("undefined function: '"@ + callee + "'"@, position)
}

/// Every call in an expression names a declared function or a built-in.
pub open spec fn shape_expr(e: ExprView, names: Seq<Seq<char>>) -> Result<(), ErrorView>
    decreases e, 0nat,
{
    match e {
        ExprView::Call { callee, arguments, position } => if !names.contains(callee) && builtin_named(callee) is None {
            Err(undefined_function(callee, position))
        } else {
            shape_args(arguments, 0, names)
        },
        ExprView::UnaryNegation { operand, .. } => shape_expr(*operand, names),
        ExprView::UnaryNot { operand, .. } => shape_expr(*operand, names),
        ExprView::Binary { left, right, .. } => match shape_expr(*left, names) {
            Err(err) => Err(err),
            Ok(_) => shape_expr(*right, names),
        },
        ExprView::LogicalAnd { left, right, .. } => match shape_expr(*left, names) {
            Err(err) => Err(err),
            Ok(_) => shape_expr(*right, names),
        },
        ExprView::LogicalOr { left, right, .. } => match shape_expr(*left, names) {
            Err(err) => Err(err),
            Ok(_) => shape_expr(*right, names),
        },
        ExprView::If { condition, then_branch, else_branch, .. } => match shape_expr(*condition, names) {
            Err(err) => Err(err),
            Ok(_) => match shape_block(*then_branch, names) {
                Err(err) => Err(err),
                Ok(_) => shape_block(*else_branch, names),
            },
        },
        _ => Ok(()),
    }
}

pub open spec fn shape_args(args: Seq<ExprView>, i: nat, names: Seq<Seq<char>>) -> Result<(), ErrorView>
    decreases args, args.len() - i,
{
    if i >= args.len() {
        Ok(())
    } else {
        match shape_expr(args[i as int], names) {
            Err(err) => Err(err),
            Ok(_) => shape_args(args, i + 1, names),
        }
    }
}

pub open spec fn shape_decls(ds: Seq<DeclView>, i: nat, names: Seq<Seq<char>>) -> Result<(), ErrorView>
    decreases ds, ds.len() - i,
{
    if i >= ds.len() {
        Ok(())
    } else {
        match shape_expr(ds[i as int].initializer, names) {
            Err(err) => Err(err),
            Ok(_) => shape_decls(ds, i + 1, names),
        }
    }
}

/// A block's final expression is checked before its declarations.
pub open spec fn shape_block(b: BlockView, names: Seq<Seq<char>>) -> Result<(), ErrorView>
    decreases b, 0nat,
{
    match shape_expr(b.expression, names) {
        Err(err) => Err(err),
        Ok(_) => shape_decls(b.declarations, 0, names),
    }
}

pub open spec fn function_names(fs: Seq<FunctionView>) -> Seq<Seq<char>> {
    fs.map_values(|f: FunctionView| f.name)
}

pub open spec fn shape_functions(p: ProgramView, fi: nat) -> Result<(), ErrorView>
    decreases p.functions.len() - fi,
{
    if fi >= p.functions.len() {
        Ok(())
    } else {
        match shape_block(p.functions[fi as int].body, function_names(p.functions)) {
            Err(err) => Err(err),
            Ok(_) => shape_functions(p, fi + 1),
        }
    }
}

/// The structural checks that inference cannot repair: every call names a
/// declared function or a built-in.
pub open spec fn structural(p: ProgramView) -> Result<(), ErrorView> {
    match shape_functions(p, 0) {
        Err(err) => Err(err),
        Ok(_) => match shape_expr(p.expression, function_names(p.functions)) {
            Err(err) => Err(err),
            Ok(_) => shape_decls(p.declarations, 0, function_names(p.functions)),
        },
    }
}

/// The first parameter slot at or after `pi` that inference left
/// unsettled, or else an unsettled result slot, as an error.
pub open spec fn validate_function(f: FunctionView, sig: SigView, pi: nat) -> Result<(), ErrorView>
    decreases f.parameters.len() - pi,
{
    if pi < f.parameters.len() {
        let parameter = f.parameters[pi as int];
        match sig.params[pi as int] {
            Lattice::Concrete(_) => validate_function(f, sig, pi + 1),
            Lattice::Unknown => Err(positioned(
                "cannot infer the type of parameter '"@ + parameter + "' in function '"@ + f.name + "'"@,
                f.position,
            )),
            Lattice::Mixed => Err(positioned(
                "cannot infer a consistent type for parameter '"@ + parameter + "' in function '"@ + f.name + "'"@,
                f.position,
            )),
        }
    } else {
        match sig.result {
            Lattice::Concrete(_) => Ok(()),
            Lattice::Unknown => Err(positioned("cannot infer the result type of function '"@ + f.name + "'"@, f.position)),
            Lattice::Mixed => Err(positioned("cannot infer a consistent type for function '"@ + f.name + "'"@, f.position)),
        }
    }
}

pub open spec fn validate(p: ProgramView, sigs: Seq<SigView>, fi: nat) -> Result<(), ErrorView>
    decreases p.functions.len() - fi,
{
    if fi >= p.functions.len() {
        Ok(())
    } else {
        match validate_function(p.functions[fi as int], sigs[fi as int], 0) {
            Err(err) => Err(err),
            Ok(_) => validate(p, sigs, fi + 1),
        }
    }
}

/// A function with its inferred types, as the evaluator runs it.
pub struct ResolvedView {
    pub name: Seq<char>,
    pub parameters: Seq<Seq<char>>,
    pub parameter_types: Seq<Option<Type>>,
    pub result_type: Option<Type>,
    pub body: BlockView,
}

/// The type a slot holds once settled, if it is.
pub open spec fn demanded(lattice: Lattice) -> Option<Type> {
    match lattice {
        Lattice::Concrete(ty) => Some(ty),
        _ => None,
    }
}

pub open spec fn resolved_function(f: FunctionView, sig: SigView) -> ResolvedView {
    ResolvedView {
        name: f.name,
        parameters: f.parameters,
        parameter_types: sig.params.map_values(|l: Lattice| demanded(l)),
        result_type: demanded(sig.result),
        body: f.body,
    }
}

pub open spec fn resolved_functions(p: ProgramView, sigs: Seq<SigView>) -> Seq<ResolvedView> {
    Seq::new(p.functions.len(), |i: int| resolved_function(p.functions[i], sigs[i]))
}

/// The signatures inference settles on for a program: the calls must name
/// declared functions or built-ins, and every body and the top level must
/// check under the signatures.
pub open spec fn infer_signatures(strict: bool, p: ProgramView) -> Result<Seq<SigView>, ErrorView> {
    match structural(p) {
        Err(err) => Err(err),
        Ok(_) => {
            let initial = initial_signatures(p.functions);
            if p.functions.len() == 0 {
                match tc_top(strict, p, initial) {
                    Err(err) => Err(err),
                    Ok(_) => Ok(initial),
                }
            } else {
                infer(strict, p, initial, max_passes(p.functions.len()))
            }
        },
    }
}

/// Type-checks a program for evaluation, giving the functions with the
/// types inference settled; a slot nothing constrains stays unconstrained.
/// Inference first gives each built-in call its fixed result type; when
/// that fails, it runs again with built-in results left unknown, so that a
/// built-in call whose result is used at another type is reported only if
/// evaluation reaches it.
pub open spec fn resolve_program(p: ProgramView) -> Result<Seq<ResolvedView>, ErrorView> {
    match infer_signatures(true, p) {
        Ok(sigs) => Ok(resolved_functions(p, sigs)),
        Err(_) => match infer_signatures(false, p) {
            Err(err) => Err(err),
            Ok(sigs) => Ok(resolved_functions(p, sigs)),
        },
    }
}

/// Type-checks a program completely: every built-in call has its fixed
/// result type, and inference must also settle every parameter and result
/// type of every function.
pub open spec fn check_program(p: ProgramView) -> Result<(), ErrorView> {
    match infer_signatures(true, p) {
        Err(err) => Err(err),
        Ok(sigs) => validate(p, sigs, 0),
    }
}

} // verus!
