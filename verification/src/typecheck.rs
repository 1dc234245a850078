//! The static type checker with monomorphic, fixed-point inference of
//! function types.
//!
//! The checker rejects ill-typed programs with a positioned error before
//! evaluation. For a program with functions it first infers each function's
//! parameter and result types by repeating a checking pass over the whole
//! program, refining the signatures monotonically from every body and call
//! site until they stop changing. An unknown type keeps the slot it came
//! from, so a concrete demand in an enclosing operator can pin that slot.

use vstd::prelude::*;

use crate::ast::{
    block_view, decl_view, decls_view, expr_view, exprs_view, function_view, functions_view, lemma_decls_view_index, lemma_exprs_view_index,
    name_of_type, strings_view, BinaryOperator, Block, Declaration, Expression, FunctionDeclaration, Program,
    ProgramView, Type,
};
use crate::builtins::Builtin;
use crate::error::{Error, SourcePosition};
use crate::text::{push_str, push_usize_text, str_eq};
use crate::typecheck_spec::{
    add_flow, argument_mismatch, binary_flow, concrete_type, expected_one, flow_lattice, flow_name,
    index_from, is_bad_operand, join, lattice_flow, lookup_local, mismatch_two, operator_symbol,
    ordering_flow, pin, require_two, require_unary, set_param, set_result, signature_from, tc_args, tc_block,
    tc_builtin_call, tc_decls, tc_expr, tc_functions, tc_top, params_of, infer, max_passes, validate,
    validate_function, function_names, shape_expr, shape_args, shape_decls, shape_block, shape_functions,
    structural, initial_signatures, resolve_program, resolved_functions, demanded, ResolvedView, infer_signatures,
    check_program,
    unify_branches, variable_flow, wrong_arity, Checked, Flow, Lattice, Locals, ParamsView,
    SigView, Where,
};

verus! {

/// A function signature being refined during inference.
pub struct Signature {
    pub name: String,
    pub parameter_types: Vec<Lattice>,
    pub result_type: Lattice,
}

pub open spec fn sig_view(s: Signature) -> SigView {
    SigView { name: s.name@, params: s.parameter_types@, result: s.result_type }
}

pub open spec fn sigs_view(s: Seq<Signature>) -> Seq<SigView> {
    s.map_values(|x: Signature| sig_view(x))
}

/// The parameters in scope inside the body of function `function`.
#[derive(Clone, Copy)]
pub struct ParamScope<'a> {
    pub function: usize,
    pub names: &'a Vec<String>,
}

pub open spec fn scope_view(ps: Option<ParamScope>) -> Option<ParamsView> {
    match ps {
        Some(p) => Some(ParamsView { function: p.function, names: strings_view(p.names@) }),
        None => None,
    }
}

pub open spec fn locals_view(locals: Seq<(String, Lattice)>) -> Locals {
    locals.map_values(|entry: (String, Lattice)| (entry.0@, entry.1))
}

/// Two signature lists have the same functions with the same arities.
pub open spec fn same_shape(a: Seq<SigView>, b: Seq<SigView>) -> bool {
    &&& a.len() == b.len()
    &&& forall|i: int|
        #![trigger a[i].params.len()]
        #![trigger b[i].params.len()]
        0 <= i < a.len() ==> a[i].params.len() == b[i].params.len()
}

/// The slot an unknown flow comes from exists.
pub open spec fn valid_flow(flow: Flow, sigs: Seq<SigView>) -> bool {
    match flow {
        Flow::Unknown(Where::Param(fi, pi)) => fi < sigs.len() && pi < sigs[fi as int].params.len(),
        Flow::Unknown(Where::Result(fi)) => fi < sigs.len(),
        _ => true,
    }
}

/// The parameter scope refers to an existing function with as many slots as
/// names.
pub open spec fn scope_ok(ps: Option<ParamScope>, sigs: Seq<SigView>) -> bool {
    match ps {
        Some(p) => p.function < sigs.len() && p.names@.len() == sigs[p.function as int].params.len(),
        None => true,
    }
}

/// The outcome of checking a phrase, against its specification.
pub open spec fn flow_outcome(result: Result<Flow, Error>, spec: Checked<Flow>, after: Seq<SigView>) -> bool {
    match spec {
        Ok((flow, sigs)) => result == Ok::<Flow, Error>(flow) && after == sigs,
        Err(e) => result is Err && result->Err_0@ == e,
    }
}

/// The outcome of a check that only refines signatures.
pub open spec fn sigs_outcome(result: Result<(), Error>, spec: Result<Seq<SigView>, crate::error::ErrorView>, after: Seq<SigView>) -> bool {
    match spec {
        Ok(sigs) => result is Ok && after == sigs,
        Err(e) => result is Err && result->Err_0@ == e,
    }
}

fn join_lattice(left: Lattice, right: Lattice) -> (joined: Lattice)
    ensures
        joined == join(left, right),
{
    match (left, right) {
        (Lattice::Unknown, other) => other,
        (other, Lattice::Unknown) => other,
        (Lattice::Mixed, _) => Lattice::Mixed,
        (_, Lattice::Mixed) => Lattice::Mixed,
        (Lattice::Concrete(a), Lattice::Concrete(b)) => if a == b {
            Lattice::Concrete(a)
        } else {
            Lattice::Mixed
        },
    }
}

fn lattice_of(flow: Flow) -> (lattice: Lattice)
    ensures
        lattice == flow_lattice(flow),
{
    match flow {
        Flow::Concrete(ty) => Lattice::Concrete(ty),
        Flow::Mixed => Lattice::Mixed,
        Flow::Unknown(_) => Lattice::Unknown,
    }
}

fn flow_from(lattice: Lattice, from: Where) -> (flow: Flow)
    ensures
        flow == lattice_flow(lattice, from),
{
    match lattice {
        Lattice::Unknown => Flow::Unknown(from),
        Lattice::Concrete(ty) => Flow::Concrete(ty),
        Lattice::Mixed => Flow::Mixed,
    }
}

fn name_of_flow(flow: Flow) -> (name: &'static str)
    ensures
        name@ == flow_name(flow),
{
    match flow {
        Flow::Concrete(ty) => ty.name(),
        Flow::Mixed => "mixed types",
        Flow::Unknown(_) => "an unresolved type",
    }
}

fn bad_operand(flow: Flow, required: Type) -> (bad: bool)
    ensures
        bad == is_bad_operand(flow, required),
{
    match flow {
        Flow::Concrete(ty) => ty != required,
        Flow::Mixed => true,
        Flow::Unknown(_) => false,
    }
}

fn symbol_of(operator: BinaryOperator) -> (symbol: &'static str)
    ensures
        symbol@ == operator_symbol(operator),
{
    match operator {
        BinaryOperator::Add => "+",
        BinaryOperator::Subtract => "-",
        BinaryOperator::Multiply => "*",
        BinaryOperator::Divide => "/",
        BinaryOperator::Remainder => "%",
        BinaryOperator::LessThan => "<",
        BinaryOperator::LessThanOrEqual => "<=",
        BinaryOperator::GreaterThan => ">",
        BinaryOperator::GreaterThanOrEqual => ">=",
        BinaryOperator::Equal => "==",
        BinaryOperator::NotEqual => "!=",
    }
}

/// Replaces parameter slot `pi` of function `fi`.
fn set_parameter(sigs: &mut Vec<Signature>, fi: usize, pi: usize, lattice: Lattice)
    requires
        fi < old(sigs)@.len(),
        pi < old(sigs)@[fi as int].parameter_types@.len(),
    ensures
        final(sigs)@.len() == old(sigs)@.len(),
        sigs_view(final(sigs)@) == set_param(sigs_view(old(sigs)@), fi as int, pi as int, lattice),
{
    let old_types = &sigs[fi].parameter_types;
    let mut types: Vec<Lattice> = Vec::new();
    let mut j: usize = 0;
    while j < old_types.len()
        invariant
            j <= old_types@.len(),
            types@.len() == j,
            forall|k: int| 0 <= k < j ==> types@[k] == (if k == pi { lattice } else { old_types@[k] }),
        decreases old_types@.len() - j,
    {
        if j == pi {
            types.push(lattice);
        } else {
            types.push(old_types[j]);
        }
        j = j + 1;
    }
    let signature = Signature { name: sigs[fi].name.clone(), parameter_types: types, result_type: sigs[fi].result_type };
    sigs.set(fi, signature);
    assert(types@ =~= old(sigs)@[fi as int].parameter_types@.update(pi as int, lattice));
    assert(sigs_view(sigs@) =~= set_param(sigs_view(old(sigs)@), fi as int, pi as int, lattice));
}

/// Replaces the result slot of function `fi`.
fn set_result_slot(sigs: &mut Vec<Signature>, fi: usize, lattice: Lattice)
    requires
        fi < old(sigs)@.len(),
    ensures
        sigs_view(final(sigs)@) == set_result(sigs_view(old(sigs)@), fi as int, lattice),
{
    let old_types = &sigs[fi].parameter_types;
    let mut types: Vec<Lattice> = Vec::new();
    let mut j: usize = 0;
    while j < old_types.len()
        invariant
            j <= old_types@.len(),
            types@ == old_types@.subrange(0, j as int),
        decreases old_types@.len() - j,
    {
        types.push(old_types[j]);
        j = j + 1;
    }
    assert(types@ =~= old_types@);
    let signature = Signature { name: sigs[fi].name.clone(), parameter_types: types, result_type: lattice };
    sigs.set(fi, signature);
    assert(sigs_view(sigs@) =~= set_result(sigs_view(old(sigs)@), fi as int, lattice));
}

/// Pins the slot an unknown flow comes from to `required`.
fn pin_flow(flow: Flow, required: Type, sigs: &mut Vec<Signature>)
    requires
        valid_flow(flow, sigs_view(old(sigs)@)),
    ensures
        sigs_view(final(sigs)@) == pin(flow, required, sigs_view(old(sigs)@)),
        same_shape(sigs_view(old(sigs)@), sigs_view(final(sigs)@)),
{
    match flow {
        Flow::Unknown(Where::Param(fi, pi)) => {
            let joined = join_lattice(sigs[fi].parameter_types[pi], Lattice::Concrete(required));
            set_parameter(sigs, fi, pi, joined);
        },
        Flow::Unknown(Where::Result(fi)) => {
            let joined = join_lattice(sigs[fi].result_type, Lattice::Concrete(required));
            set_result_slot(sigs, fi, joined);
        },
        _ => {},
    }
}

/// `type mismatch in '<symbol>': expected two <family>, found <l> and <r>`.
fn mismatch_error(symbol: &str, family: &str, left: Flow, right: Flow, position: Option<SourcePosition>) -> (error: Error)
    ensures
        error@ == mismatch_two(symbol@, family@, left, right, position),
{
    let mut message: Vec<char> = Vec::new();
    push_str(&mut message, "type mismatch in '");
    push_str(&mut message, symbol);
    push_str(&mut message, "': expected two ");
    push_str(&mut message, family);
    push_str(&mut message, ", found ");
    push_str(&mut message, name_of_flow(left));
    push_str(&mut message, " and ");
    push_str(&mut message, name_of_flow(right));
    Error::positioned(&message, position)
}

fn check_unary(flow: Flow, symbol: &str, required: Type, position: Option<SourcePosition>, sigs: &mut Vec<Signature>) -> (result: Result<(), Error>)
    requires
        valid_flow(flow, sigs_view(old(sigs)@)),
    ensures
        same_shape(sigs_view(old(sigs)@), sigs_view(final(sigs)@)),
        sigs_outcome(result, require_unary(flow, symbol@, required, position, sigs_view(old(sigs)@)), sigs_view(final(sigs)@)),
{
    if bad_operand(flow, required) {
        let expected = match required {
            Type::Int => "an integer",
            Type::Bool => "a boolean",
            Type::String => "a string",
        };
        assert(expected@ == expected_one(required));
        let mut message: Vec<char> = Vec::new();
        push_str(&mut message, "type mismatch in '");
        push_str(&mut message, symbol);
        push_str(&mut message, "': expected ");
        push_str(&mut message, expected);
        push_str(&mut message, ", found ");
        push_str(&mut message, name_of_flow(flow));
        return Err(Error::positioned(&message, position));
    }
    pin_flow(flow, required, sigs);
    Ok(())
}

fn check_two(
    left: Flow,
    right: Flow,
    required: Type,
    family: &str,
    symbol: &str,
    position: Option<SourcePosition>,
    sigs: &mut Vec<Signature>,
) -> (result: Result<(), Error>)
    requires
        valid_flow(left, sigs_view(old(sigs)@)),
        valid_flow(right, sigs_view(old(sigs)@)),
    ensures
        same_shape(sigs_view(old(sigs)@), sigs_view(final(sigs)@)),
        sigs_outcome(result, require_two(left, right, required, family@, symbol@, position, sigs_view(old(sigs)@)), sigs_view(final(sigs)@)),
{
    if bad_operand(left, required) || bad_operand(right, required) {
        return Err(mismatch_error(symbol, family, left, right, position));
    }
    pin_flow(left, required, sigs);
    pin_flow(right, required, sigs);
    Ok(())
}

fn settled_type(flow: Flow) -> (ty: Option<Type>)
    ensures
        ty == concrete_type(flow),
{
    match flow {
        Flow::Concrete(ty) => Some(ty),
        _ => None,
    }
}

fn check_add(left: Flow, right: Flow, position: Option<SourcePosition>, sigs: &mut Vec<Signature>) -> (result: Result<Flow, Error>)
    requires
        valid_flow(left, sigs_view(old(sigs)@)),
        valid_flow(right, sigs_view(old(sigs)@)),
    ensures
        same_shape(sigs_view(old(sigs)@), sigs_view(final(sigs)@)),
        result matches Ok(f) ==> valid_flow(f, sigs_view(final(sigs)@)),
        flow_outcome(result, add_flow(left, right, position, sigs_view(old(sigs)@)), sigs_view(final(sigs)@)),
{
    if left == Flow::Mixed || right == Flow::Mixed {
        return Err(mismatch_error("+", "integers or two strings", left, right, position));
    }
    let intended = match (settled_type(left), settled_type(right)) {
        (Some(a), Some(b)) => {
            if a != b {
                return Err(mismatch_error("+", "integers or two strings", left, right, position));
            }
            a
        },
        (Some(a), None) => a,
        (None, Some(b)) => b,
        (None, None) => return Ok(Flow::Unknown(Where::Aggregate)),
    };
    if intended == Type::Bool {
        return Err(mismatch_error("+", "integers or two strings", left, right, position));
    }
    pin_flow(left, intended, sigs);
    pin_flow(right, intended, sigs);
    Ok(Flow::Concrete(intended))
}

fn check_ordering(symbol: &str, left: Flow, right: Flow, position: Option<SourcePosition>, sigs: &mut Vec<Signature>) -> (result: Result<Flow, Error>)
    requires
        valid_flow(left, sigs_view(old(sigs)@)),
        valid_flow(right, sigs_view(old(sigs)@)),
    ensures
        same_shape(sigs_view(old(sigs)@), sigs_view(final(sigs)@)),
        flow_outcome(result, ordering_flow(symbol@, left, right, position, sigs_view(old(sigs)@)), sigs_view(final(sigs)@)),
{
    if left == Flow::Mixed || right == Flow::Mixed {
        return Err(mismatch_error(symbol, "integers", left, right, position));
    }
    match (settled_type(left), settled_type(right)) {
        (Some(a), Some(b)) => {
            if a != b || a == Type::Bool {
                return Err(mismatch_error(symbol, "integers", left, right, position));
            }
        },
        (Some(a), None) => {
            if a == Type::Bool {
                return Err(mismatch_error(symbol, "integers", left, right, position));
            }
            pin_flow(right, a, sigs);
        },
        (None, Some(b)) => {
            if b == Type::Bool {
                return Err(mismatch_error(symbol, "integers", left, right, position));
            }
            pin_flow(left, b, sigs);
        },
        (None, None) => {},
    }
    Ok(Flow::Concrete(Type::Bool))
}

fn check_binary_flows(
    operator: BinaryOperator,
    left: Flow,
    right: Flow,
    position: Option<SourcePosition>,
    sigs: &mut Vec<Signature>,
) -> (result: Result<Flow, Error>)
    requires
        valid_flow(left, sigs_view(old(sigs)@)),
        valid_flow(right, sigs_view(old(sigs)@)),
    ensures
        same_shape(sigs_view(old(sigs)@), sigs_view(final(sigs)@)),
        result matches Ok(f) ==> valid_flow(f, sigs_view(final(sigs)@)),
        flow_outcome(result, binary_flow(operator, left, right, position, sigs_view(old(sigs)@)), sigs_view(final(sigs)@)),
{
    match operator {
        BinaryOperator::Add => check_add(left, right, position, sigs),
        BinaryOperator::Equal | BinaryOperator::NotEqual => {
            let concrete = match (left, right) {
                (Flow::Concrete(_), Flow::Concrete(_)) => true,
                _ => false,
            };
            if concrete && left != right {
                let mut message: Vec<char> = Vec::new();
                push_str(&mut message, "type mismatch in '");
                push_str(&mut message, symbol_of(operator));
                push_str(&mut message, "': expected two values of the same type, found ");
                push_str(&mut message, name_of_flow(left));
                push_str(&mut message, " and ");
                push_str(&mut message, name_of_flow(right));
                return Err(Error::positioned(&message, position));
            }
            Ok(Flow::Concrete(Type::Bool))
        },
        BinaryOperator::LessThan | BinaryOperator::LessThanOrEqual | BinaryOperator::GreaterThan
        | BinaryOperator::GreaterThanOrEqual => check_ordering(symbol_of(operator), left, right, position, sigs),
        _ => {
            check_two(left, right, Type::Int, "integers", symbol_of(operator), position, sigs)?;
            Ok(Flow::Concrete(Type::Int))
        },
    }
}

fn unify(then_flow: Flow, else_flow: Flow, position: Option<SourcePosition>) -> (result: Result<Flow, Error>)
    ensures
        match unify_branches(then_flow, else_flow, position) {
            Ok(flow) => result == Ok::<Flow, Error>(flow),
            Err(e) => result is Err && result->Err_0@ == e,
        },
        result matches Ok(f) ==> (f == then_flow || f == else_flow || f == Flow::Unknown(Where::Aggregate)),
{
    let both = match (then_flow, else_flow) {
        (Flow::Concrete(_), Flow::Concrete(_)) => true,
        _ => false,
    };
    if (both && then_flow != else_flow) || (!both && (then_flow == Flow::Mixed || else_flow == Flow::Mixed)) {
        let mut message: Vec<char> = Vec::new();
        push_str(&mut message, "if branches must have the same type, found ");
        push_str(&mut message, name_of_flow(then_flow));
        push_str(&mut message, " and ");
        push_str(&mut message, name_of_flow(else_flow));
        return Err(Error::positioned(&message, position));
    }
    if both {
        return Ok(then_flow);
    }
    match (then_flow, else_flow) {
        (Flow::Unknown(_), Flow::Concrete(ty)) => Ok(Flow::Concrete(ty)),
        (Flow::Concrete(ty), Flow::Unknown(_)) => Ok(Flow::Concrete(ty)),
        _ => Ok(Flow::Unknown(Where::Aggregate)),
    }
}

/// The first parameter named `name`.
fn find_parameter(names: &Vec<String>, name: &String) -> (index: Option<usize>)
    ensures
        match index_from(strings_view(names@), 0, name@) {
            Some(i) => index is Some && index->0 as nat == i && i < names@.len(),
            None => index is None,
        },
{
    let mut i: usize = 0;
    while i < names.len()
        invariant
            i <= names@.len(),
            index_from(strings_view(names@), 0, name@) == index_from(strings_view(names@), i as nat, name@),
        decreases names@.len() - i,
    {
        assert(strings_view(names@)[i as int] == names@[i as int]@);
        if str_eq(names[i].as_str(), name.as_str()) {
            return Some(i);
        }
        i = i + 1;
    }
    None
}

/// The first signature named `name`.
fn find_signature(sigs: &Vec<Signature>, name: &String) -> (index: Option<usize>)
    ensures
        match signature_from(sigs_view(sigs@), 0, name@) {
            Some(i) => index is Some && index->0 as nat == i && i < sigs@.len(),
            None => index is None,
        },
{
    let mut i: usize = 0;
    while i < sigs.len()
        invariant
            i <= sigs@.len(),
            signature_from(sigs_view(sigs@), 0, name@) == signature_from(sigs_view(sigs@), i as nat, name@),
        decreases sigs@.len() - i,
    {
        if str_eq(sigs[i].name.as_str(), name.as_str()) {
            return Some(i);
        }
        i = i + 1;
    }
    None
}

/// The innermost local named `name`.
fn find_local(locals: &Vec<(String, Lattice)>, name: &String) -> (lattice: Option<Lattice>)
    ensures
        lattice == lookup_local(locals_view(locals@), name@),
{
    let mut i: usize = locals.len();
    assert(locals@.subrange(0, i as int) =~= locals@);
    while i > 0
        invariant
            i <= locals@.len(),
            lookup_local(locals_view(locals@), name@) == lookup_local(locals_view(locals@.subrange(0, i as int)), name@),
        decreases i,
    {
        let ghost prefix = locals@.subrange(0, i as int);
        assert(locals_view(prefix).drop_last() =~= locals_view(locals@.subrange(0, i - 1)));
        assert(locals_view(prefix).last() == (locals@[i - 1].0@, locals@[i - 1].1));
        if str_eq(locals[i - 1].0.as_str(), name.as_str()) {
            return Some(locals[i - 1].1);
        }
        i = i - 1;
    }
    assert(locals_view(locals@.subrange(0, 0)) =~= Seq::empty());
    None
}

/// The flow of a variable: a parameter first, then the innermost local.
fn variable(name: &String, ps: Option<ParamScope>, locals: &Vec<(String, Lattice)>, sigs: &Vec<Signature>) -> (flow: Option<Flow>)
    requires
        scope_ok(ps, sigs_view(sigs@)),
    ensures
        flow == variable_flow(name@, scope_view(ps), locals_view(locals@), sigs_view(sigs@)),
        flow matches Some(f) ==> valid_flow(f, sigs_view(sigs@)),
{
    if let Some(p) = ps {
        if let Some(pi) = find_parameter(p.names, name) {
            return Some(flow_from(sigs[p.function].parameter_types[pi], Where::Param(p.function, pi)));
        }
    }
    match find_local(locals, name) {
        Some(lattice) => Some(flow_from(lattice, Where::Aggregate)),
        None => None,
    }
}

/// `wrong number of arguments for function '<callee>': expected <e>, found <f>`.
fn arity_error(callee: &String, expected: usize, found: usize, position: Option<SourcePosition>) -> (error: Error)
    ensures
        error@ == wrong_arity(callee@, expected as nat, found as nat, position),
{
    let mut message: Vec<char> = Vec::new();
    push_str(&mut message, "wrong number of arguments for function '");
    push_str(&mut message, callee.as_str());
    push_str(&mut message, "': expected ");
    push_usize_text(&mut message, expected);
    push_str(&mut message, ", found ");
    push_usize_text(&mut message, found);
    Error::positioned(&message, position)
}

/// `type mismatch in call to '<callee>': expected argument <n> to be <t>, found <found>`.
fn argument_error(callee: &String, index: usize, expected: Type, found: &str, position: Option<SourcePosition>) -> (error: Error)
    requires
        index < usize::MAX,
    ensures
        error@ == argument_mismatch(callee@, index as nat, expected, found@, position),
{
    let mut message: Vec<char> = Vec::new();
    push_str(&mut message, "type mismatch in call to '");
    push_str(&mut message, callee.as_str());
    push_str(&mut message, "': expected argument ");
    push_usize_text(&mut message, index + 1);
    push_str(&mut message, " to be ");
    push_str(&mut message, expected.name());
    push_str(&mut message, ", found ");
    push_str(&mut message, found);
    Error::positioned(&message, position)
}

/// Checks an expression, refining the signatures it constrains.
fn check_expr(strict: bool, e: &Expression, ps: Option<ParamScope>, locals: &mut Vec<(String, Lattice)>, sigs: &mut Vec<Signature>) -> (result: Result<Flow, Error>)
    requires
        scope_ok(ps, sigs_view(old(sigs)@)),
    ensures
        final(locals)@ == old(locals)@,
        same_shape(sigs_view(old(sigs)@), sigs_view(final(sigs)@)),
        result matches Ok(f) ==> valid_flow(f, sigs_view(final(sigs)@)),
        flow_outcome(result, tc_expr(strict, e@, scope_view(ps), locals_view(old(locals)@), sigs_view(old(sigs)@)), sigs_view(final(sigs)@)),
    decreases e, 2nat,
{
    match e {
        Expression::Literal { .. } => Ok(Flow::Concrete(Type::Int)),
        Expression::StringLiteral { .. } => Ok(Flow::Concrete(Type::String)),
        Expression::BoolLiteral { .. } => Ok(Flow::Concrete(Type::Bool)),
        Expression::Variable { name, position } => match variable(name, ps, locals, sigs) {
            Some(flow) => Ok(flow),
            None => {
                let mut message: Vec<char> = Vec::new();
                push_str(&mut message, "undefined variable: '");
                push_str(&mut message, name.as_str());
                push_str(&mut message, "'");
                Err(Error::positioned(&message, *position))
            },
        },
        Expression::Call { .. } => check_call(strict, e, ps, locals, sigs),
        Expression::UnaryNegation { operand, position } => {
            let flow = check_expr(strict, operand, ps, locals, sigs)?;
            check_unary(flow, "-", Type::Int, *position, sigs)?;
            Ok(Flow::Concrete(Type::Int))
        },
        Expression::UnaryNot { operand, position } => {
            let flow = check_expr(strict, operand, ps, locals, sigs)?;
            check_unary(flow, "!", Type::Bool, *position, sigs)?;
            Ok(Flow::Concrete(Type::Bool))
        },
        Expression::LogicalAnd { left, right, position } => {
            let left_flow = check_expr(strict, left, ps, locals, sigs)?;
            let right_flow = check_expr(strict, right, ps, locals, sigs)?;
            check_two(left_flow, right_flow, Type::Bool, "booleans", "&&", *position, sigs)?;
            Ok(Flow::Concrete(Type::Bool))
        },
        Expression::LogicalOr { left, right, position } => {
            let left_flow = check_expr(strict, left, ps, locals, sigs)?;
            let right_flow = check_expr(strict, right, ps, locals, sigs)?;
            check_two(left_flow, right_flow, Type::Bool, "booleans", "||", *position, sigs)?;
            Ok(Flow::Concrete(Type::Bool))
        },
        Expression::Binary { operator, left, right, position } => {
            let left_flow = check_expr(strict, left, ps, locals, sigs)?;
            let right_flow = check_expr(strict, right, ps, locals, sigs)?;
            check_binary_flows(*operator, left_flow, right_flow, *position, sigs)
        },
        Expression::If { .. } => check_if(strict, e, ps, locals, sigs),
    }
}

/// Checks a call: a built-in, or a declared function given its number of
/// parameters in arguments.
fn check_call(strict: bool, e: &Expression, ps: Option<ParamScope>, locals: &mut Vec<(String, Lattice)>, sigs: &mut Vec<Signature>) -> (result: Result<Flow, Error>)
    requires
        e is Call,
        scope_ok(ps, sigs_view(old(sigs)@)),
    ensures
        final(locals)@ == old(locals)@,
        same_shape(sigs_view(old(sigs)@), sigs_view(final(sigs)@)),
        result matches Ok(f) ==> valid_flow(f, sigs_view(final(sigs)@)),
        flow_outcome(result, tc_expr(strict, e@, scope_view(ps), locals_view(old(locals)@), sigs_view(old(sigs)@)), sigs_view(final(sigs)@)),
    decreases e, 1nat,
{
    let (callee, arguments, position) = match e {
        Expression::Call { callee, arguments, position } => (callee, arguments, *position),
        _ => vstd::pervasive::unreached(),
    };
    proof {
        lemma_exprs_view_index(arguments@);
    }
    match Builtin::named(callee.as_str()) {
        Some(b) => check_builtin_call(strict, arguments, callee, b.parameter_type(), b.result_type(), position, ps, locals, sigs),
        None => match find_signature(sigs, callee) {
            None => {
                let mut message: Vec<char> = Vec::new();
                push_str(&mut message, "undefined function: '");
                push_str(&mut message, callee.as_str());
                push_str(&mut message, "'");
                Err(Error::positioned(&message, position))
            },
            Some(fi) => {
                if arguments.len() != sigs[fi].parameter_types.len() {
                    return Err(arity_error(callee, sigs[fi].parameter_types.len(), arguments.len(), position));
                }
                check_args(strict, arguments, fi, callee, position, ps, locals, sigs)?;
                Ok(flow_from(sigs[fi].result_type, Where::Result(fi)))
            },
        },
    }
}

/// Checks an `if`: a boolean condition and two branches of one type.
fn check_if(strict: bool, e: &Expression, ps: Option<ParamScope>, locals: &mut Vec<(String, Lattice)>, sigs: &mut Vec<Signature>) -> (result: Result<Flow, Error>)
    requires
        e is If,
        scope_ok(ps, sigs_view(old(sigs)@)),
    ensures
        final(locals)@ == old(locals)@,
        same_shape(sigs_view(old(sigs)@), sigs_view(final(sigs)@)),
        result matches Ok(f) ==> valid_flow(f, sigs_view(final(sigs)@)),
        flow_outcome(result, tc_expr(strict, e@, scope_view(ps), locals_view(old(locals)@), sigs_view(old(sigs)@)), sigs_view(final(sigs)@)),
    decreases e, 1nat,
{
    let (condition, then_branch, else_branch, position) = match e {
        Expression::If { condition, then_branch, else_branch, position } => (condition, then_branch, else_branch, *position),
        _ => vstd::pervasive::unreached(),
    };
    let condition_flow = check_expr(strict, condition, ps, locals, sigs)?;
    if bad_operand(condition_flow, Type::Bool) {
        let mut message: Vec<char> = Vec::new();
        push_str(&mut message, "if condition must be a boolean, found ");
        push_str(&mut message, name_of_flow(condition_flow));
        return Err(Error::positioned(&message, position));
    }
    pin_flow(condition_flow, Type::Bool, sigs);
    let then_flow = check_block(strict, then_branch, ps, locals, sigs)?;
    let else_flow = check_block(strict, else_branch, ps, locals, sigs)?;
    unify(then_flow, else_flow, position)
}

/// Checks the arguments of a call to function `fi`, refining its parameter
/// slots; a settled argument type that differs from a settled slot is an error.
fn check_args(
    strict: bool,
    args: &Vec<Expression>,
    fi: usize,
    callee: &String,
    position: Option<SourcePosition>,
    ps: Option<ParamScope>,
    locals: &mut Vec<(String, Lattice)>,
    sigs: &mut Vec<Signature>,
) -> (result: Result<(), Error>)
    requires
        scope_ok(ps, sigs_view(old(sigs)@)),
        fi < old(sigs)@.len(),
        args@.len() == old(sigs)@[fi as int].parameter_types@.len(),
    ensures
        final(locals)@ == old(locals)@,
        same_shape(sigs_view(old(sigs)@), sigs_view(final(sigs)@)),
        sigs_outcome(
            result,
            tc_args(strict, exprs_view(args@), 0, fi as nat, callee@, position, scope_view(ps), locals_view(old(locals)@), sigs_view(old(sigs)@)),
            sigs_view(final(sigs)@),
        ),
    decreases args, 1nat,
{
    proof {
        lemma_exprs_view_index(args@);
    }
    let ghost whole = tc_args(strict, exprs_view(args@), 0, fi as nat, callee@, position, scope_view(ps), locals_view(locals@), sigs_view(sigs@));
    let ghost shape = sigs_view(sigs@);
    let mut i: usize = 0;
    while i < args.len()
        invariant
            i <= args@.len(),
            exprs_view(args@).len() == args@.len(),
            forall|k: int| 0 <= k < args@.len() ==> #[trigger] exprs_view(args@)[k] == expr_view(&args@[k]),
            locals@ == old(locals)@,
            same_shape(shape, sigs_view(sigs@)),
            shape == sigs_view(old(sigs)@),
            scope_ok(ps, sigs_view(sigs@)),
            fi < sigs@.len(),
            fi < sigs_view(sigs@).len(),
            sigs_view(sigs@).len() == sigs@.len(),
            args@.len() == sigs_view(sigs@)[fi as int].params.len(),
            whole == tc_args(strict, exprs_view(args@), 0, fi as nat, callee@, position, scope_view(ps), locals_view(old(locals)@), sigs_view(old(sigs)@)),
            whole == tc_args(strict, exprs_view(args@), i as nat, fi as nat, callee@, position, scope_view(ps), locals_view(locals@), sigs_view(sigs@)),
        decreases args@.len() - i,
    {
        let flow = check_expr(strict, &args[i], ps, locals, sigs)?;
        let slot = sigs[fi].parameter_types[i];
        match (slot, flow) {
            (Lattice::Concrete(expected), Flow::Concrete(found)) => {
                if expected != found {
                    return Err(argument_error(callee, i, expected, found.name(), position));
                }
            },
            _ => {},
        }
        let joined = join_lattice(slot, lattice_of(flow));
        set_parameter(sigs, fi, i, joined);
        i = i + 1;
    }
    Ok(())
}

/// Checks a call to a built-in, whose one parameter has a fixed type; when
/// `strict`, the call has its fixed result type, otherwise an unknown one.
fn check_builtin_call(
    strict: bool,
    args: &Vec<Expression>,
    callee: &String,
    parameter: Type,
    result_type: Type,
    position: Option<SourcePosition>,
    ps: Option<ParamScope>,
    locals: &mut Vec<(String, Lattice)>,
    sigs: &mut Vec<Signature>,
) -> (result: Result<Flow, Error>)
    requires
        scope_ok(ps, sigs_view(old(sigs)@)),
    ensures
        final(locals)@ == old(locals)@,
        same_shape(sigs_view(old(sigs)@), sigs_view(final(sigs)@)),
        result matches Ok(f) ==> valid_flow(f, sigs_view(final(sigs)@)),
        flow_outcome(
            result,
            tc_builtin_call(strict, exprs_view(args@), callee@, parameter, result_type, position, scope_view(ps), locals_view(old(locals)@), sigs_view(old(sigs)@)),
            sigs_view(final(sigs)@),
        ),
    decreases args, 1nat,
{
    proof {
        lemma_exprs_view_index(args@);
    }
    if args.len() != 1 {
        return Err(arity_error(callee, 1, args.len(), position));
    }
    let flow = check_expr(strict, &args[0], ps, locals, sigs)?;
    if bad_operand(flow, parameter) {
        return Err(argument_error(callee, 0, parameter, name_of_flow(flow), position));
    }
    pin_flow(flow, parameter, sigs);
    if strict {
        Ok(Flow::Concrete(result_type))
    } else {
        Ok(Flow::Unknown(Where::Aggregate))
    }
}

/// Checks declarations in order, binding each name in `locals` for the
/// declarations and expression after it.
fn check_decls(strict: bool, ds: &Vec<Declaration>, ps: Option<ParamScope>, locals: &mut Vec<(String, Lattice)>, sigs: &mut Vec<Signature>) -> (result: Result<(), Error>)
    requires
        scope_ok(ps, sigs_view(old(sigs)@)),
    ensures
        final(locals)@.len() >= old(locals)@.len(),
        final(locals)@.subrange(0, old(locals)@.len() as int) == old(locals)@,
        same_shape(sigs_view(old(sigs)@), sigs_view(final(sigs)@)),
        match tc_decls(strict, decls_view(ds@), 0, scope_view(ps), locals_view(old(locals)@), sigs_view(old(sigs)@)) {
            Ok((l, s)) => result is Ok && locals_view(final(locals)@) == l && sigs_view(final(sigs)@) == s,
            Err(e) => result is Err && result->Err_0@ == e,
        },
    decreases ds, 1nat,
{
    proof {
        lemma_decls_view_index(ds@);
    }
    let ghost whole = tc_decls(strict, decls_view(ds@), 0, scope_view(ps), locals_view(locals@), sigs_view(sigs@));
    let ghost shape = sigs_view(sigs@);
    let mut i: usize = 0;
    while i < ds.len()
        invariant
            i <= ds@.len(),
            decls_view(ds@).len() == ds@.len(),
            forall|k: int| 0 <= k < ds@.len() ==> #[trigger] decls_view(ds@)[k] == decl_view(&ds@[k]),
            locals@.len() >= old(locals)@.len(),
            locals@.subrange(0, old(locals)@.len() as int) == old(locals)@,
            same_shape(shape, sigs_view(sigs@)),
            shape == sigs_view(old(sigs)@),
            scope_ok(ps, sigs_view(sigs@)),
            whole == tc_decls(strict, decls_view(ds@), 0, scope_view(ps), locals_view(old(locals)@), sigs_view(old(sigs)@)),
            whole == tc_decls(strict, decls_view(ds@), i as nat, scope_view(ps), locals_view(locals@), sigs_view(sigs@)),
        decreases ds@.len() - i,
    {
        let flow = check_expr(strict, &ds[i].initializer, ps, locals, sigs)?;
        let ghost before = locals@;
        locals.push((ds[i].name.clone(), lattice_of(flow)));
        proof {
            assert(locals_view(locals@) =~= locals_view(before).push((ds@[i as int].name@, flow_lattice(flow))));
            assert(locals@.subrange(0, old(locals)@.len() as int) =~= before.subrange(0, old(locals)@.len() as int));
        }
        i = i + 1;
    }
    Ok(())
}

/// Checks a block; its declarations do not outlive it.
fn check_block(strict: bool, b: &Block, ps: Option<ParamScope>, locals: &mut Vec<(String, Lattice)>, sigs: &mut Vec<Signature>) -> (result: Result<Flow, Error>)
    requires
        scope_ok(ps, sigs_view(old(sigs)@)),
    ensures
        final(locals)@ == old(locals)@,
        same_shape(sigs_view(old(sigs)@), sigs_view(final(sigs)@)),
        result matches Ok(f) ==> valid_flow(f, sigs_view(final(sigs)@)),
        flow_outcome(result, tc_block(strict, b@, scope_view(ps), locals_view(old(locals)@), sigs_view(old(sigs)@)), sigs_view(final(sigs)@)),
    decreases b, 1nat,
{
    let mark = locals.len();
    if let Err(error) = check_decls(strict, &b.declarations, ps, locals, sigs) {
        locals.truncate(mark);
        return Err(error);
    }
    let flow = check_expr(strict, &b.expression, ps, locals, sigs);
    locals.truncate(mark);
    flow
}

/// Each function has one type per parameter.
pub open spec fn functions_wf(fns: Seq<ResolvedView>) -> bool {
    forall|i: int| 0 <= i < fns.len() ==> #[trigger] fns[i].parameter_types.len() == fns[i].parameters.len()
}

/// Whether the signatures have one entry per function of `p`, with one
/// parameter slot per parameter.
pub open spec fn sigs_match(p: ProgramView, sigs: Seq<SigView>) -> bool {
    &&& sigs.len() == p.functions.len()
    &&& forall|i: int| 0 <= i < sigs.len() ==> #[trigger] sigs[i].params.len() == p.functions[i].parameters.len()
}

/// Checks every function body once, joining each body's flow into its
/// function's result slot.
fn check_function_bodies(strict: bool, program: &Program, sigs: &mut Vec<Signature>) -> (result: Result<(), Error>)
    requires
        sigs_match(program@, sigs_view(old(sigs)@)),
    ensures
        same_shape(sigs_view(old(sigs)@), sigs_view(final(sigs)@)),
        sigs_outcome(result, tc_functions(strict, program@, 0, sigs_view(old(sigs)@)), sigs_view(final(sigs)@)),
{
    let ghost p = program@;
    let ghost shape = sigs_view(sigs@);
    let mut fi: usize = 0;
    while fi < program.functions.len()
        invariant
            p == program@,
            fi <= program.functions@.len(),
            p.functions.len() == program.functions@.len(),
            same_shape(shape, sigs_view(sigs@)),
            shape == sigs_view(old(sigs)@),
            sigs_match(p, sigs_view(sigs@)),
            tc_functions(strict, p, 0, sigs_view(old(sigs)@)) == tc_functions(strict, p, fi as nat, sigs_view(sigs@)),
        decreases program.functions@.len() - fi,
    {
        let function = &program.functions[fi];
        let ps = Some(ParamScope { function: fi, names: &function.parameters });
        assert(scope_view(ps) == Some(params_of(p, fi as nat)));
        let mut locals: Vec<(String, Lattice)> = Vec::new();
        assert(locals_view(locals@) =~= Seq::empty());
        let flow = check_block(strict, &function.body, ps, &mut locals, sigs)?;
        let joined = join_lattice(sigs[fi].result_type, lattice_of(flow));
        set_result_slot(sigs, fi, joined);
        fi = fi + 1;
    }
    Ok(())
}

/// Checks the top-level declarations and final expression.
fn check_top_level(strict: bool, program: &Program, sigs: &mut Vec<Signature>) -> (result: Result<(), Error>)
    ensures
        same_shape(sigs_view(old(sigs)@), sigs_view(final(sigs)@)),
        sigs_outcome(result, tc_top(strict, program@, sigs_view(old(sigs)@)), sigs_view(final(sigs)@)),
{
    let mut locals: Vec<(String, Lattice)> = Vec::new();
    assert(locals_view(locals@) =~= Seq::empty());
    check_decls(strict, &program.declarations, None, &mut locals, sigs)?;
    check_expr(strict, &program.expression, None, &mut locals, sigs)?;
    Ok(())
}

/// A copy of a list of slots.
fn copy_slots(slots: &Vec<Lattice>) -> (copy: Vec<Lattice>)
    ensures
        copy@ == slots@,
{
    let mut copy: Vec<Lattice> = Vec::new();
    let mut i: usize = 0;
    while i < slots.len()
        invariant
            i <= slots@.len(),
            copy@ == slots@.subrange(0, i as int),
        decreases slots@.len() - i,
    {
        copy.push(slots[i]);
        i = i + 1;
    }
    assert(copy@ =~= slots@);
    copy
}

/// A copy of the signatures.
fn copy_signatures(sigs: &Vec<Signature>) -> (copy: Vec<Signature>)
    ensures
        sigs_view(copy@) == sigs_view(sigs@),
{
    let mut copy: Vec<Signature> = Vec::new();
    let mut i: usize = 0;
    while i < sigs.len()
        invariant
            i <= sigs@.len(),
            copy@.len() == i,
            forall|k: int| 0 <= k < i ==> #[trigger] sig_view(copy@[k]) == sig_view(sigs@[k]),
        decreases sigs@.len() - i,
    {
        let signature = Signature {
            name: sigs[i].name.clone(),
            parameter_types: copy_slots(&sigs[i].parameter_types),
            result_type: sigs[i].result_type,
        };
        copy.push(signature);
        i = i + 1;
    }
    assert(sigs_view(copy@) =~= sigs_view(sigs@));
    copy
}

/// Whether two lists of slots are equal.
fn same_slots(a: &Vec<Lattice>, b: &Vec<Lattice>) -> (same: bool)
    ensures
        same == (a@ == b@),
{
    if a.len() != b.len() {
        return false;
    }
    let mut i: usize = 0;
    while i < a.len()
        invariant
            i <= a@.len(),
            a@.len() == b@.len(),
            forall|k: int| 0 <= k < i ==> a@[k] == b@[k],
        decreases a@.len() - i,
    {
        if a[i] != b[i] {
            return false;
        }
        i = i + 1;
    }
    assert(a@ =~= b@);
    true
}

/// Whether two signature lists are equal.
fn same_signatures(a: &Vec<Signature>, b: &Vec<Signature>) -> (same: bool)
    ensures
        same == (sigs_view(a@) == sigs_view(b@)),
{
    if a.len() != b.len() {
        assert(sigs_view(a@).len() != sigs_view(b@).len());
        return false;
    }
    let mut i: usize = 0;
    while i < a.len()
        invariant
            i <= a@.len(),
            a@.len() == b@.len(),
            forall|k: int| 0 <= k < i ==> #[trigger] sigs_view(a@)[k] == sigs_view(b@)[k],
        decreases a@.len() - i,
    {
        let same_name = str_eq(a[i].name.as_str(), b[i].name.as_str());
        let same_params = same_slots(&a[i].parameter_types, &b[i].parameter_types);
        if !same_name || !same_params || a[i].result_type != b[i].result_type {
            assert(sigs_view(a@)[i as int] != sigs_view(b@)[i as int]);
            return false;
        }
        assert(sigs_view(a@)[i as int] == sigs_view(b@)[i as int]);
        i = i + 1;
    }
    assert(sigs_view(a@) =~= sigs_view(b@));
    true
}

/// Repeats the checking pass until the signatures stop changing, for at most
/// `8 * n + 32` passes where `n` is the number of functions.
fn run_inference(strict: bool, program: &Program, sigs: &mut Vec<Signature>) -> (result: Result<(), Error>)
    requires
        sigs_match(program@, sigs_view(old(sigs)@)),
    ensures
        sigs_match(program@, sigs_view(final(sigs)@)),
        sigs_outcome(
            result,
            infer(strict, program@, sigs_view(old(sigs)@), max_passes(program@.functions.len())),
            sigs_view(final(sigs)@),
        ),
{
    let ghost p = program@;
    let ghost whole = infer(strict, p, sigs_view(sigs@), max_passes(p.functions.len()));
    let count = program.functions.len();
    let passes: u128 = (count as u128) * 8 + 32;
    assert(passes == max_passes(p.functions.len()));
    let mut pass: u128 = 0;
    while pass < passes
        invariant
            p == program@,
            pass <= passes,
            sigs_match(p, sigs_view(sigs@)),
            whole == infer(strict, p, sigs_view(old(sigs)@), max_passes(p.functions.len())),
            whole == infer(strict, p, sigs_view(sigs@), (passes - pass) as nat),
        decreases passes - pass,
    {
        let snapshot = copy_signatures(sigs);
        check_function_bodies(strict, program, sigs)?;
        check_top_level(strict, program, sigs)?;
        if same_signatures(sigs, &snapshot) {
            return Ok(());
        }
        pass = pass + 1;
    }
    Err(Error::new_str("could not infer the types of the declared functions"))
}

/// Rejects a parameter or result slot that inference left unsettled.
fn validate_signature(function: &FunctionDeclaration, sig: &Signature) -> (result: Result<(), Error>)
    requires
        sig.parameter_types@.len() == function.parameters@.len(),
    ensures
        match validate_function(function_view(function), sig_view(*sig), 0) {
            Ok(_) => result is Ok,
            Err(e) => result is Err && result->Err_0@ == e,
        },
{
    let ghost f = function_view(function);
    let mut pi: usize = 0;
    while pi < function.parameters.len()
        invariant
            f == function_view(function),
            pi <= function.parameters@.len(),
            sig.parameter_types@.len() == function.parameters@.len(),
            validate_function(f, sig_view(*sig), 0) == validate_function(f, sig_view(*sig), pi as nat),
        decreases function.parameters@.len() - pi,
    {
        assert(f.parameters[pi as int] == function.parameters@[pi as int]@);
        match sig.parameter_types[pi] {
            Lattice::Concrete(_) => {},
            Lattice::Unknown => {
                let mut message: Vec<char> = Vec::new();
                push_str(&mut message, "cannot infer the type of parameter '");
                push_str(&mut message, function.parameters[pi].as_str());
                push_str(&mut message, "' in function '");
                push_str(&mut message, function.name.as_str());
                push_str(&mut message, "'");
                return Err(Error::positioned(&message, function.position));
            },
            Lattice::Mixed => {
                let mut message: Vec<char> = Vec::new();
                push_str(&mut message, "cannot infer a consistent type for parameter '");
                push_str(&mut message, function.parameters[pi].as_str());
                push_str(&mut message, "' in function '");
                push_str(&mut message, function.name.as_str());
                push_str(&mut message, "'");
                return Err(Error::positioned(&message, function.position));
            },
        }
        pi = pi + 1;
    }
    match sig.result_type {
        Lattice::Concrete(_) => Ok(()),
        Lattice::Unknown => {
            let mut message: Vec<char> = Vec::new();
            push_str(&mut message, "cannot infer the result type of function '");
            push_str(&mut message, function.name.as_str());
            push_str(&mut message, "'");
            Err(Error::positioned(&message, function.position))
        },
        Lattice::Mixed => {
            let mut message: Vec<char> = Vec::new();
            push_str(&mut message, "cannot infer a consistent type for function '");
            push_str(&mut message, function.name.as_str());
            push_str(&mut message, "'");
            Err(Error::positioned(&message, function.position))
        },
    }
}

/// Rejects the first function with a slot that inference left unsettled.
fn validate_resolved(program: &Program, sigs: &Vec<Signature>) -> (result: Result<(), Error>)
    requires
        sigs_match(program@, sigs_view(sigs@)),
    ensures
        match validate(program@, sigs_view(sigs@), 0) {
            Ok(_) => result is Ok,
            Err(e) => result is Err && result->Err_0@ == e,
        },
{
    let ghost p = program@;
    let mut fi: usize = 0;
    while fi < program.functions.len()
        invariant
            p == program@,
            fi <= program.functions@.len(),
            sigs_match(p, sigs_view(sigs@)),
            validate(p, sigs_view(sigs@), 0) == validate(p, sigs_view(sigs@), fi as nat),
        decreases program.functions@.len() - fi,
    {
        assert(sigs_view(sigs@)[fi as int] == sig_view(sigs@[fi as int]));
        validate_signature(&program.functions[fi], &sigs[fi])?;
        fi = fi + 1;
    }
    Ok(())
}

/// The outcome of a check that yields nothing.
pub open spec fn unit_outcome(result: Result<(), Error>, spec: Result<(), crate::error::ErrorView>) -> bool {
    match spec {
        Ok(_) => result is Ok,
        Err(e) => result is Err && result->Err_0@ == e,
    }
}

/// Whether a function named `name` is declared.
fn has_function(fs: &Vec<FunctionDeclaration>, name: &String) -> (found: bool)
    ensures
        found == function_names(functions_view(fs@)).contains(name@),
{
    let ghost names = function_names(functions_view(fs@));
    let mut i: usize = 0;
    while i < fs.len()
        invariant
            i <= fs@.len(),
            names == function_names(functions_view(fs@)),
            names.len() == fs@.len(),
            forall|k: int| 0 <= k < fs@.len() ==> #[trigger] names[k] == fs@[k].name@,
            forall|k: int| 0 <= k < i ==> names[k] != name@,
        decreases fs@.len() - i,
    {
        if str_eq(fs[i].name.as_str(), name.as_str()) {
            assert(names[i as int] == name@);
            return true;
        }
        i = i + 1;
    }
    false
}

/// Every call in an expression names a declared function or a built-in.
fn shape_expression(e: &Expression, fs: &Vec<FunctionDeclaration>) -> (result: Result<(), Error>)
    ensures
        unit_outcome(result, shape_expr(e@, function_names(functions_view(fs@)))),
    decreases e, 2nat,
{
    match e {
        Expression::Call { callee, arguments, position } => {
            if !has_function(fs, callee) && Builtin::named(callee.as_str()).is_none() {
                let mut message: Vec<char> = Vec::new();
                push_str(&mut message, "undefined function: '");
                push_str(&mut message, callee.as_str());
                push_str(&mut message, "'");
                return Err(Error::positioned(&message, *position));
            }
            shape_arguments(arguments, fs)
        },
        Expression::UnaryNegation { operand, .. } => shape_expression(operand, fs),
        Expression::UnaryNot { operand, .. } => shape_expression(operand, fs),
        Expression::Binary { left, right, .. } => {
            shape_expression(left, fs)?;
            shape_expression(right, fs)
        },
        Expression::LogicalAnd { left, right, .. } => {
            shape_expression(left, fs)?;
            shape_expression(right, fs)
        },
        Expression::LogicalOr { left, right, .. } => {
            shape_expression(left, fs)?;
            shape_expression(right, fs)
        },
        Expression::If { condition, then_branch, else_branch, .. } => {
            shape_expression(condition, fs)?;
            shape_block_calls(then_branch, fs)?;
            shape_block_calls(else_branch, fs)
        },
        _ => Ok(()),
    }
}

fn shape_arguments(args: &Vec<Expression>, fs: &Vec<FunctionDeclaration>) -> (result: Result<(), Error>)
    ensures
        unit_outcome(result, shape_args(exprs_view(args@), 0, function_names(functions_view(fs@)))),
    decreases args, 1nat,
{
    proof {
        lemma_exprs_view_index(args@);
    }
    let ghost names = function_names(functions_view(fs@));
    let mut i: usize = 0;
    while i < args.len()
        invariant
            i <= args@.len(),
            names == function_names(functions_view(fs@)),
            exprs_view(args@).len() == args@.len(),
            forall|k: int| 0 <= k < args@.len() ==> #[trigger] exprs_view(args@)[k] == expr_view(&args@[k]),
            shape_args(exprs_view(args@), 0, names) == shape_args(exprs_view(args@), i as nat, names),
        decreases args@.len() - i,
    {
        shape_expression(&args[i], fs)?;
        i = i + 1;
    }
    Ok(())
}

fn shape_declarations(ds: &Vec<Declaration>, fs: &Vec<FunctionDeclaration>) -> (result: Result<(), Error>)
    ensures
        unit_outcome(result, shape_decls(decls_view(ds@), 0, function_names(functions_view(fs@)))),
    decreases ds, 1nat,
{
    proof {
        lemma_decls_view_index(ds@);
    }
    let ghost names = function_names(functions_view(fs@));
    let mut i: usize = 0;
    while i < ds.len()
        invariant
            i <= ds@.len(),
            names == function_names(functions_view(fs@)),
            decls_view(ds@).len() == ds@.len(),
            forall|k: int| 0 <= k < ds@.len() ==> #[trigger] decls_view(ds@)[k] == decl_view(&ds@[k]),
            shape_decls(decls_view(ds@), 0, names) == shape_decls(decls_view(ds@), i as nat, names),
        decreases ds@.len() - i,
    {
        shape_expression(&ds[i].initializer, fs)?;
        i = i + 1;
    }
    Ok(())
}

/// A block's final expression is checked before its declarations.
fn shape_block_calls(b: &Block, fs: &Vec<FunctionDeclaration>) -> (result: Result<(), Error>)
    ensures
        unit_outcome(result, shape_block(b@, function_names(functions_view(fs@)))),
    decreases b, 1nat,
{
    shape_expression(&b.expression, fs)?;
    shape_declarations(&b.declarations, fs)
}

/// Every call in the program names a declared function or a built-in.
fn structural_checks(program: &Program) -> (result: Result<(), Error>)
    ensures
        unit_outcome(result, structural(program@)),
{
    let ghost p = program@;
    let mut fi: usize = 0;
    while fi < program.functions.len()
        invariant
            p == program@,
            fi <= program.functions@.len(),
            shape_functions(p, 0) == shape_functions(p, fi as nat),
        decreases program.functions@.len() - fi,
    {
        shape_block_calls(&program.functions[fi].body, &program.functions)?;
        fi = fi + 1;
    }
    shape_expression(&program.expression, &program.functions)?;
    shape_declarations(&program.declarations, &program.functions)
}

/// The signatures before inference: every slot unknown.
fn initial_signatures_of(fs: &Vec<FunctionDeclaration>) -> (sigs: Vec<Signature>)
    ensures
        sigs_view(sigs@) == initial_signatures(functions_view(fs@)),
{
    let ghost target = initial_signatures(functions_view(fs@));
    let mut sigs: Vec<Signature> = Vec::new();
    let mut i: usize = 0;
    while i < fs.len()
        invariant
            i <= fs@.len(),
            target == initial_signatures(functions_view(fs@)),
            sigs@.len() == i,
            forall|k: int| 0 <= k < i ==> #[trigger] sig_view(sigs@[k]) == target[k],
        decreases fs@.len() - i,
    {
        let count = fs[i].parameters.len();
        let mut slots: Vec<Lattice> = Vec::new();
        let mut j: usize = 0;
        while j < count
            invariant
                j <= count,
                slots@.len() == j,
                forall|k: int| 0 <= k < j ==> slots@[k] == Lattice::Unknown,
            decreases count - j,
        {
            slots.push(Lattice::Unknown);
            j = j + 1;
        }
        let signature = Signature { name: fs[i].name.clone(), parameter_types: slots, result_type: Lattice::Unknown };
        assert(functions_view(fs@)[i as int] == function_view(&fs@[i as int]));
        assert(slots@ =~= target[i as int].params);
        assert(sig_view(signature) == target[i as int]);
        sigs.push(signature);
        i = i + 1;
    }
    assert(sigs_view(sigs@) =~= target);
    sigs
}

/// A function with its inferred types, as the evaluator runs it.
pub struct Function<'a> {
    pub name: String,
    pub parameters: Vec<String>,
    pub parameter_types: Vec<Option<Type>>,
    pub result_type: Option<Type>,
    pub body: &'a Block,
}

pub open spec fn resolved_view(f: Function) -> ResolvedView {
    ResolvedView {
        name: f.name@,
        parameters: strings_view(f.parameters@),
        parameter_types: f.parameter_types@,
        result_type: f.result_type,
        body: block_view(f.body),
    }
}

pub open spec fn resolved_views(fs: Seq<Function>) -> Seq<ResolvedView> {
    fs.map_values(|f: Function| resolved_view(f))
}

fn demanded_of(lattice: Lattice) -> (ty: Option<Type>)
    ensures
        ty == demanded(lattice),
{
    match lattice {
        Lattice::Concrete(ty) => Some(ty),
        _ => None,
    }
}

/// A copy of a list of names.
pub fn copy_strings(names: &Vec<String>) -> (copy: Vec<String>)
    ensures
        strings_view(copy@) == strings_view(names@),
{
    let mut copy: Vec<String> = Vec::new();
    let mut i: usize = 0;
    while i < names.len()
        invariant
            i <= names@.len(),
            copy@.len() == i,
            forall|k: int| 0 <= k < i ==> #[trigger] copy@[k]@ == names@[k]@,
        decreases names@.len() - i,
    {
        copy.push(names[i].clone());
        i = i + 1;
    }
    assert(strings_view(copy@) =~= strings_view(names@));
    copy
}

/// The signatures inference settles on for a program.
fn infer_program_signatures(strict: bool, program: &Program) -> (result: Result<Vec<Signature>, Error>)
    ensures
        match infer_signatures(strict, program@) {
            Ok(s) => result matches Ok(sigs) && sigs_view(sigs@) == s && sigs_match(program@, s),
            Err(e) => result is Err && result->Err_0@ == e,
        },
{
    structural_checks(program)?;
    let mut sigs = initial_signatures_of(&program.functions);
    if program.functions.len() == 0 {
        check_top_level(strict, program, &mut sigs)?;
        assert(sigs_view(sigs@) =~= initial_signatures(program@.functions));
        return Ok(sigs);
    }
    run_inference(strict, program, &mut sigs)?;
    Ok(sigs)
}

/// Type-checks a program for evaluation and gives each function with the
/// types inference settled; a slot nothing constrains stays unconstrained.
/// Built-in calls first get their fixed result types; when inference fails
/// that way, it runs again with built-in results left unknown.
pub fn resolve<'a>(program: &'a Program) -> (result: Result<Vec<Function<'a>>, Error>)
    ensures
        match resolve_program(program@) {
            Ok(v) => result is Ok && resolved_views(result->Ok_0@) == v,
            Err(e) => result is Err && result->Err_0@ == e,
        },
        result matches Ok(fs) ==> functions_wf(resolved_views(fs@)),
{
    let ghost p = program@;
    let sigs = match infer_program_signatures(true, program) {
        Ok(sigs) => sigs,
        Err(_) => infer_program_signatures(false, program)?,
    };
    let ghost target = resolved_functions(p, sigs_view(sigs@));
    let mut functions: Vec<Function<'a>> = Vec::new();
    let mut fi: usize = 0;
    while fi < program.functions.len()
        invariant
            p == program@,
            fi <= program.functions@.len(),
            sigs_match(p, sigs_view(sigs@)),
            target == resolved_functions(p, sigs_view(sigs@)),
            functions@.len() == fi,
            forall|k: int| 0 <= k < fi ==> #[trigger] resolved_view(functions@[k]) == target[k],
            forall|k: int| 0 <= k < fi ==> #[trigger] functions@[k].parameter_types@.len() == strings_view(functions@[k].parameters@).len(),
        decreases program.functions@.len() - fi,
    {
        let function = &program.functions[fi];
        let slots = &sigs[fi].parameter_types;
        let mut types: Vec<Option<Type>> = Vec::new();
        let mut j: usize = 0;
        while j < slots.len()
            invariant
                j <= slots@.len(),
                types@.len() == j,
                forall|k: int| 0 <= k < j ==> types@[k] == demanded(slots@[k]),
            decreases slots@.len() - j,
        {
            types.push(demanded_of(slots[j]));
            j = j + 1;
        }
        let resolved = Function {
            name: function.name.clone(),
            parameters: copy_strings(&function.parameters),
            parameter_types: types,
            result_type: demanded_of(sigs[fi].result_type),
            body: &function.body,
        };
        proof {
            assert(sigs_view(sigs@)[fi as int] == sig_view(sigs@[fi as int]));
            assert(types@ =~= sigs_view(sigs@)[fi as int].params.map_values(|l: Lattice| demanded(l)));
            assert(p.functions[fi as int] == function_view(function));
            assert(resolved_view(resolved) == target[fi as int]);
        }
        functions.push(resolved);
        fi = fi + 1;
    }
    assert(resolved_views(functions@) =~= target);
    assert(functions_wf(resolved_views(functions@)));
    Ok(functions)
}

/// Type-checks a program completely, returning the first positioned type
/// error: inference must also settle every parameter and result type.
pub fn check(program: &Program) -> (result: Result<(), Error>)
    ensures
        unit_outcome(result, check_program(program@)),
{
    let sigs = infer_program_signatures(true, program)?;
    validate_resolved(program, &sigs)
}

} // verus!
