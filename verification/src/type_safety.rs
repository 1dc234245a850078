//! Type safety: a program that passes the full type check fails during
//! evaluation only on arithmetic, conversion and resource-limit errors, and
//! its value has the type the checker gives its final expression.
//!
//! This holds of programs in which no declaration in a function body
//! rebinds one of the function's parameters (the checker resolves such a
//! name to the parameter, evaluation to the innermost binding).

use vstd::prelude::*;

use crate::ast::{BinaryOperator, BlockView, DeclView, ExprView, ProgramView, Type};
use crate::builtins::{builtin_named, builtin_parameter, builtin_result, Builtin};
use crate::error::{ErrorView, SourcePosition};
use crate::inference_laws::{
    law_inference_only_refines, law_inference_reaches_a_fixed_point, lemma_top_refines,
    lemma_args_refines, lemma_binary_refines, lemma_block_refines, lemma_decls_refines, lemma_expr_refines,
    lemma_functions_refines, lemma_pin_refines, lemma_pin_twice, lemma_refines_keeps_match, lemma_refines_keeps_validity,
    lemma_refines_trans, lemma_set_param_refines, lemma_set_result_refines, lemma_signature_bound, refines, scope_fits,
    sig_refines, slot_le,
};
use crate::parse_laws::{distinct_names, functions_well_named};
use crate::semantics::{
    bind, binary_value, builtin_value, eval_args, eval_body, eval_call, eval_expr, eval_program, function_from, lookup, mismatch_from, room,
    value_type, Env, MAX_CALL_DEPTH, MAX_EVAL_DEPTH,
};
use crate::text::parse_int_text;
use crate::typecheck::sigs_match;
use crate::typecheck_spec::{
    binary_flow, check_program, demanded, infer_signatures, initial_signatures, max_passes, resolve_program, tc_pass, flow_lattice, index_from, join, lattice_flow, lookup_local, params_of, pin, resolved_functions,
    set_param, set_result, signature_from, tc_args, tc_block, tc_builtin_call, tc_decls, tc_expr, tc_functions, validate, validate_function,
    variable_flow, Flow, Lattice, Locals, ParamsView, ResolvedView, SigView, Where,
};
use crate::ValueView;

verus! {

/// No declaration inside an expression binds one of `params`.
pub open spec fn unshadowed_expr(e: ExprView, params: Seq<Seq<char>>) -> bool
    decreases e, 0nat,
{
    match e {
        ExprView::Call { arguments, .. } => unshadowed_args(arguments, 0, params),
        ExprView::UnaryNegation { operand, .. } => unshadowed_expr(*operand, params),
        ExprView::UnaryNot { operand, .. } => unshadowed_expr(*operand, params),
        ExprView::Binary { left, right, .. } => unshadowed_expr(*left, params) && unshadowed_expr(*right, params),
        ExprView::LogicalAnd { left, right, .. } => unshadowed_expr(*left, params) && unshadowed_expr(*right, params),
        ExprView::LogicalOr { left, right, .. } => unshadowed_expr(*left, params) && unshadowed_expr(*right, params),
        ExprView::If { condition, then_branch, else_branch, .. } => unshadowed_expr(*condition, params) && unshadowed_block(
            *then_branch,
            params,
        ) && unshadowed_block(*else_branch, params),
        _ => true,
    }
}

pub open spec fn unshadowed_args(args: Seq<ExprView>, i: nat, params: Seq<Seq<char>>) -> bool
    decreases args, args.len() - i,
{
    i >= args.len() || (unshadowed_expr(args[i as int], params) && unshadowed_args(args, i + 1, params))
}

pub open spec fn unshadowed_decls(ds: Seq<DeclView>, i: nat, params: Seq<Seq<char>>) -> bool
    decreases ds, ds.len() - i,
{
    i >= ds.len() || (!params.contains(ds[i as int].name) && unshadowed_expr(ds[i as int].initializer, params)
        && unshadowed_decls(ds, i + 1, params))
}

pub open spec fn unshadowed_block(b: BlockView, params: Seq<Seq<char>>) -> bool
    decreases b, 0nat,
{
    unshadowed_decls(b.declarations, 0, params) && unshadowed_expr(b.expression, params)
}

/// No function body declares a name that is one of the function's
/// parameters.
pub open spec fn unshadowed_program(p: ProgramView) -> bool {
    &&& forall|fi: int| 0 <= fi < p.functions.len() ==> unshadowed_block(
        #[trigger] p.functions[fi].body,
        p.functions[fi].parameters,
    )
    &&& unshadowed_decls(p.declarations, 0, Seq::empty())
    &&& unshadowed_expr(p.expression, Seq::empty())
}

/// The message of a conversion built-in refusing its text.
pub open spec fn is_conversion_error(message: Seq<char>) -> bool {
    exists|text: Seq<char>|
        #![trigger "invalid integer text: '"@ + text]
        #![trigger "invalid boolean text: '"@ + text]
        message == "invalid integer text: '"@ + text + "'"@ || message == "invalid boolean text: '"@ + text + "'"@
}

/// The errors a well-typed program may still meet while it runs: a literal
/// out of range, arithmetic overflow, division by zero, a conversion
/// built-in refusing its text, and the two depth limits.
pub open spec fn is_arithmetic_or_limit_error(e: ErrorView) -> bool {
    ||| is_conversion_error(e.message)
    ||| e.message == "integer literal out of range"@
    ||| e.message == "integer addition overflow"@
    ||| e.message == "integer subtraction overflow"@
    ||| e.message == "integer multiplication overflow"@
    ||| e.message == "integer division overflow"@
    ||| e.message == "integer remainder overflow"@
    ||| e.message == "integer negation overflow"@
    ||| e.message == "division by zero"@
    ||| e.message == "program too deeply nested"@
    ||| e.message == "call depth limit exceeded"@
}

/// An evaluation outcome fits the flow the checker gave the phrase.
pub open spec fn fits(outcome: Result<ValueView, ErrorView>, flow: Flow) -> bool {
    match outcome {
        Ok(v) => flow == Flow::Concrete(value_type(v)),
        Err(e) => is_arithmetic_or_limit_error(e),
    }
}

/// The flow the checker gives a program's final expression under `sigs`.
pub open spec fn program_flow(p: ProgramView, sigs: Seq<SigView>) -> Option<Flow> {
    match crate::typecheck_spec::tc_decls(true, p.declarations, 0, None, Seq::empty(), sigs) {
        Ok((locals, s1)) => match crate::typecheck_spec::tc_expr(true, p.expression, None, locals, s1) {
            Ok((flow, _)) => Some(flow),
            Err(_) => None,
        },
        Err(_) => None,
    }
}

/// Every slot of every signature holds a type.
pub open spec fn settled(s: Seq<SigView>) -> bool {
    &&& forall|i: int| 0 <= i < s.len() ==> (#[trigger] s[i]).result is Concrete
    &&& forall|i: int, j: int| 0 <= i < s.len() && 0 <= j < s[i].params.len() ==> (#[trigger] s[i].params[j]) is Concrete
}

/// The names the checker resolves in a scope before the locals.
pub open spec fn scope_names(ps: Option<ParamsView>) -> Seq<Seq<char>> {
    match ps {
        Some(p) => p.names,
        None => Seq::empty(),
    }
}

/// Every variable the checker sees in scope is bound at run time to a value
/// of the type the checker gives it.
pub open spec fn agrees(env: Env, ps: Option<ParamsView>, locals: Locals, s: Seq<SigView>) -> bool {
    forall|name: Seq<char>| #[trigger] variable_flow(name, ps, locals, s) matches Some(f) ==> bound_as(env, name, f)
}

/// `name` is bound in `env` to a value of the settled type `flow`.
pub open spec fn bound_as(env: Env, name: Seq<char>, flow: Flow) -> bool {
    lookup(env, name) matches Some(v) && flow == Flow::Concrete(value_type(v))
}

pub(crate) proof fn lemma_refines_antisymmetric(a: Seq<SigView>, b: Seq<SigView>)
    requires
        refines(a, b),
        refines(b, a),
    ensures
        a == b,
{
    assert forall|i: int| 0 <= i < a.len() implies a[i] == b[i] by {
        assert(sig_refines(a[i], b[i]));
        assert(sig_refines(b[i], a[i]));
        assert forall|j: int| 0 <= j < a[i].params.len() implies a[i].params[j] == b[i].params[j] by {
            assert(slot_le(a[i].params[j], b[i].params[j]));
            assert(slot_le(b[i].params[j], a[i].params[j]));
        }
        assert(a[i].params =~= b[i].params);
    }
    assert(a =~= b);
}

proof fn lemma_index_of_distinct(names: Seq<Seq<char>>, i: nat, k: int)
    requires
        distinct_names(names),
        0 <= k < names.len(),
        i <= k,
    ensures
        index_from(names, i, names[k]) == Some(k as nat),
    decreases k - i,
{
    if i < k {
        assert(names[i as int] != names[k]);
        lemma_index_of_distinct(names, i + 1, k);
    }
}

proof fn lemma_index_absent(names: Seq<Seq<char>>, i: nat, name: Seq<char>)
    requires
        !names.contains(name),
    ensures
        index_from(names, i, name) is None,
    decreases names.len() - i,
{
    if i < names.len() {
        assert(names[i as int] != name);
        lemma_index_absent(names, i + 1, name);
    }
}

proof fn lemma_index_found(names: Seq<Seq<char>>, i: nat, name: Seq<char>)
    ensures
        index_from(names, i, name) matches Some(k) ==> k < names.len() && names[k as int] == name,
    decreases names.len() - i,
{
    if i < names.len() && names[i as int] != name {
        lemma_index_found(names, i + 1, name);
    }
}

proof fn lemma_lookup_bound(env: Env, names: Seq<Seq<char>>, values: Seq<ValueView>, k: int)
    requires
        distinct_names(names),
        values.len() == names.len(),
        0 <= k < names.len(),
    ensures
        lookup(env + bind(names, values), names[k]) == Some(values[k]),
    decreases names.len(),
{
    let whole = env + bind(names, values);
    let last = names.len() - 1;
    assert(whole.last() == (names[last], values[last]));
    if k < last {
        assert(names[k] != names[last]);
        let shorter_names = names.drop_last();
        let shorter_values = values.drop_last();
        assert(whole.drop_last() =~= env + bind(shorter_names, shorter_values));
        assert(shorter_names[k] == names[k]);
        assert(distinct_names(shorter_names));
        lemma_lookup_bound(env, shorter_names, shorter_values, k);
    }
}

/// Entering a function body: the parameters are bound to values of their
/// settled types, and nothing else is in the checker's scope.
proof fn lemma_agrees_on_entry(env: Env, pv: ParamsView, values: Seq<ValueView>, s: Seq<SigView>)
    requires
        pv.function < s.len(),
        distinct_names(pv.names),
        values.len() == pv.names.len(),
        pv.names.len() == s[pv.function as int].params.len(),
        forall|j: int| 0 <= j < values.len() ==> s[pv.function as int].params[j] == Lattice::Concrete(
            value_type(#[trigger] values[j]),
        ),
    ensures
        agrees(env + bind(pv.names, values), Some(pv), Seq::empty(), s),
{
    assert forall|name: Seq<char>| #[trigger] variable_flow(name, Some(pv), Seq::empty(), s) is Some implies bound_as(
        env + bind(pv.names, values),
        name,
        variable_flow(name, Some(pv), Seq::empty(), s)->Some_0,
    ) by {
        lemma_index_found(pv.names, 0, name);
        if let Some(k) = index_from(pv.names, 0, name) {
            lemma_lookup_bound(env, pv.names, values, k as int);
        }
    }
}

/// Declaring a local of a settled type, under a name that is not a
/// parameter, keeps the scopes in agreement.
proof fn lemma_agrees_push(env: Env, ps: Option<ParamsView>, locals: Locals, s: Seq<SigView>, name: Seq<char>, v: ValueView)
    requires
        agrees(env, ps, locals, s),
        !scope_names(ps).contains(name),
    ensures
        agrees(
            env.push((name, v)),
            ps,
            locals.push((name, Lattice::Concrete(value_type(v)))),
            s,
        ),
{
    let env2 = env.push((name, v));
    let locals2 = locals.push((name, Lattice::Concrete(value_type(v))));
    assert(env2.drop_last() =~= env);
    assert(locals2.drop_last() =~= locals);
    assert forall|other: Seq<char>| #[trigger] variable_flow(other, ps, locals2, s) is Some implies bound_as(
        env2,
        other,
        variable_flow(other, ps, locals2, s)->Some_0,
    ) by {
        if other == name {
            if let Some(p) = ps {
                lemma_index_absent(p.names, 0, name);
            }
        } else {
            assert(variable_flow(other, ps, locals2, s) == variable_flow(other, ps, locals, s));
        }
    }
}

proof fn lemma_functions_named_alike(fns: Seq<ResolvedView>, s: Seq<SigView>, i: nat, name: Seq<char>)
    requires
        fns.len() == s.len(),
        forall|k: int| 0 <= k < s.len() ==> (#[trigger] fns[k]).name == s[k].name,
    ensures
        function_from(fns, i, name) == signature_from(s, i, name),
    decreases s.len() - i,
{
    if i < s.len() {
        assert(fns[i as int].name == s[i as int].name);
        lemma_functions_named_alike(fns, s, i + 1, name);
    }
}

proof fn lemma_no_mismatch(values: Seq<ValueView>, types: Seq<Option<crate::ast::Type>>, i: nat)
    requires
        values.len() == types.len(),
        forall|j: int| 0 <= j < values.len() ==> types[j] == Some(value_type(#[trigger] values[j])),
    ensures
        mismatch_from(values, types, i) is None,
    decreases values.len() - i,
{
    if i < values.len() {
        assert(types[i as int] == Some(value_type(values[i as int])));
        lemma_no_mismatch(values, types, i + 1);
    }
}

proof fn lemma_validated_function(f: crate::ast::FunctionView, sig: SigView, pi: nat)
    requires
        sig.params.len() == f.parameters.len(),
        validate_function(f, sig, pi) is Ok,
    ensures
        sig.result is Concrete,
        forall|j: int| pi <= j < sig.params.len() ==> (#[trigger] sig.params[j]) is Concrete,
    decreases f.parameters.len() - pi,
{
    if pi < f.parameters.len() {
        lemma_validated_function(f, sig, pi + 1);
    }
}

proof fn lemma_validated(p: ProgramView, s: Seq<SigView>, fi: nat)
    requires
        sigs_match(p, s),
        validate(p, s, fi) is Ok,
    ensures
        forall|i: int| fi <= i < s.len() ==> (#[trigger] s[i]).result is Concrete,
        forall|i: int, j: int| fi <= i < s.len() && 0 <= j < s[i].params.len() ==> (#[trigger] s[i].params[j]) is Concrete,
    decreases p.functions.len() - fi,
{
    if fi < p.functions.len() {
        lemma_validated_function(p.functions[fi as int], s[fi as int], 0);
        lemma_validated(p, s, fi + 1);
    }
}

/// The checker's verdict on the body of function `fi` under the settled
/// signatures: it checks without refining them, and its flow agrees with the
/// function's result type.
pub open spec fn body_settled(p: ProgramView, s: Seq<SigView>, fi: int) -> bool {
    tc_block(true, p.functions[fi].body, Some(params_of(p, fi as nat)), Seq::empty(), s) matches Ok((flow, t)) && t == s
        && join(s[fi].result, flow_lattice(flow)) == s[fi].result
}

/// What evaluation relies on: settled signatures that name the functions of
/// `p` in order, under which every body checks unchanged.
pub open spec fn safe_context(p: ProgramView, s: Seq<SigView>) -> bool {
    &&& sigs_match(p, s)
    &&& p.functions.len() <= usize::MAX
    &&& settled(s)
    &&& forall|i: int| 0 <= i < s.len() ==> (#[trigger] s[i]).name == p.functions[i].name
    &&& functions_well_named(p.functions)
    &&& unshadowed_program(p)
    &&& forall|fi: int| 0 <= fi < p.functions.len() ==> #[trigger] body_settled(p, s, fi)
}

/// The scope is the top level or the body of one of the functions of `p`.
pub open spec fn scope_of(p: ProgramView, ps: Option<ParamsView>) -> bool {
    match ps {
        Some(pv) => pv.function < p.functions.len() && pv == params_of(p, pv.function as nat),
        None => true,
    }
}

proof fn lemma_scope_fits(p: ProgramView, s: Seq<SigView>, ps: Option<ParamsView>)
    requires
        sigs_match(p, s),
        scope_of(p, ps),
    ensures
        scope_fits(ps, s),
{
    if let Some(pv) = ps {
        assert(s[pv.function as int].params.len() == p.functions[pv.function as int].parameters.len());
    }
}

proof fn lemma_functions_fixed(p: ProgramView, fi: nat, s: Seq<SigView>)
    requires
        sigs_match(p, s),
        p.functions.len() <= usize::MAX,
        tc_functions(true, p, fi, s) == Ok::<Seq<SigView>, ErrorView>(s),
    ensures
        forall|k: int| fi <= k < p.functions.len() ==> #[trigger] body_settled(p, s, k),
    decreases p.functions.len() - fi,
{
    if fi < p.functions.len() {
        let ps = Some(params_of(p, fi));
        assert(s[fi as int].params.len() == p.functions[fi as int].parameters.len());
        lemma_block_refines(true, p.functions[fi as int].body, ps, Seq::empty(), s);
        let (flow, s1) = tc_block(true, p.functions[fi as int].body, ps, Seq::empty(), s)->Ok_0;
        let s2 = set_result(s1, fi as int, join(s1[fi as int].result, flow_lattice(flow)));
        lemma_set_result_refines(s1, fi as int, flow_lattice(flow));
        lemma_refines_trans(s, s1, s2);
        lemma_refines_keeps_match(p, s, s2);
        lemma_functions_refines(true, p, fi + 1, s2);
        lemma_refines_trans(s1, s2, s);
        lemma_refines_antisymmetric(s, s1);
        lemma_refines_antisymmetric(s, s2);
        assert(s2[fi as int].result == s[fi as int].result);
        lemma_functions_fixed(p, fi + 1, s);
    }
}

/// A block that checks without refining the signatures has declarations
/// and a final expression that do the same.
proof fn lemma_block_parts(b: BlockView, ps: Option<ParamsView>, locals: Locals, s: Seq<SigView>)
    requires
        scope_fits(ps, s),
        tc_block(true, b, ps, locals, s) matches Ok((_, t)) && t == s,
    ensures
        tc_decls(true, b.declarations, 0, ps, locals, s) matches Ok((inner, t)) && t == s && tc_expr(true, b.expression, ps, inner, s)
            == tc_block(true, b, ps, locals, s),
{
    lemma_decls_refines(true, b.declarations, 0, ps, locals, s);
    let (inner, s1) = tc_decls(true, b.declarations, 0, ps, locals, s)->Ok_0;
    lemma_refines_keeps_validity(s, s1, Flow::Mixed, ps);
    lemma_expr_refines(true, b.expression, ps, inner, s1);
    lemma_refines_antisymmetric(s, s1);
}

proof fn lemma_binary_fits(operator: BinaryOperator, l: ValueView, r: ValueView, position: Option<SourcePosition>, s: Seq<SigView>)
    requires
        binary_flow(operator, Flow::Concrete(value_type(l)), Flow::Concrete(value_type(r)), position, s) is Ok,
    ensures
        fits(
            binary_value(operator, l, r, position),
            binary_flow(operator, Flow::Concrete(value_type(l)), Flow::Concrete(value_type(r)), position, s)->Ok_0.0,
        ),
{
}

proof fn lemma_builtin_fits(b: Builtin, v: ValueView, position: Option<SourcePosition>)
    requires
        value_type(v) == builtin_parameter(b),
    ensures
        fits(builtin_value(b, v, position), Flow::Concrete(builtin_result(b))),
{
    match (b, v) {
        (Builtin::StringToInt, ValueView::Str(text)) => {
            if parse_int_text(text) is None {
                assert(is_conversion_error("invalid integer text: '"@ + text + "'"@));
            }
        },
        (Builtin::StringToBool, ValueView::Str(text)) => {
            if text != "true"@ && text != "false"@ {
                assert(is_conversion_error("invalid boolean text: '"@ + text + "'"@));
            }
        },
        _ => {},
    }
}

proof fn lemma_expr_safe(
    p: ProgramView,
    s: Seq<SigView>,
    e: ExprView,
    ps: Option<ParamsView>,
    locals: Locals,
    env: Env,
    calls: nat,
    depth: nat,
)
    requires
        safe_context(p, s),
        scope_of(p, ps),
        unshadowed_expr(e, scope_names(ps)),
        tc_expr(true, e, ps, locals, s) matches Ok((_, t)) && t == s,
        agrees(env, ps, locals, s),
    ensures
        fits(eval_expr(e, env, resolved_functions(p, s), calls, depth), tc_expr(true, e, ps, locals, s)->Ok_0.0),
    decreases room(depth), 0nat, 0nat,
{
    let fns = resolved_functions(p, s);
    let names = scope_names(ps);
    let d = depth + 1;
    lemma_scope_fits(p, s, ps);
    if d <= MAX_EVAL_DEPTH {
        match e {
            ExprView::Variable { name, .. } => {
                assert(bound_as(env, name, variable_flow(name, ps, locals, s)->Some_0));
            },
            ExprView::Call { callee, arguments, position } => {
                match builtin_named(callee) {
                    Some(b) => {
                        lemma_builtin_call_safe(p, s, callee, arguments, position, ps, locals, env, calls, d, b);
                    },
                    None => {
                        lemma_signature_bound(s, 0, callee);
                        let fi = signature_from(s, 0, callee)->Some_0;
                        lemma_call_safe(p, s, callee, arguments, position, ps, locals, env, calls, d, fi);
                    },
                }
            },
            ExprView::UnaryNegation { operand, position } => {
                lemma_expr_refines(true, *operand, ps, locals, s);
                let (of, s1) = tc_expr(true, *operand, ps, locals, s)->Ok_0;
                lemma_pin_refines(of, Type::Int, s1);
                lemma_refines_antisymmetric(s, s1);
                if !(*operand matches ExprView::Literal { value, .. } && value == 9223372036854775808u64) {
                    lemma_expr_safe(p, s, *operand, ps, locals, env, calls, d);
                }
            },
            ExprView::UnaryNot { operand, position } => {
                lemma_expr_refines(true, *operand, ps, locals, s);
                let (of, s1) = tc_expr(true, *operand, ps, locals, s)->Ok_0;
                lemma_pin_refines(of, Type::Bool, s1);
                lemma_refines_antisymmetric(s, s1);
                lemma_expr_safe(p, s, *operand, ps, locals, env, calls, d);
            },
            ExprView::Binary { operator, left, right, position } => {
                lemma_expr_refines(true, *left, ps, locals, s);
                let (lf, s1) = tc_expr(true, *left, ps, locals, s)->Ok_0;
                lemma_refines_keeps_validity(s, s1, lf, ps);
                lemma_expr_refines(true, *right, ps, locals, s1);
                let (rf, s2) = tc_expr(true, *right, ps, locals, s1)->Ok_0;
                lemma_refines_keeps_validity(s1, s2, lf, ps);
                lemma_binary_refines(operator, lf, rf, position, s2);
                lemma_refines_trans(s1, s2, s);
                lemma_refines_antisymmetric(s, s1);
                lemma_refines_antisymmetric(s, s2);
                lemma_expr_safe(p, s, *left, ps, locals, env, calls, d);
                lemma_expr_safe(p, s, *right, ps, locals, env, calls, d);
                if let Ok(l) = eval_expr(*left, env, fns, calls, d) {
                    if let Ok(r) = eval_expr(*right, env, fns, calls, d) {
                        lemma_binary_fits(operator, l, r, position, s);
                    }
                }
            },
            ExprView::LogicalAnd { left, right, position } => {
                lemma_expr_refines(true, *left, ps, locals, s);
                let (lf, s1) = tc_expr(true, *left, ps, locals, s)->Ok_0;
                lemma_refines_keeps_validity(s, s1, lf, ps);
                lemma_expr_refines(true, *right, ps, locals, s1);
                let (rf, s2) = tc_expr(true, *right, ps, locals, s1)->Ok_0;
                lemma_refines_keeps_validity(s1, s2, lf, ps);
                lemma_pin_twice(lf, rf, Type::Bool, Type::Bool, s2);
                lemma_refines_trans(s1, s2, s);
                lemma_refines_antisymmetric(s, s1);
                lemma_refines_antisymmetric(s, s2);
                lemma_expr_safe(p, s, *left, ps, locals, env, calls, d);
                lemma_expr_safe(p, s, *right, ps, locals, env, calls, d);
            },
            ExprView::LogicalOr { left, right, position } => {
                lemma_expr_refines(true, *left, ps, locals, s);
                let (lf, s1) = tc_expr(true, *left, ps, locals, s)->Ok_0;
                lemma_refines_keeps_validity(s, s1, lf, ps);
                lemma_expr_refines(true, *right, ps, locals, s1);
                let (rf, s2) = tc_expr(true, *right, ps, locals, s1)->Ok_0;
                lemma_refines_keeps_validity(s1, s2, lf, ps);
                lemma_pin_twice(lf, rf, Type::Bool, Type::Bool, s2);
                lemma_refines_trans(s1, s2, s);
                lemma_refines_antisymmetric(s, s1);
                lemma_refines_antisymmetric(s, s2);
                lemma_expr_safe(p, s, *left, ps, locals, env, calls, d);
                lemma_expr_safe(p, s, *right, ps, locals, env, calls, d);
            },
            ExprView::If { condition, then_branch, else_branch, position } => {
                lemma_expr_refines(true, *condition, ps, locals, s);
                let (cf, s1) = tc_expr(true, *condition, ps, locals, s)->Ok_0;
                lemma_pin_refines(cf, Type::Bool, s1);
                let p1 = pin(cf, Type::Bool, s1);
                lemma_refines_trans(s, s1, p1);
                lemma_refines_keeps_validity(s, p1, cf, ps);
                lemma_block_refines(true, *then_branch, ps, locals, p1);
                let (tf, s2) = tc_block(true, *then_branch, ps, locals, p1)->Ok_0;
                lemma_refines_keeps_validity(p1, s2, tf, ps);
                lemma_block_refines(true, *else_branch, ps, locals, s2);
                lemma_refines_trans(p1, s2, s);
                lemma_refines_trans(s1, p1, s);
                lemma_refines_antisymmetric(s, s1);
                lemma_refines_antisymmetric(s, p1);
                lemma_refines_antisymmetric(s, s2);
                lemma_expr_safe(p, s, *condition, ps, locals, env, calls, d);
                lemma_block_parts(*then_branch, ps, locals, s);
                lemma_block_parts(*else_branch, ps, locals, s);
                assert(unshadowed_block(*then_branch, names));
                assert(unshadowed_block(*else_branch, names));
                lemma_body_safe(p, s, (*then_branch).declarations, 0, (*then_branch).expression, ps, locals, env, calls, d);
                lemma_body_safe(p, s, (*else_branch).declarations, 0, (*else_branch).expression, ps, locals, env, calls, d);
            },
            _ => {},
        }
    }
}

proof fn lemma_builtin_call_safe(
    p: ProgramView,
    s: Seq<SigView>,
    callee: Seq<char>,
    args: Seq<ExprView>,
    position: Option<SourcePosition>,
    ps: Option<ParamsView>,
    locals: Locals,
    env: Env,
    calls: nat,
    depth: nat,
    b: Builtin,
)
    requires
        safe_context(p, s),
        scope_of(p, ps),
        unshadowed_args(args, 0, scope_names(ps)),
        builtin_named(callee) == Some(b),
        tc_builtin_call(true, args, callee, builtin_parameter(b), builtin_result(b), position, ps, locals, s) matches Ok((_, t))
            && t == s,
        agrees(env, ps, locals, s),
    ensures
        fits(
            eval_call(callee, args, position, env, resolved_functions(p, s), calls, depth),
            tc_builtin_call(true, args, callee, builtin_parameter(b), builtin_result(b), position, ps, locals, s)->Ok_0.0,
        ),
    decreases room(depth), 2nat, 0nat,
{
    let fns = resolved_functions(p, s);
    lemma_scope_fits(p, s, ps);
    lemma_expr_refines(true, args[0], ps, locals, s);
    let (af, s1) = tc_expr(true, args[0], ps, locals, s)->Ok_0;
    lemma_pin_refines(af, builtin_parameter(b), s1);
    lemma_refines_antisymmetric(s, s1);
    lemma_expr_safe(p, s, args[0], ps, locals, env, calls, depth);
    if let Ok(v) = eval_expr(args[0], env, fns, calls, depth) {
        assert(eval_args(args, 1, env, fns, calls, depth, seq![v]) == Ok::<Seq<ValueView>, ErrorView>(seq![v]));
        lemma_builtin_fits(b, v, position);
    }
}

proof fn lemma_body_safe(
    p: ProgramView,
    s: Seq<SigView>,
    ds: Seq<DeclView>,
    i: nat,
    expression: ExprView,
    ps: Option<ParamsView>,
    locals: Locals,
    env: Env,
    calls: nat,
    depth: nat,
)
    requires
        safe_context(p, s),
        scope_of(p, ps),
        unshadowed_decls(ds, i, scope_names(ps)),
        unshadowed_expr(expression, scope_names(ps)),
        tc_decls(true, ds, i, ps, locals, s) matches Ok((inner, t)) && t == s && (tc_expr(true, expression, ps, inner, s) matches Ok((
            _,
            t2,
        )) && t2 == s),
        agrees(env, ps, locals, s),
    ensures
        fits(
            eval_body(ds, i, expression, env, resolved_functions(p, s), calls, depth),
            tc_expr(true, expression, ps, tc_decls(true, ds, i, ps, locals, s)->Ok_0.0, s)->Ok_0.0,
        ),
    decreases room(depth), 1nat, ds.len() - i,
{
    lemma_scope_fits(p, s, ps);
    if i >= ds.len() {
        lemma_expr_safe(p, s, expression, ps, locals, env, calls, depth);
    } else {
        let init = ds[i as int].initializer;
        let name = ds[i as int].name;
        lemma_expr_refines(true, init, ps, locals, s);
        let (fl, s1) = tc_expr(true, init, ps, locals, s)->Ok_0;
        lemma_refines_keeps_validity(s, s1, fl, ps);
        let pushed = locals.push((name, flow_lattice(fl)));
        lemma_decls_refines(true, ds, i + 1, ps, pushed, s1);
        lemma_refines_antisymmetric(s, s1);
        lemma_expr_safe(p, s, init, ps, locals, env, calls, depth);
        if let Ok(v) = eval_expr(init, env, resolved_functions(p, s), calls, depth) {
            lemma_agrees_push(env, ps, locals, s, name, v);
            lemma_body_safe(p, s, ds, i + 1, expression, ps, pushed, env.push((name, v)), calls, depth);
        }
    }
}

proof fn lemma_args_safe(
    p: ProgramView,
    s: Seq<SigView>,
    args: Seq<ExprView>,
    i: nat,
    fi: nat,
    callee: Seq<char>,
    position: Option<SourcePosition>,
    ps: Option<ParamsView>,
    locals: Locals,
    env: Env,
    calls: nat,
    depth: nat,
    done: Seq<ValueView>,
)
    requires
        safe_context(p, s),
        scope_of(p, ps),
        unshadowed_args(args, i, scope_names(ps)),
        fi < s.len(),
        args.len() == s[fi as int].params.len(),
        i <= args.len(),
        tc_args(true, args, i, fi, callee, position, ps, locals, s) == Ok::<Seq<SigView>, ErrorView>(s),
        agrees(env, ps, locals, s),
        done.len() == i,
        forall|j: int| 0 <= j < i ==> s[fi as int].params[j] == Lattice::Concrete(value_type(#[trigger] done[j])),
    ensures
        eval_args(args, i, env, resolved_functions(p, s), calls, depth, done) matches Ok(values) ==> values.len()
            == args.len() && forall|j: int| 0 <= j < values.len() ==> s[fi as int].params[j] == Lattice::Concrete(
            value_type(#[trigger] values[j]),
        ),
        eval_args(args, i, env, resolved_functions(p, s), calls, depth, done) matches Err(err)
            ==> is_arithmetic_or_limit_error(err),
    decreases room(depth), 1nat, args.len() - i,
{
    lemma_scope_fits(p, s, ps);
    if i < args.len() {
        lemma_expr_refines(true, args[i as int], ps, locals, s);
        let (fa, s1) = tc_expr(true, args[i as int], ps, locals, s)->Ok_0;
        assert(sig_refines(s[fi as int], s1[fi as int]));
        let slot = s1[fi as int].params[i as int];
        let s2 = set_param(s1, fi as int, i as int, join(slot, flow_lattice(fa)));
        lemma_set_param_refines(s1, fi as int, i as int, flow_lattice(fa));
        lemma_refines_trans(s, s1, s2);
        lemma_refines_keeps_validity(s, s2, fa, ps);
        assert(sig_refines(s[fi as int], s2[fi as int]));
        lemma_args_refines(true, args, i + 1, fi, callee, position, ps, locals, s2);
        lemma_refines_trans(s1, s2, s);
        lemma_refines_antisymmetric(s, s1);
        lemma_refines_antisymmetric(s, s2);
        assert(s2[fi as int].params[i as int] == s[fi as int].params[i as int]);
        lemma_expr_safe(p, s, args[i as int], ps, locals, env, calls, depth);
        if let Ok(v) = eval_expr(args[i as int], env, resolved_functions(p, s), calls, depth) {
            let next = done.push(v);
            assert forall|j: int| 0 <= j < i + 1 implies s[fi as int].params[j] == Lattice::Concrete(
                value_type(#[trigger] next[j]),
            ) by {
                if j < i {
                    assert(next[j] == done[j]);
                }
            }
            lemma_args_safe(p, s, args, i + 1, fi, callee, position, ps, locals, env, calls, depth, next);
        }
    }
}

proof fn lemma_call_safe(
    p: ProgramView,
    s: Seq<SigView>,
    callee: Seq<char>,
    args: Seq<ExprView>,
    position: Option<SourcePosition>,
    ps: Option<ParamsView>,
    locals: Locals,
    env: Env,
    calls: nat,
    depth: nat,
    fi: nat,
)
    requires
        safe_context(p, s),
        scope_of(p, ps),
        unshadowed_args(args, 0, scope_names(ps)),
        builtin_named(callee) is None,
        signature_from(s, 0, callee) == Some(fi),
        args.len() == s[fi as int].params.len(),
        tc_args(true, args, 0, fi, callee, position, ps, locals, s) == Ok::<Seq<SigView>, ErrorView>(s),
        agrees(env, ps, locals, s),
    ensures
        fits(eval_call(callee, args, position, env, resolved_functions(p, s), calls, depth), lattice_flow(s[fi as int].result, Where::Result(fi as usize))),
    decreases room(depth), 2nat, 0nat,
{
    let fns = resolved_functions(p, s);
    lemma_signature_bound(s, 0, callee);
    lemma_functions_named_alike(fns, s, 0, callee);
    let f = fns[fi as int];
    assert(f.parameters == p.functions[fi as int].parameters);
    lemma_args_safe(p, s, args, 0, fi, callee, position, ps, locals, env, calls, depth, Seq::empty());
    if let Ok(values) = eval_args(args, 0, env, fns, calls, depth, Seq::empty()) {
        assert(f.parameter_types == s[fi as int].params.map_values(|l: Lattice| demanded(l)));
        lemma_no_mismatch(values, f.parameter_types, 0);
        if calls + 1 <= MAX_CALL_DEPTH {
            let pv = params_of(p, fi);
            assert(body_settled(p, s, fi as int));
            assert(distinct_names(p.functions[fi as int].parameters));
            lemma_agrees_on_entry(env, pv, values, s);
            lemma_block_parts(f.body, Some(pv), Seq::empty(), s);
            assert(unshadowed_block(p.functions[fi as int].body, p.functions[fi as int].parameters));
            lemma_body_safe(
                p,
                s,
                f.body.declarations,
                0,
                f.body.expression,
                Some(pv),
                Seq::empty(),
                env + bind(pv.names, values),
                calls + 1,
                depth,
            );
        }
    }
}

proof fn lemma_initial_signatures_match(p: ProgramView)
    ensures
        sigs_match(p, initial_signatures(p.functions)),
        forall|i: int| 0 <= i < p.functions.len() ==> (#[trigger] initial_signatures(p.functions)[i]).name == p.functions[i].name,
{
}

/// A program that passes the full type check, and declares no variable
/// under the name of a parameter of the function it is in, does not go
/// wrong: evaluating it either gives a value of the type the checker gives
/// its final expression, or stops on an integer literal out of range, an
/// arithmetic overflow, a division by zero, a text that `string_to_int` or
/// `string_to_bool` refuses, or a depth limit; never on a type mismatch or
/// an undefined name.
pub proof fn law_checked_programs_do_not_go_wrong(p: ProgramView)
    requires
        check_program(p) is Ok,
        unshadowed_program(p),
        functions_well_named(p.functions),
        p.functions.len() <= usize::MAX,
    ensures
        resolve_program(p) matches Ok(fns) && (eval_program(p, fns) matches Ok(v) ==> program_flow(
            p,
            infer_signatures(true, p)->Ok_0,
        ) == Some(Flow::Concrete(value_type(v)))) && (eval_program(p, fns) matches Err(e) ==> is_arithmetic_or_limit_error(
            e,
        )),
{
    let s = infer_signatures(true, p)->Ok_0;
    let initial = initial_signatures(p.functions);
    lemma_initial_signatures_match(p);
    if p.functions.len() == 0 {
        assert(s =~= initial);
        let t = crate::typecheck_spec::tc_top(true, p, s)->Ok_0;
        lemma_top_refines(true, p, s);
        assert(t =~= s);
    } else {
        let passes = max_passes(p.functions.len());
        law_inference_only_refines(true, p, initial, passes);
        law_inference_reaches_a_fixed_point(true, p, initial, passes);
        lemma_refines_keeps_match(p, initial, s);
        assert forall|i: int| 0 <= i < s.len() implies (#[trigger] s[i]).name == p.functions[i].name by {
            assert(sig_refines(initial[i], s[i]));
        }
    }
    lemma_validated(p, s, 0);
    assert(tc_pass(true, p, s) == Ok::<Seq<SigView>, ErrorView>(s));
    lemma_functions_refines(true, p, 0, s);
    let s1 = tc_functions(true, p, 0, s)->Ok_0;
    lemma_top_refines(true, p, s1);
    lemma_refines_antisymmetric(s, s1);
    lemma_functions_fixed(p, 0, s);
    lemma_decls_refines(true, p.declarations, 0, None, Seq::empty(), s);
    let (locals, s2) = tc_decls(true, p.declarations, 0, None, Seq::empty(), s)->Ok_0;
    lemma_expr_refines(true, p.expression, None, locals, s2);
    lemma_refines_antisymmetric(s, s2);
    assert(agrees(Seq::empty(), None, Seq::empty(), s));
    lemma_body_safe(p, s, p.declarations, 0, p.expression, None, Seq::empty(), Seq::empty(), 0, 0);
}

} // verus!
