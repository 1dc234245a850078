//! Inference only ever refines signatures: every checking step moves each
//! parameter and result slot upward in the lattice, never down, and keeps
//! the functions and their arities.

use vstd::prelude::*;

use crate::ast::{BlockView, DeclView, ExprView, ProgramView, Type};
use crate::builtins::{builtin_named, builtin_parameter};
use crate::error::ErrorView;
use crate::typecheck::{sigs_match, valid_flow};
use crate::typecheck_spec::{
    add_flow, binary_flow, flow_lattice, index_from, infer, join, lattice_flow, ordering_flow, params_of, pin,
    require_two, require_unary, set_param, set_result, signature_from, tc_args, tc_block, tc_builtin_call, tc_decls,
    tc_expr, tc_functions, tc_pass, tc_top, unify_branches, variable_flow, Lattice, Locals, ParamsView, SigView, Where,
};

verus! {

/// `a` lies at or below `b` in the inference lattice.
pub open spec fn slot_le(a: Lattice, b: Lattice) -> bool {
    join(a, b) == b
}

/// Every slot of `later` lies at or above the same slot of `earlier`.
pub open spec fn sig_refines(earlier: SigView, later: SigView) -> bool {
    &&& earlier.name == later.name
    &&& earlier.params.len() == later.params.len()
    &&& slot_le(earlier.result, later.result)
    &&& forall|j: int| 0 <= j < earlier.params.len() ==> #[trigger] slot_le(earlier.params[j], later.params[j])
}

/// `later` refines `earlier`: the same functions and arities, with every
/// slot at the same place or higher in the lattice.
pub open spec fn refines(earlier: Seq<SigView>, later: Seq<SigView>) -> bool {
    &&& earlier.len() == later.len()
    &&& forall|i: int| 0 <= i < earlier.len() ==> #[trigger] sig_refines(earlier[i], later[i])
}

/// The parameter scope names an existing function with one slot per name.
pub open spec fn scope_fits(ps: Option<ParamsView>, sigs: Seq<SigView>) -> bool {
    match ps {
        Some(p) => p.function < sigs.len() && p.names.len() == sigs[p.function as int].params.len(),
        None => true,
    }
}

pub(crate) proof fn lemma_slot_le_trans(a: Lattice, b: Lattice, c: Lattice)
    requires
        slot_le(a, b),
        slot_le(b, c),
    ensures
        slot_le(a, c),
{
}

pub(crate) proof fn lemma_join_is_upper(a: Lattice, b: Lattice)
    ensures
        slot_le(a, join(a, b)),
{
}

pub(crate) proof fn lemma_refines_refl(s: Seq<SigView>)
    ensures
        refines(s, s),
{
    assert forall|i: int| 0 <= i < s.len() implies #[trigger] sig_refines(s[i], s[i]) by {
        assert forall|j: int| 0 <= j < s[i].params.len() implies #[trigger] slot_le(s[i].params[j], s[i].params[j]) by {
        }
    }
}

pub(crate) proof fn lemma_refines_trans(a: Seq<SigView>, b: Seq<SigView>, c: Seq<SigView>)
    requires
        refines(a, b),
        refines(b, c),
    ensures
        refines(a, c),
{
    assert forall|i: int| 0 <= i < a.len() implies #[trigger] sig_refines(a[i], c[i]) by {
        assert(sig_refines(a[i], b[i]));
        assert(sig_refines(b[i], c[i]));
        lemma_slot_le_trans(a[i].result, b[i].result, c[i].result);
        assert forall|j: int| 0 <= j < a[i].params.len() implies #[trigger] slot_le(a[i].params[j], c[i].params[j]) by {
            assert(slot_le(a[i].params[j], b[i].params[j]));
            assert(slot_le(b[i].params[j], c[i].params[j]));
            lemma_slot_le_trans(a[i].params[j], b[i].params[j], c[i].params[j]);
        }
    }
}

pub(crate) proof fn lemma_refines_keeps_validity(a: Seq<SigView>, b: Seq<SigView>, flow: crate::typecheck_spec::Flow, ps: Option<ParamsView>)
    requires
        refines(a, b),
    ensures
        valid_flow(flow, a) ==> valid_flow(flow, b),
        scope_fits(ps, a) ==> scope_fits(ps, b),
{
    match flow {
        crate::typecheck_spec::Flow::Unknown(Where::Param(fi, pi)) => {
            if fi < a.len() {
                assert(sig_refines(a[fi as int], b[fi as int]));
            }
        },
        _ => {},
    }
    match ps {
        Some(p) => {
            if p.function < a.len() {
                assert(sig_refines(a[p.function as int], b[p.function as int]));
            }
        },
        None => {},
    }
}

pub(crate) proof fn lemma_set_param_refines(s: Seq<SigView>, fi: int, pi: int, x: Lattice)
    requires
        0 <= fi < s.len(),
        0 <= pi < s[fi].params.len(),
    ensures
        refines(s, set_param(s, fi, pi, join(s[fi].params[pi], x))),
{
    let t = set_param(s, fi, pi, join(s[fi].params[pi], x));
    lemma_join_is_upper(s[fi].params[pi], x);
    assert forall|i: int| 0 <= i < s.len() implies #[trigger] sig_refines(s[i], t[i]) by {
        assert forall|j: int| 0 <= j < s[i].params.len() implies #[trigger] slot_le(s[i].params[j], t[i].params[j]) by {
        }
    }
}

pub(crate) proof fn lemma_set_result_refines(s: Seq<SigView>, fi: int, x: Lattice)
    requires
        0 <= fi < s.len(),
    ensures
        refines(s, set_result(s, fi, join(s[fi].result, x))),
{
    let t = set_result(s, fi, join(s[fi].result, x));
    lemma_join_is_upper(s[fi].result, x);
    assert forall|i: int| 0 <= i < s.len() implies #[trigger] sig_refines(s[i], t[i]) by {
        assert forall|j: int| 0 <= j < s[i].params.len() implies #[trigger] slot_le(s[i].params[j], t[i].params[j]) by {
        }
    }
}

pub(crate) proof fn lemma_pin_refines(flow: crate::typecheck_spec::Flow, required: Type, s: Seq<SigView>)
    requires
        valid_flow(flow, s),
    ensures
        refines(s, pin(flow, required, s)),
{
    match flow {
        crate::typecheck_spec::Flow::Unknown(Where::Param(fi, pi)) => {
            lemma_set_param_refines(s, fi as int, pi as int, Lattice::Concrete(required));
        },
        crate::typecheck_spec::Flow::Unknown(Where::Result(fi)) => {
            lemma_set_result_refines(s, fi as int, Lattice::Concrete(required));
        },
        _ => {
            lemma_refines_refl(s);
        },
    }
}

pub(crate) proof fn lemma_pin_twice(left: crate::typecheck_spec::Flow, right: crate::typecheck_spec::Flow, a: Type, b: Type, s: Seq<SigView>)
    requires
        valid_flow(left, s),
        valid_flow(right, s),
    ensures
        refines(s, pin(right, b, pin(left, a, s))),
{
    lemma_pin_refines(left, a, s);
    lemma_refines_keeps_validity(s, pin(left, a, s), right, None);
    lemma_pin_refines(right, b, pin(left, a, s));
    lemma_refines_trans(s, pin(left, a, s), pin(right, b, pin(left, a, s)));
}

pub(crate) proof fn lemma_binary_refines(
    operator: crate::ast::BinaryOperator,
    left: crate::typecheck_spec::Flow,
    right: crate::typecheck_spec::Flow,
    position: Option<crate::error::SourcePosition>,
    s: Seq<SigView>,
)
    requires
        valid_flow(left, s),
        valid_flow(right, s),
    ensures
        binary_flow(operator, left, right, position, s) matches Ok((f, t)) ==> refines(s, t) && valid_flow(f, t),
{
    lemma_refines_refl(s);
    lemma_pin_twice(left, right, Type::Int, Type::Int, s);
    lemma_pin_twice(left, right, Type::String, Type::String, s);
    lemma_pin_twice(left, right, Type::Bool, Type::Bool, s);
    lemma_pin_refines(left, Type::Int, s);
    lemma_pin_refines(left, Type::String, s);
    lemma_pin_refines(right, Type::Int, s);
    lemma_pin_refines(right, Type::String, s);
}

pub(crate) proof fn lemma_index_bound(names: Seq<Seq<char>>, i: nat, name: Seq<char>)
    ensures
        index_from(names, i, name) matches Some(k) ==> k < names.len(),
    decreases names.len() - i,
{
    if i < names.len() && names[i as int] != name {
        lemma_index_bound(names, i + 1, name);
    }
}

pub(crate) proof fn lemma_signature_bound(sigs: Seq<SigView>, i: nat, name: Seq<char>)
    ensures
        signature_from(sigs, i, name) matches Some(k) ==> k < sigs.len(),
    decreases sigs.len() - i,
{
    if i < sigs.len() && sigs[i as int].name != name {
        lemma_signature_bound(sigs, i + 1, name);
    }
}

pub(crate) proof fn lemma_expr_refines(strict: bool, e: ExprView, ps: Option<ParamsView>, locals: Locals, s: Seq<SigView>)
    requires
        scope_fits(ps, s),
    ensures
        tc_expr(strict, e, ps, locals, s) matches Ok((f, t)) ==> refines(s, t) && valid_flow(f, t),
    decreases e, 0nat,
{
    lemma_refines_refl(s);
    match e {
        ExprView::Variable { name, .. } => {
            match ps {
                Some(p) => lemma_index_bound(p.names, 0, name),
                None => {},
            }
        },
        ExprView::Call { callee, arguments, position } => {
            match builtin_named(callee) {
                Some(b) => lemma_builtin_refines(strict, arguments, callee, builtin_parameter(b), crate::builtins::builtin_result(b), position, ps, locals, s),
                None => {
                    lemma_signature_bound(s, 0, callee);
                    match signature_from(s, 0, callee) {
                        Some(fi) => {
                            if arguments.len() == s[fi as int].params.len() {
                                lemma_args_refines(strict, arguments, 0, fi, callee, position, ps, locals, s);
                            }
                        },
                        None => {},
                    }
                },
            }
        },
        ExprView::UnaryNegation { operand, position } => {
            lemma_expr_refines(strict, *operand, ps, locals, s);
            if let Ok((f, s1)) = tc_expr(strict, *operand, ps, locals, s) {
                lemma_pin_refines(f, Type::Int, s1);
                lemma_refines_trans(s, s1, pin(f, Type::Int, s1));
            }
        },
        ExprView::UnaryNot { operand, position } => {
            lemma_expr_refines(strict, *operand, ps, locals, s);
            if let Ok((f, s1)) = tc_expr(strict, *operand, ps, locals, s) {
                lemma_pin_refines(f, Type::Bool, s1);
                lemma_refines_trans(s, s1, pin(f, Type::Bool, s1));
            }
        },
        ExprView::LogicalAnd { left, right, position } => {
            lemma_expr_refines(strict, *left, ps, locals, s);
            if let Ok((lf, s1)) = tc_expr(strict, *left, ps, locals, s) {
                lemma_refines_keeps_validity(s, s1, lf, ps);
                lemma_expr_refines(strict, *right, ps, locals, s1);
                if let Ok((rf, s2)) = tc_expr(strict, *right, ps, locals, s1) {
                    lemma_refines_trans(s, s1, s2);
                    lemma_refines_keeps_validity(s1, s2, lf, ps);
                    lemma_pin_twice(lf, rf, Type::Bool, Type::Bool, s2);
                    lemma_refines_trans(s, s2, pin(rf, Type::Bool, pin(lf, Type::Bool, s2)));
                }
            }
        },
        ExprView::LogicalOr { left, right, position } => {
            lemma_expr_refines(strict, *left, ps, locals, s);
            if let Ok((lf, s1)) = tc_expr(strict, *left, ps, locals, s) {
                lemma_refines_keeps_validity(s, s1, lf, ps);
                lemma_expr_refines(strict, *right, ps, locals, s1);
                if let Ok((rf, s2)) = tc_expr(strict, *right, ps, locals, s1) {
                    lemma_refines_trans(s, s1, s2);
                    lemma_refines_keeps_validity(s1, s2, lf, ps);
                    lemma_pin_twice(lf, rf, Type::Bool, Type::Bool, s2);
                    lemma_refines_trans(s, s2, pin(rf, Type::Bool, pin(lf, Type::Bool, s2)));
                }
            }
        },
        ExprView::Binary { operator, left, right, position } => {
            lemma_expr_refines(strict, *left, ps, locals, s);
            if let Ok((lf, s1)) = tc_expr(strict, *left, ps, locals, s) {
                lemma_refines_keeps_validity(s, s1, lf, ps);
                lemma_expr_refines(strict, *right, ps, locals, s1);
                if let Ok((rf, s2)) = tc_expr(strict, *right, ps, locals, s1) {
                    lemma_refines_trans(s, s1, s2);
                    lemma_refines_keeps_validity(s1, s2, lf, ps);
                    lemma_binary_refines(operator, lf, rf, position, s2);
                    if let Ok((f, s3)) = binary_flow(operator, lf, rf, position, s2) {
                        lemma_refines_trans(s, s2, s3);
                    }
                }
            }
        },
        ExprView::If { condition, then_branch, else_branch, position } => {
            lemma_expr_refines(strict, *condition, ps, locals, s);
            if let Ok((cf, s1)) = tc_expr(strict, *condition, ps, locals, s) {
                lemma_refines_keeps_validity(s, s1, cf, ps);
                lemma_pin_refines(cf, Type::Bool, s1);
                let p1 = pin(cf, Type::Bool, s1);
                lemma_refines_trans(s, s1, p1);
                lemma_refines_keeps_validity(s, p1, cf, ps);
                lemma_block_refines(strict, *then_branch, ps, locals, p1);
                if let Ok((tf, s2)) = tc_block(strict, *then_branch, ps, locals, p1) {
                    lemma_refines_trans(s, p1, s2);
                    lemma_refines_keeps_validity(p1, s2, tf, ps);
                    lemma_block_refines(strict, *else_branch, ps, locals, s2);
                    if let Ok((ef, s3)) = tc_block(strict, *else_branch, ps, locals, s2) {
                        lemma_refines_trans(s, s2, s3);
                        lemma_refines_keeps_validity(s2, s3, tf, ps);
                    }
                }
            }
        },
        _ => {},
    }
}

pub(crate) proof fn lemma_builtin_refines(
    strict: bool,
    args: Seq<ExprView>,
    callee: Seq<char>,
    parameter: Type,
    result: Type,
    position: Option<crate::error::SourcePosition>,
    ps: Option<ParamsView>,
    locals: Locals,
    s: Seq<SigView>,
)
    requires
        scope_fits(ps, s),
    ensures
        tc_builtin_call(strict, args, callee, parameter, result, position, ps, locals, s) matches Ok((f, t)) ==> refines(s, t) && valid_flow(f, t),
    decreases args, 0nat,
{
    if args.len() == 1 {
        lemma_expr_refines(strict, args[0], ps, locals, s);
        if let Ok((f, s1)) = tc_expr(strict, args[0], ps, locals, s) {
            lemma_pin_refines(f, parameter, s1);
            lemma_refines_trans(s, s1, pin(f, parameter, s1));
        }
    }
}

pub(crate) proof fn lemma_args_refines(
    strict: bool,
    args: Seq<ExprView>,
    i: nat,
    fi: nat,
    callee: Seq<char>,
    position: Option<crate::error::SourcePosition>,
    ps: Option<ParamsView>,
    locals: Locals,
    s: Seq<SigView>,
)
    requires
        scope_fits(ps, s),
        fi < s.len(),
        args.len() == s[fi as int].params.len(),
    ensures
        tc_args(strict, args, i, fi, callee, position, ps, locals, s) matches Ok(t) ==> refines(s, t) && valid_flow(
            lattice_flow(t[fi as int].result, Where::Result(fi as usize)),
            t,
        ),
    decreases args, args.len() - i,
{
    lemma_refines_refl(s);
    if i < args.len() {
        lemma_expr_refines(strict, args[i as int], ps, locals, s);
        if let Ok((f, s1)) = tc_expr(strict, args[i as int], ps, locals, s) {
            assert(sig_refines(s[fi as int], s1[fi as int]));
            let slot = s1[fi as int].params[i as int];
            let s2 = set_param(s1, fi as int, i as int, join(slot, flow_lattice(f)));
            lemma_set_param_refines(s1, fi as int, i as int, flow_lattice(f));
            lemma_refines_trans(s, s1, s2);
            lemma_refines_keeps_validity(s, s2, f, ps);
            assert(sig_refines(s[fi as int], s2[fi as int]));
            lemma_args_refines(strict, args, i + 1, fi, callee, position, ps, locals, s2);
            if let Ok(t) = tc_args(strict, args, i + 1, fi, callee, position, ps, locals, s2) {
                lemma_refines_trans(s, s2, t);
            }
        }
    }
}

pub(crate) proof fn lemma_decls_refines(strict: bool, ds: Seq<DeclView>, i: nat, ps: Option<ParamsView>, locals: Locals, s: Seq<SigView>)
    requires
        scope_fits(ps, s),
    ensures
        tc_decls(strict, ds, i, ps, locals, s) matches Ok((_, t)) ==> refines(s, t),
    decreases ds, ds.len() - i,
{
    lemma_refines_refl(s);
    if i < ds.len() {
        lemma_expr_refines(strict, ds[i as int].initializer, ps, locals, s);
        if let Ok((f, s1)) = tc_expr(strict, ds[i as int].initializer, ps, locals, s) {
            lemma_refines_keeps_validity(s, s1, f, ps);
            let inner = locals.push((ds[i as int].name, flow_lattice(f)));
            lemma_decls_refines(strict, ds, i + 1, ps, inner, s1);
            if let Ok((_, t)) = tc_decls(strict, ds, i + 1, ps, inner, s1) {
                lemma_refines_trans(s, s1, t);
            }
        }
    }
}

pub(crate) proof fn lemma_block_refines(strict: bool, b: BlockView, ps: Option<ParamsView>, locals: Locals, s: Seq<SigView>)
    requires
        scope_fits(ps, s),
    ensures
        tc_block(strict, b, ps, locals, s) matches Ok((f, t)) ==> refines(s, t) && valid_flow(f, t),
    decreases b, 0nat,
{
    lemma_decls_refines(strict, b.declarations, 0, ps, locals, s);
    if let Ok((inner, s1)) = tc_decls(strict, b.declarations, 0, ps, locals, s) {
        lemma_refines_keeps_validity(s, s1, crate::typecheck_spec::Flow::Mixed, ps);
        lemma_expr_refines(strict, b.expression, ps, inner, s1);
        if let Ok((f, t)) = tc_expr(strict, b.expression, ps, inner, s1) {
            lemma_refines_trans(s, s1, t);
        }
    }
}

pub(crate) proof fn lemma_refines_keeps_match(p: ProgramView, a: Seq<SigView>, b: Seq<SigView>)
    requires
        refines(a, b),
        sigs_match(p, a),
    ensures
        sigs_match(p, b),
{
    assert forall|i: int| 0 <= i < b.len() implies #[trigger] b[i].params.len() == p.functions[i].parameters.len() by {
        assert(sig_refines(a[i], b[i]));
    }
}

pub(crate) proof fn lemma_functions_refines(strict: bool, p: ProgramView, fi: nat, s: Seq<SigView>)
    requires
        p.functions.len() <= usize::MAX,
        sigs_match(p, s),
    ensures
        tc_functions(strict, p, fi, s) matches Ok(t) ==> refines(s, t),
    decreases p.functions.len() - fi,
{
    lemma_refines_refl(s);
    if fi < p.functions.len() {
        let ps = Some(params_of(p, fi));
        assert(s[fi as int].params.len() == p.functions[fi as int].parameters.len());
        lemma_block_refines(strict, p.functions[fi as int].body, ps, Seq::empty(), s);
        if let Ok((flow, s1)) = tc_block(strict, p.functions[fi as int].body, ps, Seq::empty(), s) {
            let s2 = set_result(s1, fi as int, join(s1[fi as int].result, flow_lattice(flow)));
            lemma_set_result_refines(s1, fi as int, flow_lattice(flow));
            lemma_refines_trans(s, s1, s2);
            lemma_refines_keeps_match(p, s, s2);
            lemma_functions_refines(strict, p, fi + 1, s2);
            if let Ok(t) = tc_functions(strict, p, fi + 1, s2) {
                lemma_refines_trans(s, s2, t);
            }
        }
    }
}

pub(crate) proof fn lemma_top_refines(strict: bool, p: ProgramView, s: Seq<SigView>)
    ensures
        tc_top(strict, p, s) matches Ok(t) ==> refines(s, t),
{
    lemma_decls_refines(strict, p.declarations, 0, None, Seq::empty(), s);
    if let Ok((locals, s1)) = tc_decls(strict, p.declarations, 0, None, Seq::empty(), s) {
        lemma_expr_refines(strict, p.expression, None, locals, s1);
        if let Ok((_, t)) = tc_expr(strict, p.expression, None, locals, s1) {
            lemma_refines_trans(s, s1, t);
        }
    }
}

pub(crate) proof fn lemma_pass_refines(strict: bool, p: ProgramView, s: Seq<SigView>)
    requires
        p.functions.len() <= usize::MAX,
        sigs_match(p, s),
    ensures
        tc_pass(strict, p, s) matches Ok(t) ==> refines(s, t) && sigs_match(p, t),
{
    lemma_functions_refines(strict, p, 0, s);
    if let Ok(s1) = tc_functions(strict, p, 0, s) {
        lemma_top_refines(strict, p, s1);
        if let Ok(t) = tc_top(strict, p, s1) {
            lemma_refines_trans(s, s1, t);
            lemma_refines_keeps_match(p, s, t);
        }
    }
}

/// Type inference only ever refines the signatures of the declared
/// functions. One checking pass, and inference over any number of passes,
/// keeps every function and its arity, and moves each parameter and result
/// slot to the same place or higher in the inference lattice: a type once
/// inferred for a slot is never forgotten.
pub proof fn law_inference_only_refines(strict: bool, p: ProgramView, sigs: Seq<SigView>, passes: nat)
    requires
        p.functions.len() <= usize::MAX,
        sigs_match(p, sigs),
    ensures
        tc_pass(strict, p, sigs) matches Ok(next) ==> refines(sigs, next),
        infer(strict, p, sigs, passes) matches Ok(last) ==> refines(sigs, last),
    decreases passes,
{
    lemma_pass_refines(strict, p, sigs);
    if passes > 0 {
        if let Ok(next) = tc_pass(strict, p, sigs) {
            if next != sigs {
                law_inference_only_refines(strict, p, next, (passes - 1) as nat);
                if let Ok(last) = infer(strict, p, next, (passes - 1) as nat) {
                    lemma_refines_trans(sigs, next, last);
                }
            }
        }
    }
}

/// The signatures inference settles on are a fixed point of the checking
/// pass: checking every function body and the top level once more under
/// them succeeds and changes nothing.
pub proof fn law_inference_reaches_a_fixed_point(strict: bool, p: ProgramView, sigs: Seq<SigView>, passes: nat)
    ensures
        infer(strict, p, sigs, passes) matches Ok(last) ==> tc_pass(strict, p, last) == Ok::<Seq<SigView>, ErrorView>(last),
    decreases passes,
{
    if passes > 0 {
        if let Ok(next) = tc_pass(strict, p, sigs) {
            if next != sigs {
                law_inference_reaches_a_fixed_point(strict, p, next, (passes - 1) as nat);
            }
        }
    }
}

} // verus!
