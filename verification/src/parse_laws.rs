//! What every parsed program has in common: its functions, their
//! parameters and its top-level variables are each declared once, and no
//! function takes the name of a built-in. And the nesting limit: chains of
//! prefix operators and nested parentheses parse up to the limit, and are
//! refused as too deeply nested beyond it.

use vstd::prelude::*;

use crate::ast::{DeclView, FunctionView, ProgramView};
use crate::error::ErrorView;
use crate::error::error_of;
use crate::lex_laws::{kinds, lemma_lex_of_one_char_tokens, minus_text, paren_text};
use crate::lexer::{lex, KindView, TokenKindOf, TokenView};
use crate::parser_spec::{
    p_expression, p_unary, MAX_DEPTH,
    is_builtin_name, p_declaration, p_declarations, p_function, p_functions, p_parameter_list, p_parameters,
    parse_program,
};

verus! {

/// No name occurs twice.
pub open spec fn distinct_names(names: Seq<Seq<char>>) -> bool {
    forall|i: int, j: int| 0 <= i < j < names.len() ==> #[trigger] names[i] != #[trigger] names[j]
}

/// The functions have distinct names, none of them a built-in's, and each
/// has distinct parameter names.
pub open spec fn functions_well_named(fs: Seq<FunctionView>) -> bool {
    &&& forall|i: int, j: int| 0 <= i < j < fs.len() ==> #[trigger] fs[i].name != #[trigger] fs[j].name
    &&& forall|i: int| 0 <= i < fs.len() ==> !is_builtin_name(#[trigger] fs[i].name)
    &&& forall|i: int| 0 <= i < fs.len() ==> distinct_names(#[trigger] fs[i].parameters)
}

/// The declarations bind distinct names.
pub open spec fn declarations_well_named(ds: Seq<DeclView>) -> bool {
    forall|i: int, j: int| 0 <= i < j < ds.len() ==> #[trigger] ds[i].name != #[trigger] ds[j].name
}

proof fn lemma_parameters_distinct(ts: Seq<TokenView>, pos: nat, name: Seq<char>, params: Seq<Seq<char>>)
    requires
        distinct_names(params),
    ensures
        p_parameters(ts, pos, name, params) matches Ok((out, _)) ==> distinct_names(out),
    decreases ts.len() - pos,
{
    if let Some(t) = crate::parser_spec::peek(ts, pos) {
        if let crate::lexer::TokenKindOf::Identifier(param) = t.kind {
            if !params.contains(param) && pos + 2 <= ts.len() {
                let next = params.push(param);
                assert forall|i: int, j: int| 0 <= i < j < next.len() implies #[trigger] next[i] != #[trigger] next[j] by {
                    if j == params.len() {
                        assert(params[i] == next[i]);
                    } else {
                        assert(params[i] != params[j]);
                    }
                }
                lemma_parameters_distinct(ts, pos + 2, name, next);
            }
        }
    }
}

proof fn lemma_function_well_named(ts: Seq<TokenView>, pos: nat, depth: nat, existing: Seq<FunctionView>)
    ensures
        p_function(ts, pos, depth, existing) matches Ok((f, _)) ==> !is_builtin_name(f.name) && distinct_names(
            f.parameters,
        ) && forall|i: int| 0 <= i < existing.len() ==> #[trigger] existing[i].name != f.name,
{
    if let Some(t) = crate::parser_spec::peek(ts, pos + 1) {
        if let crate::lexer::TokenKindOf::Identifier(name) = t.kind {
            lemma_parameters_distinct(ts, pos + 3, name, Seq::empty());
            if let Ok((f, _)) = p_function(ts, pos, depth, existing) {
                assert forall|i: int| 0 <= i < existing.len() implies #[trigger] existing[i].name != f.name by {
                    if existing[i].name == f.name {
                        assert(crate::parser_spec::declares_function(existing, name));
                    }
                }
            }
        }
    }
}

proof fn lemma_functions_well_named(ts: Seq<TokenView>, pos: nat, depth: nat, fs: Seq<FunctionView>)
    requires
        functions_well_named(fs),
    ensures
        p_functions(ts, pos, depth, fs) matches Ok((out, _)) ==> functions_well_named(out),
    decreases ts.len() - pos,
{
    if crate::parser_spec::at_kind(ts, pos, crate::lexer::TokenKindOf::Fn) {
        lemma_function_well_named(ts, pos, depth, fs);
        if let Ok((f, p1)) = p_function(ts, pos, depth, fs) {
            if crate::parser_spec::within(ts, pos + 1, p1) {
                let next = fs.push(f);
                assert forall|i: int, j: int| 0 <= i < j < next.len() implies #[trigger] next[i].name
                    != #[trigger] next[j].name by {
                    if j == fs.len() {
                        assert(next[i] == fs[i]);
                    } else {
                        assert(fs[i].name != fs[j].name);
                    }
                }
                assert forall|i: int| 0 <= i < next.len() implies !is_builtin_name(#[trigger] next[i].name) by {
                    if i < fs.len() {
                        assert(next[i] == fs[i]);
                    }
                }
                assert forall|i: int| 0 <= i < next.len() implies distinct_names(#[trigger] next[i].parameters) by {
                    if i < fs.len() {
                        assert(next[i] == fs[i]);
                    }
                }
                lemma_functions_well_named(ts, p1, depth, next);
            }
        }
    }
}

proof fn lemma_declarations_well_named(ts: Seq<TokenView>, pos: nat, depth: nat, ds: Seq<DeclView>)
    requires
        declarations_well_named(ds),
    ensures
        p_declarations(ts, pos, depth, ds) matches Ok((out, _)) ==> declarations_well_named(out),
    decreases ts.len() - pos,
{
    if crate::parser_spec::at_kind(ts, pos, crate::lexer::TokenKindOf::Let) {
        if let Ok((d, p1)) = p_declaration(ts, pos, depth, ds) {
            assert(!crate::parser_spec::declares(ds, d.name));
            if crate::parser_spec::within(ts, pos + 1, p1) {
                let next = ds.push(d);
                assert forall|i: int, j: int| 0 <= i < j < next.len() implies #[trigger] next[i].name
                    != #[trigger] next[j].name by {
                    if j == ds.len() {
                        assert(next[i] == ds[i]);
                    } else {
                        assert(ds[i].name != ds[j].name);
                    }
                }
                lemma_declarations_well_named(ts, p1, depth, next);
            }
        }
    }
}

/// Every program that parses declares each function once and none under the
/// name of a built-in, gives each function distinct parameter names, and
/// declares each top-level variable once.
pub proof fn law_parsed_programs_are_well_named(ts: Seq<TokenView>)
    ensures
        parse_program(ts) matches Ok(p) ==> functions_well_named(p.functions) && declarations_well_named(
            p.declarations,
        ),
{
    lemma_functions_well_named(ts, 0, 0, Seq::empty());
    if let Ok((functions, p1)) = p_functions(ts, 0, 0, Seq::empty()) {
        lemma_declarations_well_named(ts, p1, 0, Seq::empty());
    }
}

/// The token kinds of `n` prefix `-` in front of `1`.
pub open spec fn minus_kinds(n: nat) -> Seq<KindView> {
    Seq::new(n + 1, |i: int| if i < n { TokenKindOf::Minus } else { TokenKindOf::Integer(1) })
}

/// The token kinds of `1` inside `n` pairs of parentheses.
pub open spec fn paren_kinds(n: nat) -> Seq<KindView> {
    Seq::new(
        2 * n + 1,
        |i: int|
            if i < n {
                TokenKindOf::LeftParen
            } else if i == n {
                TokenKindOf::Integer(1)
            } else {
                TokenKindOf::RightParen
            },
    )
}

proof fn lemma_kinds(ts: Seq<TokenView>)
    ensures
        kinds(ts).len() == ts.len(),
        forall|i: int| 0 <= i < ts.len() ==> #[trigger] ts[i].kind == kinds(ts)[i],
{
}

proof fn lemma_prefix_chain_unary(ts: Seq<TokenView>, n: nat, i: nat, depth: nat)
    requires
        kinds(ts) == minus_kinds(n),
        i <= n,
        1 <= depth <= MAX_DEPTH,
    ensures
        p_unary(ts, i, depth) is Ok <==> depth + (n - i) <= MAX_DEPTH,
        p_unary(ts, i, depth) matches Ok((_, end)) ==> end == n + 1,
        p_unary(ts, i, depth) matches Err(e) ==> e == error_of("program too deeply nested"@, None),
    decreases n - i,
{
    lemma_kinds(ts);
    assert(minus_kinds(n).len() == n + 1);
    assert(ts.len() == n + 1);
    assert(ts[i as int].kind == minus_kinds(n)[i as int]);
    if i < n && depth + 1 <= MAX_DEPTH {
        lemma_prefix_chain_unary(ts, n, i + 1, depth + 1);
    }
}

/// The top level of a program whose tokens start with neither `fn` nor
/// `let` is its final expression.
proof fn lemma_expression_only(ts: Seq<TokenView>)
    requires
        ts.len() > 0,
        ts[0].kind != TokenKindOf::<Seq<char>>::Fn,
        ts[0].kind != TokenKindOf::<Seq<char>>::Let,
    ensures
        p_functions(ts, 0, 0, Seq::empty()) == Ok::<(Seq<FunctionView>, nat), ErrorView>((Seq::empty(), 0)),
        p_declarations(ts, 0, 0, Seq::empty()) == Ok::<(Seq<DeclView>, nat), ErrorView>((Seq::empty(), 0)),
{
    assert(!crate::parser_spec::at_kind(ts, 0, TokenKindOf::Fn));
    assert(!crate::parser_spec::at_kind(ts, 0, TokenKindOf::Let));
}

/// The nesting limit on prefix operators, on source text: `n` prefix `-`
/// in front of `1` lexes, and parses exactly when `n` is at most one less
/// than the nesting limit (the whole expression is one level itself); a
/// longer chain is refused as too deeply nested, with no position.
pub proof fn law_prefix_chains_nest_up_to_the_limit(n: nat)
    ensures
        lex(minus_text(n)) matches Ok(ts) && (parse_program(ts) is Ok <==> n + 1 <= MAX_DEPTH) && (parse_program(ts) matches Err(
            e,
        ) ==> e == error_of("program too deeply nested"@, None)),
{
    let text = minus_text(n);
    assert forall|i: int| 0 <= i < text.len() implies (#[trigger] text[i] == '-' || text[i] == '(' || text[i] == ')'
        || text[i] == '1') by {}
    assert forall|i: int| 0 <= i < text.len() - 1 && #[trigger] text[i] == '1' implies text[i + 1] != '1' by {}
    lemma_lex_of_one_char_tokens(text);
    let ts = lex(text)->Ok_0;
    assert(kinds(ts) =~= minus_kinds(n));
    lemma_kinds(ts);
    assert(ts[0].kind == minus_kinds(n)[0]);
    lemma_expression_only(ts);
    lemma_prefix_chain_unary(ts, n, 0, 1);
    let end = n + 1;
    assert(crate::parser_spec::multiplicative_of(ts, end) is None);
    assert(crate::parser_spec::additive_of(ts, end) is None);
    assert(crate::parser_spec::comparison_of(ts, end) is None);
    assert(!crate::parser_spec::at_kind(ts, end, TokenKindOf::AndAnd));
    assert(!crate::parser_spec::at_kind(ts, end, TokenKindOf::OrOr));
    assert(crate::parser_spec::peek(ts, end) is None);
}

proof fn lemma_no_operator_after(ts: Seq<TokenView>, n: nat, k: nat)
    requires
        kinds(ts) == paren_kinds(n),
        n < k,
    ensures
        crate::parser_spec::multiplicative_of(ts, k) is None,
        crate::parser_spec::additive_of(ts, k) is None,
        crate::parser_spec::comparison_of(ts, k) is None,
        !crate::parser_spec::at_kind(ts, k, TokenKindOf::AndAnd),
        !crate::parser_spec::at_kind(ts, k, TokenKindOf::OrOr),
{
    lemma_kinds(ts);
    assert(paren_kinds(n).len() == 2 * n + 1);
    if k < ts.len() {
        assert(ts[k as int].kind == paren_kinds(n)[k as int]);
    }
}

proof fn lemma_parenthesized_expression(ts: Seq<TokenView>, n: nat, i: nat, depth: nat)
    requires
        kinds(ts) == paren_kinds(n),
        i <= n,
    ensures
        p_expression(ts, i, depth) is Ok <==> depth + (n - i) + 1 <= MAX_DEPTH,
        p_expression(ts, i, depth) matches Ok((_, end)) ==> end == 2 * n + 1 - i,
        p_expression(ts, i, depth) matches Err(e) ==> e == error_of("program too deeply nested"@, None),
    decreases n - i,
{
    lemma_kinds(ts);
    assert(paren_kinds(n).len() == 2 * n + 1);
    assert(ts.len() == 2 * n + 1);
    assert(ts[i as int].kind == paren_kinds(n)[i as int]);
    if depth + 1 <= MAX_DEPTH {
        let d = depth + 1;
        if i < n {
            lemma_parenthesized_expression(ts, n, i + 1, d);
            let close = (2 * n + 1 - (i + 1)) as nat;
            assert(ts[close as int].kind == paren_kinds(n)[close as int]);
        }
        lemma_no_operator_after(ts, n, (2 * n + 1 - i) as nat);
    }
}

/// The nesting limit on parentheses, on source text: `1` inside `n` pairs
/// of parentheses lexes, and parses exactly when `n` is at most one less
/// than the nesting limit (the whole expression is one level itself);
/// deeper parentheses are refused as too deeply nested, with no position.
pub proof fn law_parentheses_nest_up_to_the_limit(n: nat)
    ensures
        lex(paren_text(n)) matches Ok(ts) && (parse_program(ts) is Ok <==> n + 1 <= MAX_DEPTH) && (parse_program(ts) matches Err(
            e,
        ) ==> e == error_of("program too deeply nested"@, None)),
{
    let text = paren_text(n);
    assert forall|i: int| 0 <= i < text.len() implies (#[trigger] text[i] == '-' || text[i] == '(' || text[i] == ')'
        || text[i] == '1') by {}
    assert forall|i: int| 0 <= i < text.len() - 1 && #[trigger] text[i] == '1' implies text[i + 1] != '1' by {}
    lemma_lex_of_one_char_tokens(text);
    let ts = lex(text)->Ok_0;
    assert(kinds(ts) =~= paren_kinds(n));
    lemma_kinds(ts);
    assert(ts[0].kind == paren_kinds(n)[0]);
    lemma_expression_only(ts);
    lemma_parenthesized_expression(ts, n, 0, 0);
    assert(crate::parser_spec::peek(ts, 2 * n + 1) is None);
}

} // verus!
