//! Where `--positions` stands on the command line does not matter: before
//! the source, after it, or between options, it only asks for positions in
//! error reports and changes nothing else about the request.

use vstd::prelude::*;

use crate::cli::{invocation_from, invocation_of, request_of, InvocationView, RequestView, SourceView};

verus! {

/// The `--positions` flag as an argument.
pub open spec fn positions_flag() -> Option<Seq<char>> {
    Some("--positions"@)
}

/// `--json` when `json`, `--positions` otherwise.
pub open spec fn output_flag(json: bool) -> Option<Seq<char>> {
    if json { Some("--json"@) } else { positions_flag() }
}

/// The same options, with JSON output asked for when `json`, positions
/// otherwise.
pub open spec fn with_output_flag(inv: InvocationView, json: bool) -> InvocationView {
    if json {
        InvocationView { source: inv.source, input_limit: inv.input_limit, positions: inv.positions, json: true }
    } else {
        with_positions(inv)
    }
}

/// The same options, with positions asked for.
pub open spec fn with_positions(inv: InvocationView) -> InvocationView {
    InvocationView { source: inv.source, input_limit: inv.input_limit, positions: true, json: inv.json }
}

/// A source that names the argument one further to the right.
pub open spec fn shifted_source(source: SourceView) -> SourceView {
    match source {
        SourceView::File(index) => SourceView::File((index + 1) as usize),
        other => other,
    }
}

/// The same options, with a file source naming the argument one further to
/// the right.
pub open spec fn shifted(inv: InvocationView) -> InvocationView {
    InvocationView {
        source: match inv.source {
            Some(source) => Some(shifted_source(source)),
            None => None,
        },
        input_limit: inv.input_limit,
        positions: inv.positions,
        json: inv.json,
    }
}

proof fn lemma_append_flag(args: Seq<Option<Seq<char>>>, i: nat, inv: InvocationView, json: bool)
    requires
        i <= args.len(),
    ensures
        invocation_from(args, i, inv) matches Ok(r) ==> invocation_from(args.push(output_flag(json)), i, inv) == Ok::<
            InvocationView,
            Seq<char>,
        >(with_output_flag(r, json)),
    decreases args.len() - i,
{
    let pushed = args.push(output_flag(json));
    if i == args.len() {
        reveal_strlit("--json");
        reveal_strlit("--positions");
        assert("--json"@ != "--positions"@) by {
            assert("--json"@.len() != "--positions"@.len());
        }
        assert(pushed[i as int] == output_flag(json));
        assert(invocation_from(pushed, i + 1, with_output_flag(inv, json)) == Ok::<InvocationView, Seq<char>>(
            with_output_flag(inv, json),
        ));
    } else {
        let argument = args[i as int];
        assert(pushed[i as int] == argument);
        if i + 1 < args.len() {
            assert(pushed[i + 1int] == args[i + 1int]);
        }
        if argument == Some("--positions"@) {
            lemma_append_flag(args, i + 1, with_positions(inv), json);
        } else if argument == Some("--json"@) {
            lemma_append_flag(
                args,
                i + 1,
                InvocationView { source: inv.source, input_limit: inv.input_limit, positions: inv.positions, json: true },
                json,
            );
        } else if argument == Some("--input-limit"@) {
            if i + 1 < args.len() {
                if let Some(text) = args[i + 1int] {
                    if let Some(bytes) = crate::cli::parse_size_text(text) {
                        lemma_append_flag(
                            args,
                            i + 2,
                            InvocationView { source: inv.source, input_limit: Some(bytes), positions: inv.positions, json: inv.json },
                            json,
                        );
                    }
                }
            }
        } else if argument == Some("-f"@) || argument == Some("--file"@) {
            if i + 1 < args.len() && inv.source is None {
                lemma_append_flag(args, i + 2, crate::cli::with_source(inv, SourceView::File((i + 1) as usize)), json);
            }
        } else if argument == Some("--stdin"@) {
            if inv.source is None {
                lemma_append_flag(args, i + 1, crate::cli::with_source(inv, SourceView::Stdin), json);
            }
        } else if let Some(text) = argument {
            if inv.source is None {
                lemma_append_flag(args, i + 1, crate::cli::with_source(inv, SourceView::Inline(text)), json);
            }
        }
    }
}

/// `--json` after the last argument: every argument list that is accepted
/// is still accepted with `--json` appended, with the same source, input
/// limit and positions setting, and with JSON output asked for.
pub proof fn law_json_flag_may_come_last(args: Seq<Option<Seq<char>>>)
    ensures
        invocation_of(args) matches Ok(r) ==> invocation_of(args.push(Some("--json"@))) == Ok::<InvocationView, Seq<char>>(
            InvocationView { source: r.source, input_limit: r.input_limit, positions: r.positions, json: true },
        ),
{
    lemma_append_flag(args, 0, InvocationView { source: None, input_limit: None, positions: false, json: false }, true);
}

/// `--positions` after the last argument: every argument list that is
/// accepted is still accepted with `--positions` appended, with the same
/// source, input limit and output format, and with positions asked for.
pub proof fn law_positions_flag_may_come_last(args: Seq<Option<Seq<char>>>)
    ensures
        invocation_of(args) matches Ok(r) ==> invocation_of(args.push(positions_flag())) == Ok::<InvocationView, Seq<char>>(
            with_positions(r),
        ),
{
    lemma_append_flag(args, 0, InvocationView { source: None, input_limit: None, positions: false, json: false }, false);
}

proof fn lemma_prepend_positions(args: Seq<Option<Seq<char>>>, i: nat, inv: InvocationView)
    requires
        i <= args.len(),
        args.len() + 1 <= usize::MAX,
    ensures
        invocation_from(seq![positions_flag()] + args, i + 1, with_positions(shifted(inv))) == match invocation_from(
            args,
            i,
            inv,
        ) {
            Ok(r) => Ok::<InvocationView, Seq<char>>(with_positions(shifted(r))),
            Err(e) => Err(e),
        },
    decreases args.len() - i,
{
    let whole = seq![positions_flag()] + args;
    let inv1 = with_positions(shifted(inv));
    if i < args.len() {
        let argument = args[i as int];
        assert(whole[i + 1int] == argument);
        if i + 1 < args.len() {
            assert(whole[i + 2int] == args[i + 1int]);
        }
        if argument == Some("--positions"@) {
            let next = InvocationView { source: inv.source, input_limit: inv.input_limit, positions: true, json: inv.json };
            assert(with_positions(shifted(next)) == InvocationView {
                source: inv1.source,
                input_limit: inv1.input_limit,
                positions: true,
                json: inv1.json,
            });
            lemma_prepend_positions(args, i + 1, next);
        } else if argument == Some("--json"@) {
            let next = InvocationView { source: inv.source, input_limit: inv.input_limit, positions: inv.positions, json: true };
            assert(with_positions(shifted(next)) == InvocationView {
                source: inv1.source,
                input_limit: inv1.input_limit,
                positions: inv1.positions,
                json: true,
            });
            lemma_prepend_positions(args, i + 1, next);
        } else if argument == Some("--input-limit"@) {
            if i + 1 < args.len() {
                if let Some(text) = args[i + 1int] {
                    if let Some(bytes) = crate::cli::parse_size_text(text) {
                        let next = InvocationView { source: inv.source, input_limit: Some(bytes), positions: inv.positions, json: inv.json };
                        assert(with_positions(shifted(next)) == InvocationView {
                            source: inv1.source,
                            input_limit: Some(bytes),
                            positions: inv1.positions,
                            json: inv1.json,
                        });
                        lemma_prepend_positions(args, i + 2, next);
                    }
                }
            }
        } else if argument == Some("-f"@) || argument == Some("--file"@) {
            if let Some(s) = inv.source {
                assert(crate::cli::conflict_text(shifted_source(s)) == crate::cli::conflict_text(s));
            }
            if i + 1 < args.len() && inv.source is None {
                let next = crate::cli::with_source(inv, SourceView::File((i + 1) as usize));
                assert(with_positions(shifted(next)) == crate::cli::with_source(inv1, SourceView::File((i + 2) as usize)));
                lemma_prepend_positions(args, i + 2, next);
            }
        } else if argument == Some("--stdin"@) {
            if let Some(s) = inv.source {
                assert(crate::cli::conflict_text(shifted_source(s)) == crate::cli::conflict_text(s));
            }
            if inv.source is None {
                let next = crate::cli::with_source(inv, SourceView::Stdin);
                assert(with_positions(shifted(next)) == crate::cli::with_source(inv1, SourceView::Stdin));
                lemma_prepend_positions(args, i + 1, next);
            }
        } else if let Some(text) = argument {
            if let Some(s) = inv.source {
                assert(crate::cli::conflict_text(shifted_source(s)) == crate::cli::conflict_text(s));
            }
            if inv.source is None {
                let next = crate::cli::with_source(inv, SourceView::Inline(text));
                assert(with_positions(shifted(next)) == crate::cli::with_source(inv1, SourceView::Inline(text)));
                lemma_prepend_positions(args, i + 1, next);
            }
        }
    }
}

/// `--positions` before everything else: putting it in front of any
/// argument list gives the same outcome as the list alone, the same error
/// or the same options with positions asked for (a file source then names
/// the argument one further to the right, the same file).
pub proof fn law_positions_flag_may_come_first(args: Seq<Option<Seq<char>>>)
    requires
        args.len() + 1 <= usize::MAX,
    ensures
        invocation_of(seq![positions_flag()] + args) == match invocation_of(args) {
            Ok(r) => Ok::<InvocationView, Seq<char>>(with_positions(shifted(r))),
            Err(e) => Err(e),
        },
{
    let start = InvocationView { source: None, input_limit: None, positions: false, json: false };
    let whole = seq![positions_flag()] + args;
    assert(whole[0] == positions_flag());
    assert(with_positions(shifted(start)) == InvocationView { source: None, input_limit: None, positions: true, json: false });
    lemma_prepend_positions(args, 0, start);
}

/// An evaluation request keeps its source, limits and output format when
/// `--positions` is appended, and then asks for positions. In particular
/// `"1 + 2" --positions` is the inline program `1 + 2` with positions.
pub proof fn law_evaluation_requests_take_positions_last(args: Seq<Option<Seq<char>>>)
    ensures
        request_of(args) matches Ok(RequestView::Evaluate { source, limits, positions, json }) ==> request_of(
            args.push(positions_flag()),
        ) == Ok::<RequestView, Seq<char>>(RequestView::Evaluate { source, limits, positions: true, json }),
{
    law_positions_flag_may_come_last(args);
    if let Ok(RequestView::Evaluate { .. }) = request_of(args) {
        let pushed = args.push(positions_flag());
        assert(pushed.len() >= 2 || args.len() == 0);
        if args.len() == 0 {
            assert(invocation_of(args) == Ok::<InvocationView, Seq<char>>(
                InvocationView { source: None, input_limit: None, positions: false, json: false },
            ));
        }
    }
}

} // verus!
