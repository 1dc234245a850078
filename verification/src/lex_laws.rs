//! Comments and whitespace are transparent: text placed before a program
//! that is a comment or a whitespace character changes neither the kinds of
//! the tokens it lexes to nor the message of a lexical error, only their
//! positions. Tokens come in reading order, at 1-based lines and columns.

use vstd::prelude::*;

use crate::error::{ErrorView, SourcePosition};
use crate::lexer::{
    char_at, is_whitespace, lex, lex_from, lex_integer, lex_step, lex_string_body, scan_identifier,
    skip_block_comment, skip_line_comment, start_state, step, KindView, LexState, TokenKindOf, TokenView,
};

verus! {

/// The kinds of a sequence of tokens, without their positions.
pub open spec fn kinds(tokens: Seq<TokenView>) -> Seq<KindView> {
    tokens.map_values(|t: TokenView| t.kind)
}

/// Two lexing outcomes agree up to positions: the same token kinds, or
/// errors with the same message.
pub open spec fn same_up_to_positions(
    first: Result<Seq<TokenView>, ErrorView>,
    second: Result<Seq<TokenView>, ErrorView>,
) -> bool {
    match (first, second) {
        (Ok(a), Ok(b)) => kinds(a) == kinds(b),
        (Err(a), Err(b)) => a.message == b.message,
        _ => false,
    }
}

/// `c` is a `//` comment with its closing newline.
pub open spec fn is_line_comment(c: Seq<char>) -> bool {
    &&& c.len() >= 3
    &&& c[0] == '/' && c[1] == '/'
    &&& c.last() == '\n'
    &&& forall|i: int| 2 <= i < c.len() - 1 ==> #[trigger] c[i] != '\n'
}

/// `c` is a `/* */` comment that closes at its end and not before.
pub open spec fn is_block_comment(c: Seq<char>) -> bool {
    &&& c.len() >= 4
    &&& c[0] == '/' && c[1] == '*'
    &&& c[c.len() - 2] == '*' && c[c.len() - 1] == '/'
    &&& forall|i: int| 2 <= i < c.len() - 2 ==> !(#[trigger] c[i] == '*' && c[i + 1] == '/')
}

/// `c` is a comment or a single whitespace character.
pub open spec fn is_trivia(c: Seq<char>) -> bool {
    ||| is_line_comment(c)
    ||| is_block_comment(c)
    ||| (c.len() == 1 && is_whitespace(c[0]))
}

/// A state in `c + t` standing on the same character as a state in `t`.
pub open spec fn shifted(c: Seq<char>, t: Seq<char>, s1: LexState, s2: LexState) -> bool {
    s1.pos == s2.pos + c.len() && s2.pos <= t.len()
}

proof fn lemma_chars_shift(c: Seq<char>, t: Seq<char>, p2: nat, k: nat)
    ensures
        char_at(c + t, p2 + c.len() + k) == char_at(t, p2 + k),
{
    if p2 + k < t.len() {
        assert((c + t)[(p2 + c.len() + k) as int] == t[(p2 + k) as int]);
    }
}

proof fn lemma_step_shift(c: Seq<char>, t: Seq<char>, s1: LexState, s2: LexState)
    requires
        shifted(c, t, s1, s2),
    ensures
        shifted(c, t, step(c + t, s1), step(t, s2)),
{
    lemma_chars_shift(c, t, s2.pos, 0);
}

proof fn lemma_integer_shift(c: Seq<char>, t: Seq<char>, s1: LexState, s2: LexState, value: u64)
    requires
        shifted(c, t, s1, s2),
    ensures
        match (lex_integer(c + t, s1, value), lex_integer(t, s2, value)) {
            (Ok((v1, a1)), Ok((v2, a2))) => v1 == v2 && shifted(c, t, a1, a2),
            (Err(e1), Err(e2)) => e1.message == e2.message,
            _ => false,
        },
    decreases t.len() - s2.pos,
{
    lemma_chars_shift(c, t, s2.pos, 0);
    lemma_step_shift(c, t, s1, s2);
    if s2.pos < t.len() {
        lemma_integer_shift(c, t, step(c + t, s1), step(t, s2), (value * 10 + crate::text::digit_value(t[s2.pos as int])) as u64);
    }
}

proof fn lemma_identifier_shift(c: Seq<char>, t: Seq<char>, s1: LexState, s2: LexState)
    requires
        shifted(c, t, s1, s2),
    ensures
        shifted(c, t, scan_identifier(c + t, s1), scan_identifier(t, s2)),
        scan_identifier(t, s2).pos >= s2.pos,
    decreases t.len() - s2.pos,
{
    lemma_chars_shift(c, t, s2.pos, 0);
    lemma_step_shift(c, t, s1, s2);
    if s2.pos < t.len() {
        lemma_identifier_shift(c, t, step(c + t, s1), step(t, s2));
    }
}

proof fn lemma_string_shift(
    c: Seq<char>,
    t: Seq<char>,
    s1: LexState,
    s2: LexState,
    open1: SourcePosition,
    open2: SourcePosition,
    value: Seq<char>,
)
    requires
        shifted(c, t, s1, s2),
    ensures
        match (lex_string_body(c + t, s1, open1, value), lex_string_body(t, s2, open2, value)) {
            (Ok((v1, a1)), Ok((v2, a2))) => v1 == v2 && shifted(c, t, a1, a2) && a2.pos > s2.pos,
            (Err(e1), Err(e2)) => e1.message == e2.message,
            _ => false,
        },
    decreases t.len() - s2.pos,
{
    lemma_chars_shift(c, t, s2.pos, 0);
    lemma_chars_shift(c, t, s2.pos, 1);
    lemma_step_shift(c, t, s1, s2);
    if s2.pos < t.len() {
        let after1 = step(c + t, s1);
        let after2 = step(t, s2);
        lemma_step_shift(c, t, after1, after2);
        let ch = t[s2.pos as int];
        if ch == '\\' {
            if after2.pos < t.len() {
                if let Some(decoded) = crate::lexer::escape_of(t[after2.pos as int]) {
                    lemma_string_shift(c, t, step(c + t, after1), step(t, after2), open1, open2, value.push(decoded));
                }
            }
        } else if ch != '"' && ch != '\n' {
            lemma_string_shift(c, t, after1, after2, open1, open2, value.push(ch));
        }
    }
}

proof fn lemma_line_comment_shift(c: Seq<char>, t: Seq<char>, s1: LexState, s2: LexState)
    requires
        shifted(c, t, s1, s2),
    ensures
        shifted(c, t, skip_line_comment(c + t, s1), skip_line_comment(t, s2)),
        skip_line_comment(t, s2).pos >= s2.pos,
    decreases t.len() - s2.pos,
{
    lemma_chars_shift(c, t, s2.pos, 0);
    lemma_step_shift(c, t, s1, s2);
    if s2.pos < t.len() {
        lemma_line_comment_shift(c, t, step(c + t, s1), step(t, s2));
    }
}

proof fn lemma_block_comment_shift(
    c: Seq<char>,
    t: Seq<char>,
    s1: LexState,
    s2: LexState,
    open1: SourcePosition,
    open2: SourcePosition,
)
    requires
        shifted(c, t, s1, s2),
    ensures
        match (skip_block_comment(c + t, s1, open1), skip_block_comment(t, s2, open2)) {
            (Ok(a1), Ok(a2)) => shifted(c, t, a1, a2) && a2.pos > s2.pos,
            (Err(e1), Err(e2)) => e1.message == e2.message,
            _ => false,
        },
    decreases t.len() - s2.pos,
{
    lemma_chars_shift(c, t, s2.pos, 0);
    lemma_chars_shift(c, t, s2.pos, 1);
    lemma_step_shift(c, t, s1, s2);
    if s2.pos < t.len() {
        let after1 = step(c + t, s1);
        let after2 = step(t, s2);
        lemma_step_shift(c, t, after1, after2);
        lemma_block_comment_shift(c, t, after1, after2, open1, open2);
    }
}

/// Two optional tokens agree up to position.
pub open spec fn same_token(first: Option<TokenView>, second: Option<TokenView>) -> bool {
    match (first, second) {
        (None, None) => true,
        (Some(a), Some(b)) => a.kind == b.kind,
        _ => false,
    }
}

proof fn lemma_step_token_shift(c: Seq<char>, t: Seq<char>, s1: LexState, s2: LexState)
    requires
        shifted(c, t, s1, s2),
        s2.pos < t.len(),
    ensures
        match (lex_step(c + t, s1), lex_step(t, s2)) {
            (Ok((o1, a1)), Ok((o2, a2))) => same_token(o1, o2) && shifted(c, t, a1, a2),
            (Err(e1), Err(e2)) => e1.message == e2.message,
            _ => false,
        },
{
    let cs = c + t;
    lemma_chars_shift(c, t, s2.pos, 0);
    lemma_chars_shift(c, t, s2.pos, 1);
    assert(cs[s1.pos as int] == t[s2.pos as int]);
    let after1 = step(cs, s1);
    let after2 = step(t, s2);
    lemma_step_shift(c, t, s1, s2);
    lemma_step_shift(c, t, after1, after2);
    lemma_integer_shift(c, t, s1, s2, 0);
    lemma_identifier_shift(c, t, s1, s2);
    let end1 = scan_identifier(cs, s1);
    let end2 = scan_identifier(t, s2);
    assert(cs.subrange(s1.pos as int, end1.pos as int) =~= t.subrange(s2.pos as int, end2.pos as int)) by {
        assert forall|k: int| 0 <= k < end2.pos - s2.pos implies #[trigger] cs.subrange(
            s1.pos as int,
            end1.pos as int,
        )[k] == t.subrange(s2.pos as int, end2.pos as int)[k] by {
            lemma_chars_shift(c, t, s2.pos, k as nat);
        }
    }
    lemma_line_comment_shift(c, t, step(cs, after1), step(t, after2));
    lemma_step_shift(c, t, after1, after2);
    lemma_block_comment_shift(c, t, step(cs, after1), step(t, after2), crate::lexer::position_of(s1), crate::lexer::position_of(s2));
    lemma_string_shift(c, t, after1, after2, crate::lexer::position_of(s1), crate::lexer::position_of(s2), Seq::empty());
}

proof fn lemma_lex_from_shift(
    c: Seq<char>,
    t: Seq<char>,
    s1: LexState,
    s2: LexState,
    acc1: Seq<TokenView>,
    acc2: Seq<TokenView>,
)
    requires
        shifted(c, t, s1, s2),
        kinds(acc1) == kinds(acc2),
    ensures
        same_up_to_positions(lex_from(c + t, s1, acc1), lex_from(t, s2, acc2)),
    decreases t.len() - s2.pos,
{
    if s2.pos < t.len() {
        lemma_step_token_shift(c, t, s1, s2);
        if let (Ok((o1, a1)), Ok((o2, a2))) = (lex_step(c + t, s1), lex_step(t, s2)) {
            if a2.pos > s2.pos && a2.pos <= t.len() {
                let next1 = match o1 {
                    Some(token) => acc1.push(token),
                    None => acc1,
                };
                let next2 = match o2 {
                    Some(token) => acc2.push(token),
                    None => acc2,
                };
                match (o1, o2) {
                    (Some(x1), Some(x2)) => {
                        assert(kinds(acc1.push(x1)) =~= kinds(acc1).push(x1.kind));
                        assert(kinds(acc2.push(x2)) =~= kinds(acc2).push(x2.kind));
                    },
                    _ => {},
                }
                lemma_lex_from_shift(c, t, a1, a2, next1, next2);
            }
        }
    }
}

proof fn lemma_line_comment_skips(c: Seq<char>, t: Seq<char>, st: LexState)
    requires
        is_line_comment(c),
        2 <= st.pos <= c.len() - 1,
    ensures
        skip_line_comment(c + t, st).pos == c.len() - 1,
    decreases c.len() - st.pos,
{
    assert((c + t)[st.pos as int] == c[st.pos as int]);
    if st.pos < c.len() - 1 {
        lemma_line_comment_skips(c, t, step(c + t, st));
    }
}

proof fn lemma_block_comment_skips(c: Seq<char>, t: Seq<char>, st: LexState, open: SourcePosition)
    requires
        is_block_comment(c),
        2 <= st.pos <= c.len() - 2,
    ensures
        skip_block_comment(c + t, st, open) matches Ok(end) && end.pos == c.len(),
    decreases c.len() - st.pos,
{
    let cs = c + t;
    assert(cs[st.pos as int] == c[st.pos as int]);
    assert(cs[st.pos as int + 1] == c[st.pos as int + 1]);
    if st.pos < c.len() - 2 {
        assert(!(c[st.pos as int] == '*' && c[st.pos as int + 1] == '/'));
        lemma_block_comment_skips(c, t, step(cs, st), open);
    }
}

/// Comments and whitespace never affect lexing beyond positions: placing a
/// `//` comment with its newline, a `/* */` comment, or one whitespace
/// character in front of any program text leaves the kinds of its tokens,
/// or the message of its lexical error, unchanged.
pub proof fn law_comments_and_whitespace_are_transparent(c: Seq<char>, t: Seq<char>)
    requires
        is_trivia(c),
    ensures
        same_up_to_positions(lex(c + t), lex(t)),
{
    let cs = c + t;
    let s0 = start_state();
    let s1 = step(cs, s0);
    assert(cs[0] == c[0]);
    if is_line_comment(c) {
        assert(cs[1] == c[1]);
        let s2 = step(cs, s1);
        lemma_line_comment_skips(c, t, s2);
        let at_newline = skip_line_comment(cs, s2);
        assert(lex_step(cs, s0) == Ok::<(Option<TokenView>, LexState), ErrorView>((None, at_newline)));
        assert(cs[c.len() - 1] == c[c.len() - 1]);
        let past = step(cs, at_newline);
        assert(lex_step(cs, at_newline) == Ok::<(Option<TokenView>, LexState), ErrorView>((None, past)));
        assert(lex_from(cs, at_newline, Seq::empty()) == lex_from(cs, past, Seq::empty()));
        lemma_lex_from_shift(c, t, past, s0, Seq::empty(), Seq::empty());
    } else if is_block_comment(c) {
        assert(cs[1] == c[1]);
        let s2 = step(cs, s1);
        lemma_block_comment_skips(c, t, s2, crate::lexer::position_of(s0));
        lemma_lex_from_shift(c, t, skip_block_comment(cs, s2, crate::lexer::position_of(s0))->Ok_0, s0, Seq::empty(), Seq::empty());
    } else {
        lemma_lex_from_shift(c, t, s1, s0, Seq::empty(), Seq::empty());
    }
}

/// `a` comes strictly before `b` in reading order: an earlier line, or the
/// same line and an earlier column.
pub open spec fn before(a: SourcePosition, b: SourcePosition) -> bool {
    a.line < b.line || (a.line == b.line && a.column < b.column)
}

/// A lexer state on `cs`: 1-based line and column, never ahead of the
/// characters read so far.
pub open spec fn sound_state(cs: Seq<char>, st: LexState) -> bool {
    &&& 1 <= st.line
    &&& 1 <= st.column
    &&& st.line + st.column <= st.pos + 2
    &&& st.pos <= cs.len()
}

/// `b` is `a` or a sound state after it, at a later position in the text.
pub open spec fn advanced(cs: Seq<char>, a: LexState, b: LexState) -> bool {
    &&& sound_state(cs, b)
    &&& b.pos >= a.pos
    &&& b.pos == a.pos ==> b == a
    &&& b.pos > a.pos ==> before(crate::lexer::position_of(a), crate::lexer::position_of(b))
}

proof fn lemma_advanced_trans(cs: Seq<char>, a: LexState, b: LexState, c: LexState)
    requires
        advanced(cs, a, b),
        advanced(cs, b, c),
    ensures
        advanced(cs, a, c),
{
}

proof fn lemma_step_advances(cs: Seq<char>, st: LexState)
    requires
        sound_state(cs, st),
        cs.len() + 3 <= usize::MAX,
    ensures
        advanced(cs, st, step(cs, st)),
        st.pos < cs.len() ==> step(cs, st).pos == st.pos + 1,
{
}

proof fn lemma_integer_advances(cs: Seq<char>, st: LexState, value: u64)
    requires
        sound_state(cs, st),
        cs.len() + 3 <= usize::MAX,
    ensures
        lex_integer(cs, st, value) matches Ok((_, after)) ==> advanced(cs, st, after),
    decreases cs.len() - st.pos,
{
    lemma_step_advances(cs, st);
    if st.pos < cs.len() {
        let next = step(cs, st);
        let v = (value * 10 + crate::text::digit_value(cs[st.pos as int])) as u64;
        lemma_integer_advances(cs, next, v);
        if let Ok((_, after)) = lex_integer(cs, next, v) {
            lemma_advanced_trans(cs, st, next, after);
        }
    }
}

proof fn lemma_identifier_advances(cs: Seq<char>, st: LexState)
    requires
        sound_state(cs, st),
        cs.len() + 3 <= usize::MAX,
    ensures
        advanced(cs, st, scan_identifier(cs, st)),
    decreases cs.len() - st.pos,
{
    lemma_step_advances(cs, st);
    if st.pos < cs.len() {
        let next = step(cs, st);
        lemma_identifier_advances(cs, next);
        lemma_advanced_trans(cs, st, next, scan_identifier(cs, next));
    }
}

proof fn lemma_string_advances(cs: Seq<char>, st: LexState, open: SourcePosition, value: Seq<char>)
    requires
        sound_state(cs, st),
        cs.len() + 3 <= usize::MAX,
    ensures
        lex_string_body(cs, st, open, value) matches Ok((_, after)) ==> advanced(cs, st, after),
    decreases cs.len() - st.pos,
{
    lemma_step_advances(cs, st);
    if st.pos < cs.len() {
        let next = step(cs, st);
        lemma_step_advances(cs, next);
        let c = cs[st.pos as int];
        if c == '\\' {
            if next.pos < cs.len() {
                if let Some(decoded) = crate::lexer::escape_of(cs[next.pos as int]) {
                    let next2 = step(cs, next);
                    lemma_string_advances(cs, next2, open, value.push(decoded));
                    lemma_advanced_trans(cs, st, next, next2);
                    if let Ok((_, after)) = lex_string_body(cs, next2, open, value.push(decoded)) {
                        lemma_advanced_trans(cs, st, next2, after);
                    }
                }
            }
        } else if c != '"' && c != '\n' {
            lemma_string_advances(cs, next, open, value.push(c));
            if let Ok((_, after)) = lex_string_body(cs, next, open, value.push(c)) {
                lemma_advanced_trans(cs, st, next, after);
            }
        }
    }
}

proof fn lemma_line_comment_advances(cs: Seq<char>, st: LexState)
    requires
        sound_state(cs, st),
        cs.len() + 3 <= usize::MAX,
    ensures
        advanced(cs, st, skip_line_comment(cs, st)),
    decreases cs.len() - st.pos,
{
    lemma_step_advances(cs, st);
    if st.pos < cs.len() {
        let next = step(cs, st);
        lemma_line_comment_advances(cs, next);
        lemma_advanced_trans(cs, st, next, skip_line_comment(cs, next));
    }
}

proof fn lemma_block_comment_advances(cs: Seq<char>, st: LexState, open: SourcePosition)
    requires
        sound_state(cs, st),
        cs.len() + 3 <= usize::MAX,
    ensures
        skip_block_comment(cs, st, open) matches Ok(after) ==> advanced(cs, st, after),
    decreases cs.len() - st.pos,
{
    lemma_step_advances(cs, st);
    if st.pos < cs.len() {
        let next = step(cs, st);
        lemma_step_advances(cs, next);
        lemma_advanced_trans(cs, st, next, step(cs, next));
        lemma_block_comment_advances(cs, next, open);
        if let Ok(after) = skip_block_comment(cs, next, open) {
            lemma_advanced_trans(cs, st, next, after);
        }
    }
}

proof fn lemma_lex_step_advances(cs: Seq<char>, st: LexState)
    requires
        sound_state(cs, st),
        st.pos < cs.len(),
        cs.len() + 3 <= usize::MAX,
    ensures
        lex_step(cs, st) matches Ok((token, after)) ==> advanced(cs, st, after) && (token matches Some(t)
            ==> t.position == crate::lexer::position_of(st)),
{
    let next = step(cs, st);
    lemma_step_advances(cs, st);
    lemma_step_advances(cs, next);
    lemma_advanced_trans(cs, st, next, step(cs, next));
    lemma_integer_advances(cs, st, 0);
    lemma_identifier_advances(cs, st);
    let next2 = step(cs, next);
    lemma_line_comment_advances(cs, next2);
    lemma_advanced_trans(cs, st, next2, skip_line_comment(cs, next2));
    lemma_block_comment_advances(cs, next2, crate::lexer::position_of(st));
    if let Ok(end) = skip_block_comment(cs, next2, crate::lexer::position_of(st)) {
        lemma_advanced_trans(cs, st, next2, end);
    }
    lemma_string_advances(cs, next, crate::lexer::position_of(st), Seq::empty());
    if let Ok((_, end)) = lex_string_body(cs, next, crate::lexer::position_of(st), Seq::empty()) {
        lemma_advanced_trans(cs, st, next, end);
    }
}

/// Tokens whose positions are 1-based and strictly increasing in reading
/// order, all before `limit`.
pub open spec fn ordered_before(tokens: Seq<TokenView>, limit: SourcePosition) -> bool {
    &&& forall|i: int| 0 <= i < tokens.len() ==> 1 <= (#[trigger] tokens[i]).position.line && 1 <= tokens[i].position.column
    &&& forall|i: int, j: int| 0 <= i < j < tokens.len() ==> before(#[trigger] tokens[i].position, #[trigger] tokens[j].position)
    &&& forall|i: int| 0 <= i < tokens.len() ==> before((#[trigger] tokens[i]).position, limit)
}

proof fn lemma_lex_from_ordered(cs: Seq<char>, st: LexState, acc: Seq<TokenView>)
    requires
        sound_state(cs, st),
        cs.len() + 3 <= usize::MAX,
        ordered_before(acc, crate::lexer::position_of(st)),
    ensures
        lex_from(cs, st, acc) matches Ok(tokens) ==> (forall|i: int| 0 <= i < tokens.len() ==> 1 <= (#[trigger] tokens[i]).position.line
            && 1 <= tokens[i].position.column) && (forall|i: int, j: int| 0 <= i < j < tokens.len() ==> before(
            #[trigger] tokens[i].position,
            #[trigger] tokens[j].position,
        )),
    decreases cs.len() - st.pos,
{
    if st.pos < cs.len() {
        lemma_lex_step_advances(cs, st);
        if let Ok((token, after)) = lex_step(cs, st) {
            if after.pos > st.pos && after.pos <= cs.len() {
                let next = match token {
                    Some(t) => acc.push(t),
                    None => acc,
                };
                assert(ordered_before(next, crate::lexer::position_of(after))) by {
                    if let Some(t) = token {
                        assert forall|i: int| 0 <= i < next.len() implies before(
                            (#[trigger] next[i]).position,
                            crate::lexer::position_of(after),
                        ) by {
                            if i < acc.len() {
                                assert(next[i] == acc[i]);
                            }
                        }
                        assert forall|i: int, j: int| 0 <= i < j < next.len() implies before(
                            #[trigger] next[i].position,
                            #[trigger] next[j].position,
                        ) by {
                            assert(next[i] == acc[i]);
                            if j < acc.len() {
                                assert(next[j] == acc[j]);
                            }
                        }
                        assert forall|i: int| 0 <= i < next.len() implies 1 <= (#[trigger] next[i]).position.line && 1
                            <= next[i].position.column by {
                            if i < acc.len() {
                                assert(next[i] == acc[i]);
                            }
                        }
                    }
                }
                lemma_lex_from_ordered(cs, after, next);
            }
        }
    }
}

/// Tokens come in reading order: every token's line and column are at
/// least 1, and each token starts strictly after the one before it (on a
/// later line, or later on the same line). This holds for every text whose
/// length leaves room for its line and column counters.
pub proof fn law_tokens_come_in_reading_order(cs: Seq<char>)
    requires
        cs.len() + 3 <= usize::MAX,
    ensures
        lex(cs) matches Ok(tokens) ==> (forall|i: int| 0 <= i < tokens.len() ==> 1 <= (#[trigger] tokens[i]).position.line
            && 1 <= tokens[i].position.column) && (forall|i: int, j: int| 0 <= i < j < tokens.len() ==> before(
            #[trigger] tokens[i].position,
            #[trigger] tokens[j].position,
        )),
{
    lemma_lex_from_ordered(cs, start_state(), Seq::empty());
}

/// The token kind a one-character token of the nesting tests lexes to.
pub open spec fn char_kind(c: char) -> KindView {
    if c == '-' {
        TokenKindOf::Minus
    } else if c == '(' {
        TokenKindOf::LeftParen
    } else if c == ')' {
        TokenKindOf::RightParen
    } else {
        TokenKindOf::Integer(1)
    }
}

/// A text of the characters `-`, `(`, `)` and `1`, with no two `1`s side
/// by side: each character is a token of its own.
pub open spec fn one_char_tokens(cs: Seq<char>) -> bool {
    &&& forall|i: int| 0 <= i < cs.len() ==> (#[trigger] cs[i] == '-' || cs[i] == '(' || cs[i] == ')' || cs[i] == '1')
    &&& forall|i: int| 0 <= i < cs.len() - 1 && #[trigger] cs[i] == '1' ==> cs[i + 1] != '1'
}

/// `n` prefix `-` in front of `1`.
pub open spec fn minus_text(n: nat) -> Seq<char> {
    Seq::new(n, |i: int| '-') + seq!['1']
}

/// `1` inside `n` pairs of parentheses.
pub open spec fn paren_text(n: nat) -> Seq<char> {
    Seq::new(n, |i: int| '(') + seq!['1'] + Seq::new(n, |i: int| ')')
}

proof fn lemma_lex_one_char_tokens(cs: Seq<char>, st: LexState, acc: Seq<TokenView>)
    requires
        one_char_tokens(cs),
        st.pos <= cs.len(),
        kinds(acc) == cs.take(st.pos as int).map_values(|c: char| char_kind(c)),
    ensures
        lex_from(cs, st, acc) matches Ok(tokens) && kinds(tokens) == cs.map_values(|c: char| char_kind(c)),
    decreases cs.len() - st.pos,
{
    if st.pos < cs.len() {
        let c = cs[st.pos as int];
        let next = step(cs, st);
        let token = TokenView { kind: char_kind(c), position: crate::lexer::position_of(st) };
        if c == '1' {
            assert(st.pos + 1 < cs.len() ==> cs[st.pos as int + 1] != '1');
            assert(lex_integer(cs, next, 1) == Ok::<(u64, LexState), ErrorView>((1u64, next)));
            assert(lex_integer(cs, st, 0) == Ok::<(u64, LexState), ErrorView>((1u64, next)));
        }
        assert(lex_step(cs, st) == Ok::<(Option<TokenView>, LexState), ErrorView>((Some(token), next)));
        let pushed = acc.push(token);
        assert(next.pos == st.pos + 1);
        assert(kinds(acc).len() == acc.len());
        assert(cs.take(st.pos as int).map_values(|c: char| char_kind(c)).len() == st.pos);
        assert(acc.len() == st.pos);
        assert forall|k: int| 0 <= k < pushed.len() implies #[trigger] kinds(pushed)[k] == cs.take(next.pos as int).map_values(
            |c: char| char_kind(c),
        )[k] by {
            if k < acc.len() {
                assert(kinds(acc)[k] == cs.take(st.pos as int).map_values(|c: char| char_kind(c))[k]);
                assert(pushed[k] == acc[k]);
            }
        }
        assert(kinds(pushed) =~= cs.take(next.pos as int).map_values(|c: char| char_kind(c)));
        lemma_lex_one_char_tokens(cs, next, pushed);
    } else {
        assert(cs.take(st.pos as int) =~= cs);
    }
}

/// A text of one-character tokens lexes to one token per character, of the
/// character's kind.
pub proof fn lemma_lex_of_one_char_tokens(cs: Seq<char>)
    requires
        one_char_tokens(cs),
    ensures
        lex(cs) matches Ok(tokens) && kinds(tokens) == cs.map_values(|c: char| char_kind(c)),
{
    assert(kinds(Seq::<TokenView>::empty()) =~= cs.take(0).map_values(|c: char| char_kind(c)));
    lemma_lex_one_char_tokens(cs, start_state(), Seq::empty());
}

} // verus!
