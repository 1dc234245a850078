//! The grammar of the language as a function from tokens to a program
//! view: a recursive-descent reading with a bound on nesting depth.

use vstd::prelude::*;

use crate::ast::{BinaryOperator, BlockView, DeclView, ExprView, FunctionView, ProgramView};
use crate::error::{error_of, ErrorView, SourcePosition};
use crate::lexer::{kind_name, KindView, TokenKindOf, TokenView};

verus! {

/// The deepest nesting of expressions the parser accepts.
pub const MAX_DEPTH: usize = 128;

/// The outcome of reading a phrase: its view and the index just past it.
pub type Parsed<T> = Result<(T, nat), ErrorView>;

/// The token at `pos`, if any.
pub open spec fn peek(ts: Seq<TokenView>, pos: nat) -> Option<TokenView> {
    if pos < ts.len() { Some(ts[pos as int]) } else { None }
}

/// Whether the token at `pos` has kind `kind`.
pub open spec fn at_kind(ts: Seq<TokenView>, pos: nat, kind: KindView) -> bool {
    pos < ts.len() && ts[pos as int].kind == kind
}

/// An error at the token at `pos`, or without a position at the end.
pub open spec fn error_here(ts: Seq<TokenView>, pos: nat, message: Seq<char>) -> ErrorView {
    match peek(ts, pos) {
        Some(t) => error_of(message, Some(t.position)),
        None => error_of(message, None),
    }
}

/// The error value used where a reading would not advance (it never does).
pub open spec fn stuck() -> ErrorView {
    error_of(Seq::empty(), None)
}

/// A position, or line 1, column 1 when there is none.
pub open spec fn or_first(position: Option<SourcePosition>) -> SourcePosition {
    match position {
        Some(p) => p,
        None => SourcePosition { line: 1, column: 1 },
    }
}

/// Whether `pos` lies between `from` and the end of the tokens.
pub open spec fn within(ts: Seq<TokenView>, from: nat, pos: nat) -> bool {
    from <= pos <= ts.len()
}

/// The comparison operator a token kind denotes, if any.
pub open spec fn comparison_of(ts: Seq<TokenView>, pos: nat) -> Option<BinaryOperator> {
    if pos < ts.len() {
        match ts[pos as int].kind {
            TokenKindOf::LessThan => Some(BinaryOperator::LessThan),
            TokenKindOf::LessThanOrEqual => Some(BinaryOperator::LessThanOrEqual),
            TokenKindOf::GreaterThan => Some(BinaryOperator::GreaterThan),
            TokenKindOf::GreaterThanOrEqual => Some(BinaryOperator::GreaterThanOrEqual),
            TokenKindOf::EqualEqual => Some(BinaryOperator::Equal),
            TokenKindOf::NotEqual => Some(BinaryOperator::NotEqual),
            _ => None,
        }
    } else {
        None
    }
}

/// The additive operator at `pos`, if any.
pub open spec fn additive_of(ts: Seq<TokenView>, pos: nat) -> Option<BinaryOperator> {
    if at_kind(ts, pos, TokenKindOf::Plus) {
        Some(BinaryOperator::Add)
    } else if at_kind(ts, pos, TokenKindOf::Minus) {
        Some(BinaryOperator::Subtract)
    } else {
        None
    }
}

/// The multiplicative operator at `pos`, if any.
pub open spec fn multiplicative_of(ts: Seq<TokenView>, pos: nat) -> Option<BinaryOperator> {
    if at_kind(ts, pos, TokenKindOf::Star) {
        Some(BinaryOperator::Multiply)
    } else if at_kind(ts, pos, TokenKindOf::Slash) {
        Some(BinaryOperator::Divide)
    } else if at_kind(ts, pos, TokenKindOf::Percent) {
        Some(BinaryOperator::Remainder)
    } else {
        None
    }
}

/// Whether a declaration list already declares `name`.
pub open spec fn declares(ds: Seq<DeclView>, name: Seq<char>) -> bool {
    exists|i: int| 0 <= i < ds.len() && #[trigger] ds[i].name == name
}

/// Whether a function list already declares `name`.
pub open spec fn declares_function(fs: Seq<FunctionView>, name: Seq<char>) -> bool {
    exists|i: int| 0 <= i < fs.len() && #[trigger] fs[i].name == name
}

/// The names of the built-in functions.
pub open spec fn is_builtin_name(name: Seq<char>) -> bool {
    name == "len"@ || name == "int_to_string"@ || name == "string_to_int"@ || name == "bool_to_int"@
        || name == "int_to_bool"@ || name == "bool_to_string"@ || name == "string_to_bool"@
}

/// `expression ::= logical_or`, counted as one level of nesting.
pub open spec fn p_expression(ts: Seq<TokenView>, pos: nat, depth: nat) -> Parsed<ExprView>
    decreases ts.len() - pos, 20nat,
{
    if depth + 1 > MAX_DEPTH {
        Err(error_of("program too deeply nested"@, None))
    } else {
        p_or(ts, pos, depth + 1)
    }
}

/// `logical_or ::= logical_and ("||" logical_and)*`
pub open spec fn p_or(ts: Seq<TokenView>, pos: nat, depth: nat) -> Parsed<ExprView>
    decreases ts.len() - pos, 19nat,
{
    match p_and(ts, pos, depth) {
        Err(e) => Err(e),
        Ok((left, p1)) => if !within(ts, pos, p1) { Err(stuck()) } else { p_or_rest(ts, left, p1, depth) },
    }
}

pub open spec fn p_or_rest(ts: Seq<TokenView>, left: ExprView, pos: nat, depth: nat) -> Parsed<ExprView>
    decreases ts.len() - pos, 18nat,
{
    if at_kind(ts, pos, TokenKindOf::OrOr) {
        let position = Some(ts[pos as int].position);
        match p_and(ts, pos + 1, depth) {
            Err(e) => Err(e),
            Ok((right, p2)) => if !within(ts, pos + 1, p2) {
                Err(stuck())
            } else {
                p_or_rest(ts, ExprView::LogicalOr { left: Box::new(left), right: Box::new(right), position }, p2, depth)
            },
        }
    } else {
        Ok((left, pos))
    }
}

/// `logical_and ::= comparison ("&&" comparison)*`
pub open spec fn p_and(ts: Seq<TokenView>, pos: nat, depth: nat) -> Parsed<ExprView>
    decreases ts.len() - pos, 17nat,
{
    match p_comparison(ts, pos, depth) {
        Err(e) => Err(e),
        Ok((left, p1)) => if !within(ts, pos, p1) { Err(stuck()) } else { p_and_rest(ts, left, p1, depth) },
    }
}

pub open spec fn p_and_rest(ts: Seq<TokenView>, left: ExprView, pos: nat, depth: nat) -> Parsed<ExprView>
    decreases ts.len() - pos, 16nat,
{
    if at_kind(ts, pos, TokenKindOf::AndAnd) {
        let position = Some(ts[pos as int].position);
        match p_comparison(ts, pos + 1, depth) {
            Err(e) => Err(e),
            Ok((right, p2)) => if !within(ts, pos + 1, p2) {
                Err(stuck())
            } else {
                p_and_rest(ts, ExprView::LogicalAnd { left: Box::new(left), right: Box::new(right), position }, p2, depth)
            },
        }
    } else {
        Ok((left, pos))
    }
}

/// `comparison ::= additive (comparison_operator additive)?`; a second
/// comparison operator at the same level is an error.
pub open spec fn p_comparison(ts: Seq<TokenView>, pos: nat, depth: nat) -> Parsed<ExprView>
    decreases ts.len() - pos, 15nat,
{
    match p_additive(ts, pos, depth) {
        Err(e) => Err(e),
        Ok((left, p1)) => if !within(ts, pos, p1) {
            Err(stuck())
        } else {
            match comparison_of(ts, p1) {
                None => Ok((left, p1)),
                Some(operator) => match p_additive(ts, p1 + 1, depth) {
                    Err(e) => Err(e),
                    Ok((right, p2)) => if comparison_of(ts, p2) is Some {
                        Err(error_here(ts, p2, "comparison operators cannot be chained"@))
                    } else {
                        Ok((ExprView::Binary { operator, left: Box::new(left), right: Box::new(right), position: left.position() }, p2))
                    },
                },
            }
        },
    }
}

/// `additive ::= multiplicative (("+" | "-") multiplicative)*`
pub open spec fn p_additive(ts: Seq<TokenView>, pos: nat, depth: nat) -> Parsed<ExprView>
    decreases ts.len() - pos, 14nat,
{
    match p_multiplicative(ts, pos, depth) {
        Err(e) => Err(e),
        Ok((left, p1)) => if !within(ts, pos, p1) { Err(stuck()) } else { p_additive_rest(ts, left, p1, depth) },
    }
}

pub open spec fn p_additive_rest(ts: Seq<TokenView>, left: ExprView, pos: nat, depth: nat) -> Parsed<ExprView>
    decreases ts.len() - pos, 13nat,
{
    match additive_of(ts, pos) {
        None => Ok((left, pos)),
        Some(operator) => {
            let position = Some(ts[pos as int].position);
            match p_multiplicative(ts, pos + 1, depth) {
                Err(e) => Err(e),
                Ok((right, p2)) => if !within(ts, pos + 1, p2) {
                    Err(stuck())
                } else {
                    p_additive_rest(ts, ExprView::Binary { operator, left: Box::new(left), right: Box::new(right), position }, p2, depth)
                },
            }
        },
    }
}

/// `multiplicative ::= unary (("*" | "/" | "%") unary)*`
pub open spec fn p_multiplicative(ts: Seq<TokenView>, pos: nat, depth: nat) -> Parsed<ExprView>
    decreases ts.len() - pos, 12nat,
{
    match p_unary(ts, pos, depth) {
        Err(e) => Err(e),
        Ok((left, p1)) => if !within(ts, pos, p1) { Err(stuck()) } else { p_multiplicative_rest(ts, left, p1, depth) },
    }
}

pub open spec fn p_multiplicative_rest(ts: Seq<TokenView>, left: ExprView, pos: nat, depth: nat) -> Parsed<ExprView>
    decreases ts.len() - pos, 11nat,
{
    match multiplicative_of(ts, pos) {
        None => Ok((left, pos)),
        Some(operator) => {
            let position = Some(ts[pos as int].position);
            match p_unary(ts, pos + 1, depth) {
                Err(e) => Err(e),
                Ok((right, p2)) => if !within(ts, pos + 1, p2) {
                    Err(stuck())
                } else {
                    p_multiplicative_rest(ts, ExprView::Binary { operator, left: Box::new(left), right: Box::new(right), position }, p2, depth)
                },
            }
        },
    }
}

/// `unary ::= ("-" | "!") unary | primary`; each prefix operator is one
/// more level of nesting.
pub open spec fn p_unary(ts: Seq<TokenView>, pos: nat, depth: nat) -> Parsed<ExprView>
    decreases ts.len() - pos, 10nat,
{
    if at_kind(ts, pos, TokenKindOf::Minus) || at_kind(ts, pos, TokenKindOf::Bang) {
        let position = Some(ts[pos as int].position);
        match p_unary_nested(ts, pos + 1, depth) {
            Err(e) => Err(e),
            Ok((operand, p2)) => if at_kind(ts, pos, TokenKindOf::Minus) {
                Ok((ExprView::UnaryNegation { operand: Box::new(operand), position }, p2))
            } else {
                Ok((ExprView::UnaryNot { operand: Box::new(operand), position }, p2))
            },
        }
    } else {
        p_primary(ts, pos, depth)
    }
}

pub open spec fn p_unary_nested(ts: Seq<TokenView>, pos: nat, depth: nat) -> Parsed<ExprView>
    decreases ts.len() - pos, 11nat,
{
    if depth + 1 > MAX_DEPTH {
        Err(error_of("program too deeply nested"@, None))
    } else {
        p_unary(ts, pos, depth + 1)
    }
}

/// `primary ::= integer | string | "true" | "false" | identifier | call
/// | "(" expression ")" | if_expression`
pub open spec fn p_primary(ts: Seq<TokenView>, pos: nat, depth: nat) -> Parsed<ExprView>
    decreases ts.len() - pos, 9nat,
{
    match peek(ts, pos) {
        None => Err(error_here(ts, pos, "expected an expression"@)),
        Some(t) => {
            let here = Some(t.position);
            match t.kind {
                TokenKindOf::If => p_if_expression(ts, pos + 1, depth, t.position),
                TokenKindOf::Integer(value) => Ok((ExprView::Literal { value, position: here }, pos + 1)),
                TokenKindOf::String(value) => Ok((ExprView::StringLiteral { value, position: here }, pos + 1)),
                TokenKindOf::True => Ok((ExprView::BoolLiteral { value: true, position: here }, pos + 1)),
                TokenKindOf::False => Ok((ExprView::BoolLiteral { value: false, position: here }, pos + 1)),
                TokenKindOf::Identifier(name) => if at_kind(ts, pos + 1, TokenKindOf::LeftParen) {
                    p_call_arguments(ts, pos + 2, depth, name, here, Seq::empty())
                } else {
                    Ok((ExprView::Variable { name, position: here }, pos + 1))
                },
                TokenKindOf::LeftParen => p_parenthesized(ts, pos + 1, depth),
                TokenKindOf::RightParen => Err(error_of("unexpected ')'"@, here)),
                TokenKindOf::RightBrace => Err(error_of("unexpected '}'"@, here)),
                _ => Err(error_of("expected an expression"@, here)),
            }
        },
    }
}

/// `expression ")"`, after a `(`.
pub open spec fn p_parenthesized(ts: Seq<TokenView>, pos: nat, depth: nat) -> Parsed<ExprView>
    decreases ts.len() - pos, 22nat,
{
    match p_expression(ts, pos, depth) {
        Err(e) => Err(e),
        Ok((inner, p2)) => match peek(ts, p2) {
            Some(close) => if close.kind == TokenKindOf::<Seq<char>>::RightParen {
                Ok((inner, p2 + 1))
            } else {
                Err(error_of("unmatched '('"@, Some(close.position)))
            },
            None => Err(error_here(ts, p2, "unmatched '('"@)),
        },
    }
}

/// The arguments of a call after its `(`: expressions separated by commas
/// and closed by `)`; a comma must be followed by an argument.
pub open spec fn p_call_arguments(
    ts: Seq<TokenView>,
    pos: nat,
    depth: nat,
    callee: Seq<char>,
    position: Option<SourcePosition>,
    arguments: Seq<ExprView>,
) -> Parsed<ExprView>
    decreases ts.len() - pos, 21nat,
{
    match peek(ts, pos) {
        None => Err(error_of("unmatched '(' in function call"@, Some(or_first(position)))),
        Some(t) => if t.kind == TokenKindOf::<Seq<char>>::RightParen {
            Ok((ExprView::Call { callee, arguments, position }, pos + 1))
        } else if t.kind == TokenKindOf::<Seq<char>>::Comma {
            Err(error_of("unexpected ',' in function call"@, Some(t.position)))
        } else {
            match p_expression(ts, pos, depth) {
                Err(e) => Err(e),
                Ok((argument, p2)) => if !within(ts, pos, p2) {
                    Err(stuck())
                } else if at_kind(ts, p2, TokenKindOf::RightParen) {
                    Ok((ExprView::Call { callee, arguments: arguments.push(argument), position }, p2 + 1))
                } else if at_kind(ts, p2, TokenKindOf::Comma) {
                    if at_kind(ts, p2 + 1, TokenKindOf::RightParen) {
                        Err(error_here(ts, p2 + 1, "expected an expression"@))
                    } else {
                        p_call_arguments(ts, p2 + 1, depth, callee, position, arguments.push(argument))
                    }
                } else {
                    Err(error_here(ts, p2, "expected ',' or ')' in function call arguments"@))
                },
            }
        },
    }
}

/// `if_expression ::= "if" expression block "else" block`, after the `if`.
pub open spec fn p_if_expression(ts: Seq<TokenView>, pos: nat, depth: nat, position: SourcePosition) -> Parsed<ExprView>
    decreases ts.len() - pos, 30nat,
{
    match p_expression(ts, pos, depth) {
        Err(e) => Err(e),
        Ok((condition, p1)) => if !within(ts, pos, p1) {
            Err(stuck())
        } else {
            match p_if_block(ts, p1, depth, "after if condition"@) {
                Err(e) => Err(e),
                Ok((then_branch, p2)) => if !within(ts, p1, p2) {
                    Err(stuck())
                } else {
                    match peek(ts, p2) {
                        None => Err(error_here(ts, p2, "expected 'else' after the if branch"@)),
                        Some(t) => if t.kind == TokenKindOf::<Seq<char>>::Else {
                            match p_if_block(ts, p2 + 1, depth, "after 'else'"@) {
                                Err(e) => Err(e),
                                Ok((else_branch, p3)) => Ok((ExprView::If {
                                    condition: Box::new(condition),
                                    then_branch: Box::new(then_branch),
                                    else_branch: Box::new(else_branch),
                                    position: Some(position),
                                }, p3)),
                            }
                        } else {
                            Err(error_of("expected 'else' after the if branch"@, Some(t.position)))
                        },
                    }
                },
            }
        },
    }
}

/// The block of an `if` or `else`; `context` completes the error message
/// when the block is missing.
pub open spec fn p_if_block(ts: Seq<TokenView>, pos: nat, depth: nat, context: Seq<char>) -> Parsed<BlockView>
    decreases ts.len() - pos, 29nat,
{
    if at_kind(ts, pos, TokenKindOf::LeftBrace) {
        p_block(ts, pos, depth)
    } else {
        match peek(ts, pos) {
            Some(t) => Err(error_of("expected a block "@ + context, Some(t.position))),
            None => Err(error_of("expected a block "@ + context, None)),
        }
    }
}

/// `block ::= "{" declaration* expression "}"`, at the `{`.
pub open spec fn p_block(ts: Seq<TokenView>, pos: nat, depth: nat) -> Parsed<BlockView>
    decreases ts.len() - pos, 28nat,
{
    if pos >= ts.len() {
        Err(stuck())
    } else {
    match p_declarations(ts, pos + 1, depth, Seq::empty()) {
        Err(e) => Err(e),
        Ok((declarations, p1)) => if !within(ts, pos + 1, p1) {
            Err(stuck())
        } else {
            match p_block_expression(ts, p1, depth, declarations) {
                Err(e) => Err(e),
                Ok((expression, p2)) => match peek(ts, p2) {
                    None => Err(error_here(ts, p2, "expected '}' to close the block"@)),
                    Some(t) => if t.kind == TokenKindOf::<Seq<char>>::RightBrace {
                        Ok((BlockView { declarations, expression }, p2 + 1))
                    } else {
                        Err(error_of("expected '}' to close the block"@, Some(t.position)))
                    },
                },
            }
        },
    }
    }
}

/// The final expression of a block, which must be present before the `}`.
pub open spec fn p_block_expression(ts: Seq<TokenView>, pos: nat, depth: nat, declarations: Seq<DeclView>) -> Parsed<ExprView>
    decreases ts.len() - pos, 25nat,
{
    if peek(ts, pos) is None || at_kind(ts, pos, TokenKindOf::RightBrace) {
        if declarations.len() == 0 {
            Err(error_here(ts, pos, "expression is empty"@))
        } else {
            Err(error_here(ts, pos, "expected a final expression after declarations"@))
        }
    } else {
        p_expression(ts, pos, depth)
    }
}

/// `declaration*` of one scope, after the declarations `ds` already read.
pub open spec fn p_declarations(ts: Seq<TokenView>, pos: nat, depth: nat, ds: Seq<DeclView>) -> Parsed<Seq<DeclView>>
    decreases ts.len() - pos, 27nat,
{
    if at_kind(ts, pos, TokenKindOf::Let) {
        match p_declaration(ts, pos, depth, ds) {
            Err(e) => Err(e),
            Ok((d, p1)) => if !within(ts, pos + 1, p1) { Err(stuck()) } else { p_declarations(ts, p1, depth, ds.push(d)) },
        }
    } else {
        Ok((ds, pos))
    }
}

/// `declaration ::= "let" identifier "=" expression ";"`, at the `let`; a
/// name already declared in the same scope is an error.
pub open spec fn p_declaration(ts: Seq<TokenView>, pos: nat, depth: nat, existing: Seq<DeclView>) -> Parsed<DeclView>
    decreases ts.len() - pos, 26nat,
{
    let declared_at = match peek(ts, pos) { Some(t) => Some(t.position), None => None };
    match peek(ts, pos + 1) {
        None => Err(error_here(ts, pos + 1, "expected a variable name after 'let'"@)),
        Some(t) => match t.kind {
            TokenKindOf::Identifier(name) => {
                let missing_equals = "expected '=' after variable name '"@ + name + "'"@;
                match peek(ts, pos + 2) {
                    None => Err(error_of(missing_equals, Some(or_first(declared_at)))),
                    Some(e) => if e.kind != TokenKindOf::<Seq<char>>::Equals {
                        Err(error_of(missing_equals, Some(e.position)))
                    } else {
                        p_initializer(ts, pos + 3, depth, existing, name, declared_at)
                    },
                }
            },
            _ => Err(error_of("expected a variable name after 'let'"@, Some(t.position))),
        },
    }
}

/// The initializer of a declaration of `name` and its `;`, after the `=`.
pub open spec fn p_initializer(
    ts: Seq<TokenView>,
    pos: nat,
    depth: nat,
    existing: Seq<DeclView>,
    name: Seq<char>,
    declared_at: Option<SourcePosition>,
) -> Parsed<DeclView>
    decreases ts.len() - pos, 24nat,
{
    let missing_semicolon = "expected ';' after declaration of '"@ + name + "'"@;
    match p_expression(ts, pos, depth) {
        Err(err) => Err(err),
        Ok((initializer, p1)) => match peek(ts, p1) {
            None => Err(error_of(missing_semicolon, Some(or_first(declared_at)))),
            Some(s) => if s.kind != TokenKindOf::<Seq<char>>::Semicolon {
                Err(error_of(missing_semicolon, Some(s.position)))
            } else if declares(existing, name) {
                Err(error_of("duplicate variable declaration: '"@ + name + "'"@, Some(or_first(declared_at))))
            } else {
                Ok((DeclView { name, initializer, position: declared_at }, p1 + 1))
            },
        },
    }
}

/// The parameter names of a function after its `(`.
pub open spec fn p_parameters(ts: Seq<TokenView>, pos: nat, name: Seq<char>, params: Seq<Seq<char>>) -> Parsed<Seq<Seq<char>>>
    decreases ts.len() - pos,
{
    match peek(ts, pos) {
        None => Err(error_here(ts, pos, "unmatched '(' in function parameter list"@)),
        Some(t) => match t.kind {
            TokenKindOf::RightParen => Ok((params, pos + 1)),
            TokenKindOf::Identifier(param) => if params.contains(param) {
                Err(error_of("duplicate parameter name in function '"@ + name + "': '"@ + param + "'"@, Some(t.position)))
            } else if at_kind(ts, pos + 1, TokenKindOf::RightParen) {
                Ok((params.push(param), pos + 2))
            } else if at_kind(ts, pos + 1, TokenKindOf::Comma) {
                p_parameters(ts, pos + 2, name, params.push(param))
            } else {
                Err(error_here(ts, pos + 1, "expected ',' or ')' in function '"@ + name + "' parameter list"@))
            },
            _ => Err(error_of("expected a parameter name after '(' in function '"@ + name + "'"@, Some(t.position))),
        },
    }
}

/// The parenthesized parameter list of a function, at its `(`.
pub open spec fn p_parameter_list(ts: Seq<TokenView>, pos: nat, name: Seq<char>) -> Parsed<Seq<Seq<char>>> {
    match peek(ts, pos) {
        None => Err(error_of("expected '(' after function name '"@ + name + "'"@, Some(or_first(None)))),
        Some(t) => if t.kind == TokenKindOf::<Seq<char>>::LeftParen {
            p_parameters(ts, pos + 1, name, Seq::empty())
        } else {
            Err(error_of("expected '(' after function name '"@ + name + "'"@, Some(t.position)))
        },
    }
}

/// `"=" block`, the body of a function.
pub open spec fn p_function_body(ts: Seq<TokenView>, pos: nat, depth: nat) -> Parsed<BlockView> {
    match peek(ts, pos) {
        None => Err(error_of("expected '=' before the function body"@, Some(or_first(None)))),
        Some(t) => if t.kind != TokenKindOf::<Seq<char>>::Equals {
            Err(error_of("expected '=' before the function body"@, Some(t.position)))
        } else if at_kind(ts, pos + 1, TokenKindOf::LeftBrace) {
            p_block(ts, pos + 1, depth)
        } else {
            match peek(ts, pos + 1) {
                Some(b) => Err(error_of("expected a block for the function body"@, Some(b.position))),
                None => Err(error_of("expected a block for the function body"@, None)),
            }
        },
    }
}

/// `"fn" identifier "(" parameters ")" "=" block ";"`, at the `fn`; a
/// name already declared, or the name of a built-in, is an error.
pub open spec fn p_function(ts: Seq<TokenView>, pos: nat, depth: nat, existing: Seq<FunctionView>) -> Parsed<FunctionView> {
    let declared_at = match peek(ts, pos) { Some(t) => Some(t.position), None => None };
    match peek(ts, pos + 1) {
        None => Err(error_here(ts, pos + 1, "expected a function name after 'fn'"@)),
        Some(t) => match t.kind {
            TokenKindOf::Identifier(name) => if declares_function(existing, name) || is_builtin_name(name) {
                Err(error_of("duplicate function declaration: '"@ + name + "'"@, Some(or_first(declared_at))))
            } else {
                match p_parameter_list(ts, pos + 2, name) {
                    Err(e) => Err(e),
                    Ok((parameters, p1)) => match p_function_body(ts, p1, depth) {
                        Err(e) => Err(e),
                        Ok((body, p2)) => {
                            let missing = "expected ';' after declaration of function '"@ + name + "'"@;
                            match peek(ts, p2) {
                                None => Err(error_of(missing, Some(or_first(declared_at)))),
                                Some(s) => if s.kind == TokenKindOf::<Seq<char>>::Semicolon {
                                    Ok((FunctionView { name, parameters, body, position: declared_at }, p2 + 1))
                                } else {
                                    Err(error_of(missing, Some(s.position)))
                                },
                            }
                        },
                    },
                }
            },
            _ => Err(error_of("expected a function name after 'fn'"@, Some(t.position))),
        },
    }
}

/// The `fn` declarations at the start of a program, after those in `fs`.
pub open spec fn p_functions(ts: Seq<TokenView>, pos: nat, depth: nat, fs: Seq<FunctionView>) -> Parsed<Seq<FunctionView>>
    decreases ts.len() - pos,
{
    if at_kind(ts, pos, TokenKindOf::Fn) {
        match p_function(ts, pos, depth, fs) {
            Err(e) => Err(e),
            Ok((f, p1)) => if !within(ts, pos + 1, p1) { Err(stuck()) } else { p_functions(ts, p1, depth, fs.push(f)) },
        }
    } else {
        Ok((fs, pos))
    }
}

/// `program ::= function* declaration* expression`, the whole token list.
pub open spec fn parse_program(ts: Seq<TokenView>) -> Result<ProgramView, ErrorView> {
    match p_functions(ts, 0, 0, Seq::empty()) {
        Err(e) => Err(e),
        Ok((functions, p1)) => match p_declarations(ts, p1, 0, Seq::empty()) {
            Err(e) => Err(e),
            Ok((declarations, p2)) => if p2 >= ts.len() {
                if declarations.len() == 0 {
                    Err(error_of("expression is empty"@, None))
                } else {
                    Err(error_of("expected a final expression after declarations"@, None))
                }
            } else {
                match p_expression(ts, p2, 0) {
                    Err(e) => Err(e),
                    Ok((expression, p3)) => match peek(ts, p3) {
                        None => Ok(ProgramView { functions, declarations, expression }),
                        Some(t) => if t.kind == TokenKindOf::<Seq<char>>::RightParen {
                            Err(error_of("unmatched ')'"@, Some(t.position)))
                        } else if t.kind == TokenKindOf::<Seq<char>>::RightBrace {
                            Err(error_of("unexpected '}'"@, Some(t.position)))
                        } else {
                            Err(error_of("unexpected trailing token: "@ + kind_name(t.kind), Some(t.position)))
                        },
                    },
                }
            },
        },
    }
}

} // verus!
