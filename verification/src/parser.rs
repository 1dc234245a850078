//! The recursive-descent parser: builds the program tree from tokens
//! according to precedence, stamping each node with the position of its
//! first token, and refusing programs nested deeper than the nesting limit.

use vstd::prelude::*;

use crate::ast::{
    decl_view, decls_view, expr_view, exprs_view, function_view, functions_view, lemma_decls_view_index,
    lemma_decls_view_push, lemma_exprs_view_push, program_view, strings_view, BinaryOperator, Block, BlockView,
    Declaration, DeclView, ExprView, Expression, FunctionDeclaration, FunctionView, Program,
};
use crate::error::{error_of, Error, ErrorView, SourcePosition};
use crate::lexer::{tokens_view, KindView, Token, TokenKind, TokenKindOf, TokenView};
use crate::parser_spec::{
    additive_of, at_kind, comparison_of, declares, error_here, multiplicative_of, or_first,
    p_additive, p_additive_rest, p_and, p_and_rest, p_block, p_block_expression, p_call_arguments,
    p_comparison, p_declaration, p_declarations, p_initializer, p_expression, p_if_block, p_if_expression,
    p_multiplicative, p_multiplicative_rest, p_or, p_or_rest, p_parenthesized, p_primary, p_unary, p_unary_nested,
    p_parameter_list, p_parameters, p_function_body, p_function, p_functions, parse_program, declares_function,
    is_builtin_name, peek, Parsed, MAX_DEPTH,
};
use crate::text::{push_str, str_eq};

verus! {

/// The unit token kinds the parser tests for.
#[derive(Clone, Copy)]
enum Punct {
    OrOr,
    AndAnd,
    LeftParen,
    RightParen,
    Comma,
    LeftBrace,
    RightBrace,
    Let,
    Fn,
    Plus,
    Minus,
    Star,
    Slash,
    Percent,
    Bang,
    Equals,
    Semicolon,
    Else,
}

spec fn punct_kind(p: Punct) -> KindView {
    match p {
        Punct::OrOr => TokenKindOf::OrOr,
        Punct::AndAnd => TokenKindOf::AndAnd,
        Punct::LeftParen => TokenKindOf::LeftParen,
        Punct::RightParen => TokenKindOf::RightParen,
        Punct::Comma => TokenKindOf::Comma,
        Punct::LeftBrace => TokenKindOf::LeftBrace,
        Punct::RightBrace => TokenKindOf::RightBrace,
        Punct::Let => TokenKindOf::Let,
        Punct::Fn => TokenKindOf::Fn,
        Punct::Plus => TokenKindOf::Plus,
        Punct::Minus => TokenKindOf::Minus,
        Punct::Star => TokenKindOf::Star,
        Punct::Slash => TokenKindOf::Slash,
        Punct::Percent => TokenKindOf::Percent,
        Punct::Bang => TokenKindOf::Bang,
        Punct::Equals => TokenKindOf::Equals,
        Punct::Semicolon => TokenKindOf::Semicolon,
        Punct::Else => TokenKindOf::Else,
    }
}

fn kind_is(kind: &TokenKind, p: Punct) -> (b: bool)
    ensures
        b == (kind@ == punct_kind(p)),
{
    match (p, kind) {
        (Punct::OrOr, TokenKindOf::OrOr) => true,
        (Punct::AndAnd, TokenKindOf::AndAnd) => true,
        (Punct::LeftParen, TokenKindOf::LeftParen) => true,
        (Punct::RightParen, TokenKindOf::RightParen) => true,
        (Punct::Comma, TokenKindOf::Comma) => true,
        (Punct::LeftBrace, TokenKindOf::LeftBrace) => true,
        (Punct::RightBrace, TokenKindOf::RightBrace) => true,
        (Punct::Let, TokenKindOf::Let) => true,
        (Punct::Fn, TokenKindOf::Fn) => true,
        (Punct::Plus, TokenKindOf::Plus) => true,
        (Punct::Minus, TokenKindOf::Minus) => true,
        (Punct::Star, TokenKindOf::Star) => true,
        (Punct::Slash, TokenKindOf::Slash) => true,
        (Punct::Percent, TokenKindOf::Percent) => true,
        (Punct::Bang, TokenKindOf::Bang) => true,
        (Punct::Equals, TokenKindOf::Equals) => true,
        (Punct::Semicolon, TokenKindOf::Semicolon) => true,
        (Punct::Else, TokenKindOf::Else) => true,
        _ => false,
    }
}

/// The view of an expression-reading outcome, given where the parser ended.
pub open spec fn expr_outcome(r: Result<Expression, Error>, s: Parsed<ExprView>, after: nat) -> bool {
    match s {
        Ok((v, p)) => r is Ok && r->Ok_0@ == v && after == p,
        Err(e) => r is Err && r->Err_0@ == e,
    }
}

/// The view of a block-reading outcome.
pub open spec fn block_outcome(r: Result<Block, Error>, s: Parsed<BlockView>, after: nat) -> bool {
    match s {
        Ok((v, p)) => r is Ok && r->Ok_0@ == v && after == p,
        Err(e) => r is Err && r->Err_0@ == e,
    }
}

/// The view of a declarations-reading outcome.
pub open spec fn decls_outcome(r: Result<Vec<Declaration>, Error>, s: Parsed<Seq<DeclView>>, after: nat) -> bool {
    match s {
        Ok((v, p)) => r is Ok && decls_view(r->Ok_0@) == v && after == p,
        Err(e) => r is Err && r->Err_0@ == e,
    }
}

/// Whether a declaration in `existing` has the name `name`.
fn declares_name(existing: &Vec<Declaration>, name: &String) -> (found: bool)
    ensures
        found == declares(decls_view(existing@), name@),
{
    proof {
        lemma_decls_view_index(existing@);
    }
    let mut i: usize = 0;
    while i < existing.len()
        invariant
            i <= existing@.len(),
            decls_view(existing@).len() == existing@.len(),
            forall|j: int| 0 <= j < existing@.len() ==> #[trigger] decls_view(existing@)[j] == decl_view(&existing@[j]),
            forall|j: int| 0 <= j < i ==> decls_view(existing@)[j].name != name@,
        decreases existing@.len() - i,
    {
        if str_eq(existing[i].name.as_str(), name.as_str()) {
            assert(decls_view(existing@)[i as int].name == name@);
            return true;
        }
        i = i + 1;
    }
    false
}

/// Whether a function in `existing` has the name `name`.
fn declares_function_name(existing: &Vec<FunctionDeclaration>, name: &String) -> (found: bool)
    ensures
        found == declares_function(functions_view(existing@), name@),
{
    let mut i: usize = 0;
    while i < existing.len()
        invariant
            i <= existing@.len(),
            functions_view(existing@).len() == existing@.len(),
            forall|j: int| 0 <= j < existing@.len() ==> #[trigger] functions_view(existing@)[j] == function_view(&existing@[j]),
            forall|j: int| 0 <= j < i ==> functions_view(existing@)[j].name != name@,
        decreases existing@.len() - i,
    {
        if str_eq(existing[i].name.as_str(), name.as_str()) {
            assert(functions_view(existing@)[i as int].name == name@);
            return true;
        }
        i = i + 1;
    }
    false
}

/// Whether `name` is one of `names`.
fn contains_name(names: &Vec<String>, name: &String) -> (found: bool)
    ensures
        found == strings_view(names@).contains(name@),
{
    let mut i: usize = 0;
    while i < names.len()
        invariant
            i <= names@.len(),
            strings_view(names@).len() == names@.len(),
            forall|j: int| 0 <= j < names@.len() ==> #[trigger] strings_view(names@)[j] == names@[j]@,
            forall|j: int| 0 <= j < i ==> strings_view(names@)[j] != name@,
        decreases names@.len() - i,
    {
        if str_eq(names[i].as_str(), name.as_str()) {
            assert(strings_view(names@)[i as int] == name@);
            return true;
        }
        i = i + 1;
    }
    false
}

/// Whether `name` is the name of a built-in function.
pub fn is_builtin(name: &str) -> (builtin: bool)
    ensures
        builtin == is_builtin_name(name@),
{
    str_eq(name, "len") || str_eq(name, "int_to_string") || str_eq(name, "string_to_int")
        || str_eq(name, "bool_to_int") || str_eq(name, "int_to_bool") || str_eq(name, "bool_to_string")
        || str_eq(name, "string_to_bool")
}

/// A parser over a token list.
pub struct Parser<'a> {
    tokens: &'a [Token],
    position: usize,
    depth: usize,
}

impl<'a> Parser<'a> {
    /// The views of the tokens being parsed.
    pub closed spec fn ts(&self) -> Seq<TokenView> {
        tokens_view(self.tokens@)
    }

    /// The index of the next token.
    pub closed spec fn pos(&self) -> nat {
        self.position as nat
    }

    /// The current nesting depth.
    pub closed spec fn depth(&self) -> nat {
        self.depth as nat
    }

    /// The number of tokens not yet consumed.
    pub closed spec fn remaining(&self) -> nat {
        (self.tokens@.len() - self.position) as nat
    }

    /// The parser's position lies within its tokens and its depth within
    /// the nesting limit.
    pub closed spec fn wf(&self) -> bool {
        self.position <= self.tokens@.len() && self.depth <= MAX_DEPTH
    }

    /// A parser at the start of `tokens`.
    pub fn new(tokens: &'a [Token]) -> (parser: Self)
        ensures
            parser.wf(),
            parser.ts() == tokens_view(tokens@),
            parser.pos() == 0,
            parser.depth() == 0,
    {
        Parser { tokens, position: 0, depth: 0 }
    }

    proof fn lemma_token(&self)
        requires
            self.position < self.tokens@.len(),
        ensures
            self.ts().len() == self.tokens@.len(),
            self.ts()[self.pos() as int] == self.tokens@[self.position as int]@,
    {
    }

    fn peek(&self) -> (token: Option<&'a Token>)
        requires
            self.wf(),
        ensures
            match peek(self.ts(), self.pos()) {
                Some(t) => token is Some && token->0@ == t,
                None => token is None,
            },
            self.ts().len() == self.tokens@.len(),
    {
        if self.position < self.tokens.len() {
            proof {
                self.lemma_token();
            }
            Some(&self.tokens[self.position])
        } else {
            None
        }
    }

    fn advance(&mut self) -> (token: Option<&'a Token>)
        requires
            old(self).wf(),
        ensures
            final(self).wf(),
            final(self).ts() == old(self).ts(),
            final(self).depth() == old(self).depth(),
            match peek(old(self).ts(), old(self).pos()) {
                Some(t) => token is Some && token->0@ == t && final(self).pos() == old(self).pos() + 1,
                None => token is None && final(self).pos() == old(self).pos(),
            },
    {
        if self.position < self.tokens.len() {
            proof {
                self.lemma_token();
            }
            let token = &self.tokens[self.position];
            self.position = self.position + 1;
            Some(token)
        } else {
            None
        }
    }

    fn at(&self, p: Punct) -> (b: bool)
        requires
            self.wf(),
        ensures
            b == at_kind(self.ts(), self.pos(), punct_kind(p)),
    {
        match self.peek() {
            Some(token) => kind_is(&token.kind, p),
            None => false,
        }
    }

    fn error_here(&self, message: &Vec<char>) -> (error: Error)
        requires
            self.wf(),
        ensures
            error@ == error_here(self.ts(), self.pos(), message@),
    {
        match self.peek() {
            Some(token) => Error::positioned(message, Some(token.position)),
            None => Error::positioned(message, None),
        }
    }

    fn error_here_str(&self, message: &str) -> (error: Error)
        requires
            self.wf(),
        ensures
            error@ == error_here(self.ts(), self.pos(), message@),
    {
        let mut text: Vec<char> = Vec::new();
        push_str(&mut text, message);
        assert(text@ == message@);
        self.error_here(&text)
    }

    fn comparison_operator(&self) -> (operator: Option<BinaryOperator>)
        requires
            self.wf(),
        ensures
            operator == comparison_of(self.ts(), self.pos()),
    {
        match self.peek() {
            Some(token) => match &token.kind {
                TokenKindOf::LessThan => Some(BinaryOperator::LessThan),
                TokenKindOf::LessThanOrEqual => Some(BinaryOperator::LessThanOrEqual),
                TokenKindOf::GreaterThan => Some(BinaryOperator::GreaterThan),
                TokenKindOf::GreaterThanOrEqual => Some(BinaryOperator::GreaterThanOrEqual),
                TokenKindOf::EqualEqual => Some(BinaryOperator::Equal),
                TokenKindOf::NotEqual => Some(BinaryOperator::NotEqual),
                _ => None,
            },
            None => None,
        }
    }


    fn parse_expression(&mut self) -> (result: Result<Expression, Error>)
        requires
            old(self).wf(),
        ensures
            final(self).wf(),
            final(self).ts() == old(self).ts(),
            final(self).pos() >= old(self).pos(),
            result is Ok ==> final(self).depth() == old(self).depth(),
            expr_outcome(result, p_expression(old(self).ts(), old(self).pos(), old(self).depth()), final(self).pos()),
        decreases old(self).remaining(), 20nat,
    {
        if self.depth + 1 > MAX_DEPTH {
            return Err(Error::new_str("program too deeply nested"));
        }
        self.depth = self.depth + 1;
        let expression = self.parse_or()?;
        self.depth = self.depth - 1;
        Ok(expression)
    }

    fn parse_or(&mut self) -> (result: Result<Expression, Error>)
        requires
            old(self).wf(),
        ensures
            final(self).wf(),
            final(self).ts() == old(self).ts(),
            final(self).pos() >= old(self).pos(),
            result is Ok ==> final(self).depth() == old(self).depth(),
            expr_outcome(result, p_or(old(self).ts(), old(self).pos(), old(self).depth()), final(self).pos()),
        decreases old(self).remaining(), 19nat,
    {
        let mut expression = self.parse_and()?;
        loop
            invariant
                self.wf(),
                self.ts() == old(self).ts(),
                self.pos() >= old(self).pos(),
                self.depth() == old(self).depth(),
                p_or(old(self).ts(), old(self).pos(), old(self).depth()) == p_or_rest(self.ts(), expression@, self.pos(), self.depth()),
            decreases self.remaining(),
        {
            if !self.at(Punct::OrOr) {
                return Ok(expression);
            }
            let position = Some(self.peek().unwrap().position);
            self.advance();
            let right = self.parse_and()?;
            expression = Expression::LogicalOr { left: Box::new(expression), right: Box::new(right), position };
        }
    }

    fn parse_and(&mut self) -> (result: Result<Expression, Error>)
        requires
            old(self).wf(),
        ensures
            final(self).wf(),
            final(self).ts() == old(self).ts(),
            final(self).pos() >= old(self).pos(),
            result is Ok ==> final(self).depth() == old(self).depth(),
            expr_outcome(result, p_and(old(self).ts(), old(self).pos(), old(self).depth()), final(self).pos()),
        decreases old(self).remaining(), 17nat,
    {
        let mut expression = self.parse_comparison()?;
        loop
            invariant
                self.wf(),
                self.ts() == old(self).ts(),
                self.pos() >= old(self).pos(),
                self.depth() == old(self).depth(),
                p_and(old(self).ts(), old(self).pos(), old(self).depth()) == p_and_rest(self.ts(), expression@, self.pos(), self.depth()),
            decreases self.remaining(),
        {
            if !self.at(Punct::AndAnd) {
                return Ok(expression);
            }
            let position = Some(self.peek().unwrap().position);
            self.advance();
            let right = self.parse_comparison()?;
            expression = Expression::LogicalAnd { left: Box::new(expression), right: Box::new(right), position };
        }
    }

    fn parse_comparison(&mut self) -> (result: Result<Expression, Error>)
        requires
            old(self).wf(),
        ensures
            final(self).wf(),
            final(self).ts() == old(self).ts(),
            final(self).pos() >= old(self).pos(),
            result is Ok ==> final(self).depth() == old(self).depth(),
            expr_outcome(result, p_comparison(old(self).ts(), old(self).pos(), old(self).depth()), final(self).pos()),
        decreases old(self).remaining(), 15nat,
    {
        let left = self.parse_additive()?;
        match self.comparison_operator() {
            None => Ok(left),
            Some(operator) => {
                self.advance();
                let right = self.parse_additive()?;
                if self.comparison_operator().is_some() {
                    return Err(self.error_here_str("comparison operators cannot be chained"));
                }
                let position = left.position();
                Ok(Expression::Binary { operator, left: Box::new(left), right: Box::new(right), position })
            },
        }
    }

    fn parse_additive(&mut self) -> (result: Result<Expression, Error>)
        requires
            old(self).wf(),
        ensures
            final(self).wf(),
            final(self).ts() == old(self).ts(),
            final(self).pos() >= old(self).pos(),
            result is Ok ==> final(self).depth() == old(self).depth(),
            expr_outcome(result, p_additive(old(self).ts(), old(self).pos(), old(self).depth()), final(self).pos()),
        decreases old(self).remaining(), 14nat,
    {
        let mut expression = self.parse_multiplicative()?;
        loop
            invariant
                self.wf(),
                self.ts() == old(self).ts(),
                self.pos() >= old(self).pos(),
                self.depth() == old(self).depth(),
                p_additive(old(self).ts(), old(self).pos(), old(self).depth()) == p_additive_rest(self.ts(), expression@, self.pos(), self.depth()),
            decreases self.remaining(),
        {
            let operator = match self.additive_operator() {
                Some(operator) => operator,
                None => return Ok(expression),
            };
            let position = Some(self.peek().unwrap().position);
            self.advance();
            let right = self.parse_multiplicative()?;
            expression = Expression::Binary { operator, left: Box::new(expression), right: Box::new(right), position };
        }
    }

    fn parse_multiplicative(&mut self) -> (result: Result<Expression, Error>)
        requires
            old(self).wf(),
        ensures
            final(self).wf(),
            final(self).ts() == old(self).ts(),
            final(self).pos() >= old(self).pos(),
            result is Ok ==> final(self).depth() == old(self).depth(),
            expr_outcome(result, p_multiplicative(old(self).ts(), old(self).pos(), old(self).depth()), final(self).pos()),
        decreases old(self).remaining(), 12nat,
    {
        let mut expression = self.parse_unary()?;
        loop
            invariant
                self.wf(),
                self.ts() == old(self).ts(),
                self.pos() >= old(self).pos(),
                self.depth() == old(self).depth(),
                p_multiplicative(old(self).ts(), old(self).pos(), old(self).depth()) == p_multiplicative_rest(self.ts(), expression@, self.pos(), self.depth()),
            decreases self.remaining(),
        {
            let operator = if self.at(Punct::Star) {
                BinaryOperator::Multiply
            } else if self.at(Punct::Slash) {
                BinaryOperator::Divide
            } else if self.at(Punct::Percent) {
                BinaryOperator::Remainder
            } else {
                return Ok(expression);
            };
            let position = Some(self.peek().unwrap().position);
            self.advance();
            let right = self.parse_unary()?;
            expression = Expression::Binary { operator, left: Box::new(expression), right: Box::new(right), position };
        }
    }

    fn parse_unary(&mut self) -> (result: Result<Expression, Error>)
        requires
            old(self).wf(),
        ensures
            final(self).wf(),
            final(self).ts() == old(self).ts(),
            final(self).pos() >= old(self).pos(),
            result is Ok ==> final(self).depth() == old(self).depth(),
            expr_outcome(result, p_unary(old(self).ts(), old(self).pos(), old(self).depth()), final(self).pos()),
        decreases old(self).remaining(), 10nat,
    {
        let negation = self.at(Punct::Minus);
        if negation || self.at(Punct::Bang) {
            let position = Some(self.peek().unwrap().position);
            self.advance();
            let operand = self.parse_unary_nested()?;
            if negation {
                Ok(Expression::UnaryNegation { operand: Box::new(operand), position })
            } else {
                Ok(Expression::UnaryNot { operand: Box::new(operand), position })
            }
        } else {
            self.parse_primary()
        }
    }

    fn parse_unary_nested(&mut self) -> (result: Result<Expression, Error>)
        requires
            old(self).wf(),
        ensures
            final(self).wf(),
            final(self).ts() == old(self).ts(),
            final(self).pos() >= old(self).pos(),
            result is Ok ==> final(self).depth() == old(self).depth(),
            expr_outcome(result, p_unary_nested(old(self).ts(), old(self).pos(), old(self).depth()), final(self).pos()),
        decreases old(self).remaining(), 11nat,
    {
        if self.depth + 1 > MAX_DEPTH {
            return Err(Error::new_str("program too deeply nested"));
        }
        self.depth = self.depth + 1;
        let expression = self.parse_unary()?;
        self.depth = self.depth - 1;
        Ok(expression)
    }

    #[verifier::rlimit(40)]
    fn parse_primary(&mut self) -> (result: Result<Expression, Error>)
        requires
            old(self).wf(),
        ensures
            final(self).wf(),
            final(self).ts() == old(self).ts(),
            final(self).pos() >= old(self).pos(),
            result is Ok ==> final(self).depth() == old(self).depth(),
            expr_outcome(result, p_primary(old(self).ts(), old(self).pos(), old(self).depth()), final(self).pos()),
        decreases old(self).remaining(), 9nat,
    {
        let token = match self.advance() {
            Some(token) => token,
            None => return Err(self.error_here_str("expected an expression")),
        };
        let here = Some(token.position);
        match &token.kind {
            TokenKindOf::If => self.parse_if_expression(token.position),
            TokenKindOf::Integer(value) => Ok(Expression::Literal { value: *value, position: here }),
            TokenKindOf::String(value) => Ok(Expression::StringLiteral { value: value.clone(), position: here }),
            TokenKindOf::True => Ok(Expression::BoolLiteral { value: true, position: here }),
            TokenKindOf::False => Ok(Expression::BoolLiteral { value: false, position: here }),
            TokenKindOf::Identifier(name) => {
                let name = name.clone();
                if self.at(Punct::LeftParen) {
                    self.advance();
                    self.parse_call_arguments(name, here)
                } else {
                    Ok(Expression::Variable { name, position: here })
                }
            },
            TokenKindOf::LeftParen => self.parse_parenthesized(),
            TokenKindOf::RightParen => Err(Error::at_str("unexpected ')'", token.position)),
            TokenKindOf::RightBrace => Err(Error::at_str("unexpected '}'", token.position)),
            _ => Err(Error::at_str("expected an expression", token.position)),
        }
    }

    fn parse_parenthesized(&mut self) -> (result: Result<Expression, Error>)
        requires
            old(self).wf(),
        ensures
            final(self).wf(),
            final(self).ts() == old(self).ts(),
            final(self).pos() >= old(self).pos(),
            result is Ok ==> final(self).depth() == old(self).depth(),
            expr_outcome(result, p_parenthesized(old(self).ts(), old(self).pos(), old(self).depth()), final(self).pos()),
        decreases old(self).remaining(), 22nat,
    {
        let inner = self.parse_expression()?;
        match self.advance() {
            Some(close) => {
                if kind_is(&close.kind, Punct::RightParen) {
                    Ok(inner)
                } else {
                    Err(Error::at_str("unmatched '('", close.position))
                }
            },
            None => Err(self.error_here_str("unmatched '('")),
        }
    }

    /// Parses the arguments of a call after its `(` has been consumed.
    /// Trailing commas are not supported: a comma directly before the `)` is
    /// an error.
    fn parse_call_arguments(&mut self, callee: String, position: Option<SourcePosition>) -> (result: Result<Expression, Error>)
        requires
            old(self).wf(),
        ensures
            final(self).wf(),
            final(self).ts() == old(self).ts(),
            final(self).pos() >= old(self).pos(),
            result is Ok ==> final(self).depth() == old(self).depth(),
            expr_outcome(result, p_call_arguments(old(self).ts(), old(self).pos(), old(self).depth(), callee@, position, Seq::empty()), final(self).pos()),
        decreases old(self).remaining(), 21nat,
    {
        let mut arguments: Vec<Expression> = Vec::new();
        loop
            invariant
                self.wf(),
                self.ts() == old(self).ts(),
                self.pos() >= old(self).pos(),
                self.depth() == old(self).depth(),
                p_call_arguments(old(self).ts(), old(self).pos(), old(self).depth(), callee@, position, Seq::empty())
                    == p_call_arguments(self.ts(), self.pos(), self.depth(), callee@, position, exprs_view(arguments@)),
            decreases self.remaining(),
        {
            if self.peek().is_none() {
                return Err(Error::at_str("unmatched '(' in function call", match position {
                    Some(p) => p,
                    None => SourcePosition { line: 1, column: 1 },
                }));
            }
            if self.at(Punct::RightParen) {
                self.advance();
                return Ok(Expression::Call { callee, arguments, position });
            }
            if self.at(Punct::Comma) {
                return Err(Error::at_str("unexpected ',' in function call", self.peek().unwrap().position));
            }
            let argument = self.parse_expression()?;
            proof {
                lemma_exprs_view_push(arguments@, argument);
            }
            arguments.push(argument);
            if self.at(Punct::RightParen) {
                self.advance();
                return Ok(Expression::Call { callee, arguments, position });
            }
            if self.at(Punct::Comma) {
                self.advance();
                if self.at(Punct::RightParen) {
                    return Err(self.error_here_str("expected an expression"));
                }
            } else {
                return Err(self.error_here_str("expected ',' or ')' in function call arguments"));
            }
        }
    }

    #[verifier::rlimit(60)]
    fn parse_if_expression(&mut self, position: SourcePosition) -> (result: Result<Expression, Error>)
        requires
            old(self).wf(),
        ensures
            final(self).wf(),
            final(self).ts() == old(self).ts(),
            final(self).pos() >= old(self).pos(),
            result is Ok ==> final(self).depth() == old(self).depth(),
            expr_outcome(result, p_if_expression(old(self).ts(), old(self).pos(), old(self).depth(), position), final(self).pos()),
        decreases old(self).remaining(), 30nat,
    {
        let condition = self.parse_expression()?;
        let then_branch = self.parse_if_block("after if condition")?;
        match self.advance() {
            Some(token) => {
                if !kind_is(&token.kind, Punct::Else) {
                    return Err(Error::at_str("expected 'else' after the if branch", token.position));
                }
            },
            None => return Err(self.error_here_str("expected 'else' after the if branch")),
        }
        let else_branch = self.parse_if_block("after 'else'")?;
        Ok(Expression::If {
            condition: Box::new(condition),
            then_branch: Box::new(then_branch),
            else_branch: Box::new(else_branch),
            position: Some(position),
        })
    }

    /// Parses the block that follows an `if` condition or an `else`;
    /// `context` completes the error message when the block is missing.
    fn parse_if_block(&mut self, context: &str) -> (result: Result<Block, Error>)
        requires
            old(self).wf(),
        ensures
            final(self).wf(),
            final(self).ts() == old(self).ts(),
            final(self).pos() >= old(self).pos(),
            result is Ok ==> final(self).depth() == old(self).depth(),
            block_outcome(result, p_if_block(old(self).ts(), old(self).pos(), old(self).depth(), context@), final(self).pos()),
        decreases old(self).remaining(), 29nat,
    {
        if !self.at(Punct::LeftBrace) {
            let mut message: Vec<char> = Vec::new();
            push_str(&mut message, "expected a block ");
            push_str(&mut message, context);
            return match self.peek() {
                Some(token) => Err(Error::positioned(&message, Some(token.position))),
                None => Err(Error::positioned(&message, None)),
            };
        }
        self.parse_block()
    }

    #[verifier::rlimit(60)]
    fn parse_block(&mut self) -> (result: Result<Block, Error>)
        requires
            old(self).wf(),
        ensures
            final(self).wf(),
            final(self).ts() == old(self).ts(),
            final(self).pos() >= old(self).pos(),
            result is Ok ==> final(self).depth() == old(self).depth(),
            block_outcome(result, p_block(old(self).ts(), old(self).pos(), old(self).depth()), final(self).pos()),
        decreases old(self).remaining(), 28nat,
    {
        if self.peek().is_none() {
            return Err(Error::positioned(&Vec::new(), None));
        }
        self.advance();
        let declarations = self.parse_declarations()?;
        let expression = self.parse_block_expression(&declarations)?;
        match self.advance() {
            Some(token) => {
                if kind_is(&token.kind, Punct::RightBrace) {
                    Ok(Block { declarations, expression })
                } else {
                    Err(Error::at_str("expected '}' to close the block", token.position))
                }
            },
            None => Err(self.error_here_str("expected '}' to close the block")),
        }
    }

    /// Parses the final expression of a block, which is terminated by `}`
    /// rather than the end of input.
    fn parse_block_expression(&mut self, declarations: &Vec<Declaration>) -> (result: Result<Expression, Error>)
        requires
            old(self).wf(),
        ensures
            final(self).wf(),
            final(self).ts() == old(self).ts(),
            final(self).pos() >= old(self).pos(),
            result is Ok ==> final(self).depth() == old(self).depth(),
            expr_outcome(result, p_block_expression(old(self).ts(), old(self).pos(), old(self).depth(), decls_view(declarations@)), final(self).pos()),
        decreases old(self).remaining(), 25nat,
    {
        if self.peek().is_none() || self.at(Punct::RightBrace) {
            proof {
                lemma_decls_view_index(declarations@);
            }
            if declarations.len() == 0 {
                return Err(self.error_here_str("expression is empty"));
            }
            return Err(self.error_here_str("expected a final expression after declarations"));
        }
        self.parse_expression()
    }

    /// Parses zero or more `let` declarations that belong to the current
    /// scope (the program top level or one block).
    #[verifier::rlimit(60)]
    fn parse_declarations(&mut self) -> (result: Result<Vec<Declaration>, Error>)
        requires
            old(self).wf(),
        ensures
            final(self).wf(),
            final(self).ts() == old(self).ts(),
            final(self).pos() >= old(self).pos(),
            result is Ok ==> final(self).depth() == old(self).depth(),
            decls_outcome(result, p_declarations(old(self).ts(), old(self).pos(), old(self).depth(), Seq::empty()), final(self).pos()),
        decreases old(self).remaining(), 27nat,
    {
        let mut declarations: Vec<Declaration> = Vec::new();
        loop
            invariant
                self.wf(),
                self.ts() == old(self).ts(),
                self.pos() >= old(self).pos(),
                self.depth() == old(self).depth(),
                p_declarations(old(self).ts(), old(self).pos(), old(self).depth(), Seq::empty())
                    == p_declarations(self.ts(), self.pos(), self.depth(), decls_view(declarations@)),
            decreases self.remaining(),
        {
            if !self.at(Punct::Let) {
                return Ok(declarations);
            }
            let ghost ts = self.ts();
            let ghost pos = self.pos();
            let ghost depth = self.depth();
            let ghost dv = decls_view(declarations@);
            let declaration = match self.parse_declaration(&declarations) {
                Ok(declaration) => declaration,
                Err(error) => {
                    assert(p_declarations(ts, pos, depth, dv) == Err::<(Seq<DeclView>, nat), ErrorView>(error@));
                    return Err(error);
                },
            };
            proof {
                lemma_decls_view_push(declarations@, declaration);
                assert(p_declarations(ts, pos, depth, dv) == p_declarations(ts, self.pos(), depth, dv.push(decl_view(&declaration))));
            }
            declarations.push(declaration);
        }
    }

    fn parse_declaration(&mut self, existing: &Vec<Declaration>) -> (result: Result<Declaration, Error>)
        requires
            old(self).wf(),
            at_kind(old(self).ts(), old(self).pos(), TokenKindOf::Let),
        ensures
            final(self).wf(),
            final(self).ts() == old(self).ts(),
            final(self).pos() >= old(self).pos(),
            result is Ok ==> final(self).depth() == old(self).depth(),
            result is Ok ==> final(self).pos() > old(self).pos(),
            match p_declaration(old(self).ts(), old(self).pos(), old(self).depth(), decls_view(existing@)) {
                Ok((v, p)) => result is Ok && decl_view(&result->Ok_0) == v && final(self).pos() == p,
                Err(e) => result is Err && result->Err_0@ == e,
            },
        decreases old(self).remaining(), 26nat,
    {
        let declared_at = Some(self.peek().unwrap().position);
        self.advance();
        let name = match self.advance() {
            Some(token) => match &token.kind {
                TokenKindOf::Identifier(name) => name.clone(),
                _ => return Err(Error::at_str("expected a variable name after 'let'", token.position)),
            },
            None => return Err(self.error_here_str("expected a variable name after 'let'")),
        };
        let mut missing_equals: Vec<char> = Vec::new();
        push_str(&mut missing_equals, "expected '=' after variable name '");
        push_str(&mut missing_equals, name.as_str());
        push_str(&mut missing_equals, "'");
        match self.advance() {
            Some(token) => {
                if !kind_is(&token.kind, Punct::Equals) {
                    return Err(Error::positioned(&missing_equals, Some(token.position)));
                }
            },
            None => return Err(Error::positioned(&missing_equals, declared_at)),
        }
        self.parse_initializer(existing, name, declared_at)
    }

    /// Parses the initializer of a declaration of `name` and its `;`.
    fn parse_initializer(&mut self, existing: &Vec<Declaration>, name: String, declared_at: Option<SourcePosition>) -> (result: Result<Declaration, Error>)
        requires
            old(self).wf(),
            declared_at is Some,
        ensures
            final(self).wf(),
            final(self).ts() == old(self).ts(),
            final(self).pos() >= old(self).pos(),
            result is Ok ==> final(self).depth() == old(self).depth(),
            result is Ok ==> final(self).pos() > old(self).pos(),
            match p_initializer(old(self).ts(), old(self).pos(), old(self).depth(), decls_view(existing@), name@, declared_at) {
                Ok((v, p)) => result is Ok && decl_view(&result->Ok_0) == v && final(self).pos() == p,
                Err(e) => result is Err && result->Err_0@ == e,
            },
        decreases old(self).remaining(), 24nat,
    {
        let initializer = self.parse_expression()?;
        let mut missing_semicolon: Vec<char> = Vec::new();
        push_str(&mut missing_semicolon, "expected ';' after declaration of '");
        push_str(&mut missing_semicolon, name.as_str());
        push_str(&mut missing_semicolon, "'");
        match self.advance() {
            Some(token) => {
                if !kind_is(&token.kind, Punct::Semicolon) {
                    return Err(Error::positioned(&missing_semicolon, Some(token.position)));
                }
            },
            None => return Err(Error::positioned(&missing_semicolon, declared_at)),
        }
        if declares_name(existing, &name) {
            let mut message: Vec<char> = Vec::new();
            push_str(&mut message, "duplicate variable declaration: '");
            push_str(&mut message, name.as_str());
            push_str(&mut message, "'");
            return Err(Error::positioned(&message, declared_at));
        }
        Ok(Declaration { name, initializer, position: declared_at })
    }

    /// Parses the `(param, ...)` parameter list of function `name`.
    /// Parameters are plain identifiers; duplicates are rejected.
    fn parse_parameters(&mut self, name: &String) -> (result: Result<Vec<String>, Error>)
        requires
            old(self).wf(),
        ensures
            final(self).wf(),
            final(self).ts() == old(self).ts(),
            final(self).pos() >= old(self).pos(),
            final(self).depth() == old(self).depth(),
            match p_parameter_list(old(self).ts(), old(self).pos(), name@) {
                Ok((v, p)) => result is Ok && strings_view(result->Ok_0@) == v && final(self).pos() == p,
                Err(e) => result is Err && result->Err_0@ == e,
            },
    {
        let mut missing_open: Vec<char> = Vec::new();
        push_str(&mut missing_open, "expected '(' after function name '");
        push_str(&mut missing_open, name.as_str());
        push_str(&mut missing_open, "'");
        match self.advance() {
            Some(token) => {
                if !kind_is(&token.kind, Punct::LeftParen) {
                    return Err(Error::positioned(&missing_open, Some(token.position)));
                }
            },
            None => return Err(Error::positioned(&missing_open, Some(SourcePosition { line: 1, column: 1 }))),
        }
        let mut parameters: Vec<String> = Vec::new();
        assert(strings_view(parameters@) =~= Seq::empty());
        loop
            invariant
                self.wf(),
                self.ts() == old(self).ts(),
                self.pos() >= old(self).pos(),
                self.depth() == old(self).depth(),
                p_parameter_list(old(self).ts(), old(self).pos(), name@)
                    == p_parameters(self.ts(), self.pos(), name@, strings_view(parameters@)),
            decreases self.remaining(),
        {
            let token = match self.advance() {
                Some(token) => token,
                None => return Err(self.error_here_str("unmatched '(' in function parameter list")),
            };
            match &token.kind {
                TokenKindOf::RightParen => return Ok(parameters),
                TokenKindOf::Identifier(param) => {
                    let param = param.clone();
                    if contains_name(&parameters, &param) {
                        let mut message: Vec<char> = Vec::new();
                        push_str(&mut message, "duplicate parameter name in function '");
                        push_str(&mut message, name.as_str());
                        push_str(&mut message, "': '");
                        push_str(&mut message, param.as_str());
                        push_str(&mut message, "'");
                        return Err(Error::positioned(&message, Some(token.position)));
                    }
                    let ghost before = parameters@;
                    parameters.push(param);
                    assert(strings_view(parameters@) =~= strings_view(before).push(param@));
                    if self.at(Punct::RightParen) {
                        self.advance();
                        return Ok(parameters);
                    }
                    if self.at(Punct::Comma) {
                        self.advance();
                    } else {
                        let mut message: Vec<char> = Vec::new();
                        push_str(&mut message, "expected ',' or ')' in function '");
                        push_str(&mut message, name.as_str());
                        push_str(&mut message, "' parameter list");
                        return Err(self.error_here(&message));
                    }
                },
                _ => {
                    let mut message: Vec<char> = Vec::new();
                    push_str(&mut message, "expected a parameter name after '(' in function '");
                    push_str(&mut message, name.as_str());
                    push_str(&mut message, "'");
                    return Err(Error::positioned(&message, Some(token.position)));
                },
            }
        }
    }

    /// Parses the block body of a function after its `=`.
    fn parse_function_body(&mut self) -> (result: Result<Block, Error>)
        requires
            old(self).wf(),
        ensures
            final(self).wf(),
            final(self).ts() == old(self).ts(),
            final(self).pos() >= old(self).pos(),
            result is Ok ==> final(self).depth() == old(self).depth(),
            block_outcome(result, p_function_body(old(self).ts(), old(self).pos(), old(self).depth()), final(self).pos()),
    {
        match self.advance() {
            Some(token) => {
                if !kind_is(&token.kind, Punct::Equals) {
                    return Err(Error::at_str("expected '=' before the function body", token.position));
                }
            },
            None => return Err(Error::at_str("expected '=' before the function body", SourcePosition { line: 1, column: 1 })),
        }
        if !self.at(Punct::LeftBrace) {
            return match self.peek() {
                Some(token) => Err(Error::at_str("expected a block for the function body", token.position)),
                None => Err(Error::new_str("expected a block for the function body")),
            };
        }
        self.parse_block()
    }

    /// Parses one `fn name(param, ...) = { ... };` declaration, at its `fn`.
    fn parse_function(&mut self, existing: &Vec<FunctionDeclaration>) -> (result: Result<FunctionDeclaration, Error>)
        requires
            old(self).wf(),
            at_kind(old(self).ts(), old(self).pos(), TokenKindOf::Fn),
        ensures
            final(self).wf(),
            final(self).ts() == old(self).ts(),
            final(self).pos() >= old(self).pos(),
            result is Ok ==> final(self).depth() == old(self).depth(),
            result is Ok ==> final(self).pos() > old(self).pos(),
            match p_function(old(self).ts(), old(self).pos(), old(self).depth(), functions_view(existing@)) {
                Ok((v, p)) => result is Ok && function_view(&result->Ok_0) == v && final(self).pos() == p,
                Err(e) => result is Err && result->Err_0@ == e,
            },
    {
        let declared_at = Some(self.peek().unwrap().position);
        self.advance();
        let name = match self.advance() {
            Some(token) => match &token.kind {
                TokenKindOf::Identifier(name) => name.clone(),
                _ => return Err(Error::at_str("expected a function name after 'fn'", token.position)),
            },
            None => return Err(self.error_here_str("expected a function name after 'fn'")),
        };
        if declares_function_name(existing, &name) || is_builtin(name.as_str()) {
            let mut message: Vec<char> = Vec::new();
            push_str(&mut message, "duplicate function declaration: '");
            push_str(&mut message, name.as_str());
            push_str(&mut message, "'");
            return Err(Error::positioned(&message, declared_at));
        }
        let parameters = self.parse_parameters(&name)?;
        let body = self.parse_function_body()?;
        let mut missing: Vec<char> = Vec::new();
        push_str(&mut missing, "expected ';' after declaration of function '");
        push_str(&mut missing, name.as_str());
        push_str(&mut missing, "'");
        match self.advance() {
            Some(token) => {
                if !kind_is(&token.kind, Punct::Semicolon) {
                    return Err(Error::positioned(&missing, Some(token.position)));
                }
            },
            None => return Err(Error::positioned(&missing, declared_at)),
        }
        Ok(FunctionDeclaration { name, parameters, body, position: declared_at })
    }

    /// Parses the `fn` declarations that precede the `let` declarations and
    /// the final expression.
    fn parse_functions(&mut self) -> (result: Result<Vec<FunctionDeclaration>, Error>)
        requires
            old(self).wf(),
        ensures
            final(self).wf(),
            final(self).ts() == old(self).ts(),
            final(self).pos() >= old(self).pos(),
            result is Ok ==> final(self).depth() == old(self).depth(),
            match p_functions(old(self).ts(), old(self).pos(), old(self).depth(), Seq::empty()) {
                Ok((v, p)) => result is Ok && functions_view(result->Ok_0@) == v && final(self).pos() == p,
                Err(e) => result is Err && result->Err_0@ == e,
            },
    {
        let mut functions: Vec<FunctionDeclaration> = Vec::new();
        assert(functions_view(functions@) =~= Seq::empty());
        loop
            invariant
                self.wf(),
                self.ts() == old(self).ts(),
                self.pos() >= old(self).pos(),
                self.depth() == old(self).depth(),
                p_functions(old(self).ts(), old(self).pos(), old(self).depth(), Seq::empty())
                    == p_functions(self.ts(), self.pos(), self.depth(), functions_view(functions@)),
            decreases self.remaining(),
        {
            if !self.at(Punct::Fn) {
                return Ok(functions);
            }
            let ghost ts = self.ts();
            let ghost pos = self.pos();
            let ghost depth = self.depth();
            let ghost fv = functions_view(functions@);
            let function = match self.parse_function(&functions) {
                Ok(function) => function,
                Err(error) => {
                    assert(p_functions(ts, pos, depth, fv) == Err::<(Seq<FunctionView>, nat), ErrorView>(error@));
                    return Err(error);
                },
            };
            let ghost before = functions@;
            functions.push(function);
            proof {
                assert(functions_view(functions@) =~= fv.push(function_view(&function)));
                assert(p_functions(ts, pos, depth, fv) == p_functions(ts, self.pos(), depth, functions_view(functions@)));
            }
        }
    }

    /// Parses a whole program: functions, declarations, then the final
    /// expression, which must be followed by nothing.
    pub fn parse(self) -> (result: Result<Program, Error>)
        requires
            self.wf(),
            self.pos() == 0,
            self.depth() == 0,
        ensures
            match parse_program(self.ts()) {
                Ok(v) => result is Ok && program_view(&result->Ok_0) == v,
                Err(e) => result is Err && result->Err_0@ == e,
            },
    {
        let mut parser = self;
        parser.parse_program()
    }

    fn parse_program(&mut self) -> (result: Result<Program, Error>)
        requires
            old(self).wf(),
            old(self).pos() == 0,
            old(self).depth() == 0,
        ensures
            match parse_program(old(self).ts()) {
                Ok(v) => result is Ok && program_view(&result->Ok_0) == v,
                Err(e) => result is Err && result->Err_0@ == e,
            },
    {
        let functions = self.parse_functions()?;
        let declarations = self.parse_declarations()?;
        if self.peek().is_none() {
            proof {
                lemma_decls_view_index(declarations@);
            }
            if declarations.len() == 0 {
                return Err(Error::new_str("expression is empty"));
            }
            return Err(Error::new_str("expected a final expression after declarations"));
        }
        let expression = self.parse_expression()?;
        match self.peek() {
            Some(token) => {
                if kind_is(&token.kind, Punct::RightParen) {
                    return Err(Error::at_str("unmatched ')'", token.position));
                }
                if kind_is(&token.kind, Punct::RightBrace) {
                    return Err(Error::at_str("unexpected '}'", token.position));
                }
                let mut message: Vec<char> = Vec::new();
                push_str(&mut message, "unexpected trailing token: ");
                push_str(&mut message, token.kind_name());
                Err(Error::positioned(&message, Some(token.position)))
            },
            None => Ok(Program { functions, declarations, expression }),
        }
    }

    fn additive_operator(&self) -> (operator: Option<BinaryOperator>)
        requires
            self.wf(),
        ensures
            operator == additive_of(self.ts(), self.pos()),
    {
        if self.at(Punct::Plus) {
            Some(BinaryOperator::Add)
        } else if self.at(Punct::Minus) {
            Some(BinaryOperator::Subtract)
        } else {
            None
        }
    }
}

} // verus!
