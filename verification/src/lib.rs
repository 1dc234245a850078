//! Rusty Buggy Language: a small expression language with integers,
//! booleans, strings, `let` declarations, `if`/`else` blocks, and functions
//! with inferred types.
//!
//! [`evaluate`] lexes, parses, type-checks and evaluates a complete program
//! under checked signed 64-bit arithmetic, and returns its typed [`Value`]
//! or an [`Error`] with an optional [`SourcePosition`].

use vstd::prelude::*;

pub mod ast;
pub mod builtins;
pub mod cli;
pub mod error;
pub mod laws;
pub mod lexer;
pub mod parser;
pub mod parser_spec;
pub mod semantics;
pub mod text;
pub mod typecheck;
pub mod typecheck_spec;
pub mod evaluator;
pub mod expression;
pub mod inference_laws;
pub mod parse_laws;
pub mod lex_laws;
pub mod type_safety;
pub mod calculator_laws;
pub mod cli_laws;

pub use error::{Error, SourcePosition};

use crate::error::{error_of, ErrorView};
use crate::lexer::{lex, Lexer};
use crate::parser::Parser;
use crate::parser_spec::parse_program;
use crate::semantics::{eval_program, value_text, Evaluated};
use crate::text::{push_int_text, string_from_chars};
use crate::typecheck_spec::resolve_program;

verus! {

/// A typed value produced by evaluating a program.
#[derive(Debug, Clone, PartialEq, Eq)]
pub enum Value {
    /// A signed 64-bit integer.
    Int(i64),
    /// A boolean.
    Bool(bool),
    /// A string.
    String(String),
}

/// The mathematical content of a [`Value`].
pub enum ValueView {
    Int(i64),
    Bool(bool),
    Str(Seq<char>),
}

impl View for Value {
    type V = ValueView;

    open spec fn view(&self) -> ValueView {
        match self {
            Value::Int(n) => ValueView::Int(*n),
            Value::Bool(b) => ValueView::Bool(*b),
            Value::String(s) => ValueView::Str(s@),
        }
    }
}

/// The default maximum input size, in bytes, enforced by [`evaluate`].
pub const DEFAULT_MAX_INPUT_BYTES: usize = 1048576;

/// Resource limits applied when evaluating a program.
#[derive(Debug, Clone, Copy, PartialEq, Eq, Structural)]
pub struct Limits {
    /// Maximum accepted program size in bytes; longer programs are rejected
    /// before they are read.
    pub max_input_bytes: usize,
}

impl Default for Limits {
    fn default() -> (limits: Self)
        ensures
            limits.max_input_bytes == DEFAULT_MAX_INPUT_BYTES,
    {
        Limits { max_input_bytes: DEFAULT_MAX_INPUT_BYTES }
    }
}

/// What a program's text evaluates to: its tokens, parsed, type-checked, and
/// evaluated, or the first error of any stage.
pub open spec fn run(text: Seq<char>) -> Evaluated {
    match lex(text) {
        Err(e) => Err(e),
        Ok(tokens) => match parse_program(tokens) {
            Err(e) => Err(e),
            Ok(program) => match resolve_program(program) {
                Err(e) => Err(e),
                Ok(functions) => eval_program(program, functions),
            },
        },
    }
}

/// What a program of `size` bytes evaluates to under a limit of
/// `max_input_bytes`: a program over the limit is refused unread.
pub open spec fn run_within(text: Seq<char>, size: nat, max_input_bytes: nat) -> Evaluated {
    if size > max_input_bytes {
        Err(error_of("program is too large to evaluate"@, None))
    } else {
        run(text)
    }
}

/// The view of an evaluation result.
pub open spec fn result_view(result: Result<Value, Error>) -> Result<ValueView, ErrorView> {
    match result {
        Ok(v) => Ok(v@),
        Err(e) => Err(e@),
    }
}

/// Evaluates a program with the default [`Limits`].
pub fn evaluate(program: &str) -> (result: Result<Value, Error>)
    ensures
        result_view(result) == run_within(program@, program.len() as nat, DEFAULT_MAX_INPUT_BYTES as nat),
{
    evaluate_with_limits(program, &Limits::default())
}

/// Evaluates a program under the given resource [`Limits`].
pub fn evaluate_with_limits(program: &str, limits: &Limits) -> (result: Result<Value, Error>)
    ensures
        result_view(result) == run_within(program@, program.len() as nat, limits.max_input_bytes as nat),
{
    if program.len() > limits.max_input_bytes {
        return Err(Error::new_str("program is too large to evaluate"));
    }
    let tokens = Lexer::new(program).tokenize()?;
    let parsed = Parser::new(tokens.as_slice()).parse()?;
    let functions = typecheck::resolve(&parsed)?;
    evaluator::evaluate(&parsed, &functions)
}

impl Value {
    /// The value as displayed: integers in decimal, booleans as `true` or
    /// `false`, strings as their characters without quotes.
    pub fn to_string(&self) -> (text: String)
        ensures
            text@ == value_text(self@),
    {
        match self {
            Value::Int(n) => {
                let mut chars: Vec<char> = Vec::new();
                push_int_text(&mut chars, *n);
                string_from_chars(chars.as_slice())
            },
            Value::Bool(b) => if *b { "true".to_owned() } else { "false".to_owned() },
            Value::String(s) => s.clone(),
        }
    }

    /// A copy of the value.
    pub fn duplicate(&self) -> (copy: Value)
        ensures
            copy@ == self@,
    {
        match self {
            Value::Int(n) => Value::Int(*n),
            Value::Bool(b) => Value::Bool(*b),
            Value::String(s) => Value::String(s.clone()),
        }
    }
}

} // verus!
