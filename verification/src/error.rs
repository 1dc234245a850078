//! Errors reported by every stage of the pipeline, with an optional
//! 1-based source position.

use vstd::prelude::*;

use crate::text::string_from_chars;

verus! {

/// A 1-based line and column in the source program.
#[derive(Debug, Clone, Copy, PartialEq, Eq, Structural)]
pub struct SourcePosition {
    /// 1-based line number in the source program.
    pub line: usize,
    /// 1-based column number (in characters) on the line.
    pub column: usize,
}

/// The mathematical content of an [`Error`]: its message text and position.
pub struct ErrorView {
    pub message: Seq<char>,
    pub position: Option<SourcePosition>,
}

/// Builds the view of an error from its message and position.
pub open spec fn error_of(message: Seq<char>, position: Option<SourcePosition>) -> ErrorView {
    ErrorView { message, position }
}

/// An evaluation or syntax error, carrying a stable user-facing message and
/// an optional source position.
#[derive(Debug, PartialEq, Eq)]
pub struct Error {
    message: String,
    position: Option<SourcePosition>,
}

impl View for Error {
    type V = ErrorView;

    closed spec fn view(&self) -> ErrorView {
        ErrorView { message: self.message@, position: self.position }
    }
}

impl Error {
    /// An error without a source position.
    pub fn new(message: String) -> (error: Self)
        ensures
            error@ == error_of(message@, None),
    {
        Error { message, position: None }
    }

    /// An error located at `position`.
    pub fn at(message: String, position: SourcePosition) -> (error: Self)
        ensures
            error@ == error_of(message@, Some(position)),
    {
        Error { message, position: Some(position) }
    }

    /// An error located at `position` whose message is a text slice.
    pub fn at_str(message: &str, position: SourcePosition) -> (error: Self)
        ensures
            error@ == error_of(message@, Some(position)),
    {
        Error { message: message.to_owned(), position: Some(position) }
    }

    /// An error without a source position whose message is a text slice.
    pub fn new_str(message: &str) -> (error: Self)
        ensures
            error@ == error_of(message@, None),
    {
        Error { message: message.to_owned(), position: None }
    }

    /// An error whose message is a text slice and whose position is optional.
    pub fn located(message: &str, position: Option<SourcePosition>) -> (error: Self)
        ensures
            error@ == error_of(message@, position),
    {
        Error { message: message.to_owned(), position }
    }

    /// An error whose message is given as characters and whose position is
    /// optional.
    pub fn positioned(message: &Vec<char>, position: Option<SourcePosition>) -> (error: Self)
        ensures
            error@ == error_of(message@, position),
    {
        Error { message: string_from_chars(message), position }
    }

    /// The message text.
    pub fn message(&self) -> (text: &str)
        ensures
            text@ == self@.message,
    {
        self.message.as_str()
    }

    /// The 1-based source position associated with this error, if any.
    pub fn position(&self) -> (position: Option<SourcePosition>)
        ensures
            position == self@.position,
    {
        self.position
    }

    /// The message text as an owned string (what the error displays as).
    pub fn to_string(&self) -> (text: String)
        ensures
            text@ == self@.message,
    {
        self.message.clone()
    }
}

} // verus!
