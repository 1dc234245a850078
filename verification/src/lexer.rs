//! The lexer: turns source characters into position-tagged tokens, skipping
//! whitespace and `//` / `/* */` comments and decoding string escapes.

use vstd::prelude::*;

use crate::error::{error_of, Error, ErrorView, SourcePosition};
use crate::text::{digit_value, is_digit, push_str, str_chars, string_from_chars};

verus! {

/// The kinds of token, generic over the representation of text so that the
/// same enum describes both executable tokens (`String`) and their views
/// (`Seq<char>`).
#[derive(Debug, Clone, PartialEq)]
pub enum TokenKindOf<S> {
    Integer(u64),
    String(S),
    Identifier(S),
    Let,
    Fn,
    True,
    False,
    If,
    Else,
    Comma,
    Equals,
    LessThan,
    LessThanOrEqual,
    GreaterThan,
    GreaterThanOrEqual,
    EqualEqual,
    NotEqual,
    Bang,
    AndAnd,
    OrOr,
    Semicolon,
    Plus,
    Minus,
    Star,
    Slash,
    Percent,
    LeftParen,
    RightParen,
    LeftBrace,
    RightBrace,
}

/// An executable token kind.
pub type TokenKind = TokenKindOf<String>;

/// The mathematical view of a token kind.
pub type KindView = TokenKindOf<Seq<char>>;

impl View for TokenKindOf<String> {
    type V = KindView;

    open spec fn view(&self) -> KindView {
        match self {
            TokenKindOf::Integer(v) => TokenKindOf::Integer(*v),
            TokenKindOf::String(s) => TokenKindOf::String(s@),
            TokenKindOf::Identifier(s) => TokenKindOf::Identifier(s@),
            TokenKindOf::Let => TokenKindOf::Let,
            TokenKindOf::Fn => TokenKindOf::Fn,
            TokenKindOf::True => TokenKindOf::True,
            TokenKindOf::False => TokenKindOf::False,
            TokenKindOf::If => TokenKindOf::If,
            TokenKindOf::Else => TokenKindOf::Else,
            TokenKindOf::Comma => TokenKindOf::Comma,
            TokenKindOf::Equals => TokenKindOf::Equals,
            TokenKindOf::LessThan => TokenKindOf::LessThan,
            TokenKindOf::LessThanOrEqual => TokenKindOf::LessThanOrEqual,
            TokenKindOf::GreaterThan => TokenKindOf::GreaterThan,
            TokenKindOf::GreaterThanOrEqual => TokenKindOf::GreaterThanOrEqual,
            TokenKindOf::EqualEqual => TokenKindOf::EqualEqual,
            TokenKindOf::NotEqual => TokenKindOf::NotEqual,
            TokenKindOf::Bang => TokenKindOf::Bang,
            TokenKindOf::AndAnd => TokenKindOf::AndAnd,
            TokenKindOf::OrOr => TokenKindOf::OrOr,
            TokenKindOf::Semicolon => TokenKindOf::Semicolon,
            TokenKindOf::Plus => TokenKindOf::Plus,
            TokenKindOf::Minus => TokenKindOf::Minus,
            TokenKindOf::Star => TokenKindOf::Star,
            TokenKindOf::Slash => TokenKindOf::Slash,
            TokenKindOf::Percent => TokenKindOf::Percent,
            TokenKindOf::LeftParen => TokenKindOf::LeftParen,
            TokenKindOf::RightParen => TokenKindOf::RightParen,
            TokenKindOf::LeftBrace => TokenKindOf::LeftBrace,
            TokenKindOf::RightBrace => TokenKindOf::RightBrace,
        }
    }
}

/// A token together with the position of its first character.
#[derive(Debug, Clone, PartialEq)]
pub struct Token {
    pub kind: TokenKind,
    pub position: SourcePosition,
}

/// The mathematical view of a token.
pub struct TokenView {
    pub kind: KindView,
    pub position: SourcePosition,
}

impl View for Token {
    type V = TokenView;

    open spec fn view(&self) -> TokenView {
        TokenView { kind: self.kind@, position: self.position }
    }
}

/// The views of a sequence of tokens.
pub open spec fn tokens_view(tokens: Seq<Token>) -> Seq<TokenView> {
    tokens.map_values(|t: Token| t@)
}

/// The view of a lexing outcome.
pub open spec fn lex_result_view(result: Result<Vec<Token>, Error>) -> Result<Seq<TokenView>, ErrorView> {
    match result {
        Ok(tokens) => Ok(tokens_view(tokens@)),
        Err(e) => Err(e@),
    }
}

/// The name of a token kind as used in error messages.
pub open spec fn kind_name(kind: KindView) -> Seq<char> {
    match kind {
        TokenKindOf::Integer(_) => "integer literal"@,
        TokenKindOf::String(_) => "string literal"@,
        TokenKindOf::Identifier(_) => "identifier"@,
        TokenKindOf::Let => "'let'"@,
        TokenKindOf::Fn => "'fn'"@,
        TokenKindOf::True => "'true'"@,
        TokenKindOf::False => "'false'"@,
        TokenKindOf::If => "'if'"@,
        TokenKindOf::Else => "'else'"@,
        TokenKindOf::Comma => "','"@,
        TokenKindOf::Equals => "'='"@,
        TokenKindOf::LessThan => "'<'"@,
        TokenKindOf::LessThanOrEqual => "'<='"@,
        TokenKindOf::GreaterThan => "'>'"@,
        TokenKindOf::GreaterThanOrEqual => "'>='"@,
        TokenKindOf::EqualEqual => "'=='"@,
        TokenKindOf::NotEqual => "'!='"@,
        TokenKindOf::Bang => "'!'"@,
        TokenKindOf::AndAnd => "'&&'"@,
        TokenKindOf::OrOr => "'||'"@,
        TokenKindOf::Semicolon => "';'"@,
        TokenKindOf::Plus => "'+'"@,
        TokenKindOf::Minus => "'-'"@,
        TokenKindOf::Star => "'*'"@,
        TokenKindOf::Slash => "'/'"@,
        TokenKindOf::Percent => "'%'"@,
        TokenKindOf::LeftParen => "'('"@,
        TokenKindOf::RightParen => "')'"@,
        TokenKindOf::LeftBrace => "'{'"@,
        TokenKindOf::RightBrace => "'}'"@,
    }
}

impl Token {
    /// The name of this token's kind as used in error messages.
    pub fn kind_name(&self) -> (name: &'static str)
        ensures
            name@ == kind_name(self.kind@),
    {
        match &self.kind {
            TokenKindOf::Integer(_) => "integer literal",
            TokenKindOf::String(_) => "string literal",
            TokenKindOf::Identifier(_) => "identifier",
            TokenKindOf::Let => "'let'",
            TokenKindOf::Fn => "'fn'",
            TokenKindOf::True => "'true'",
            TokenKindOf::False => "'false'",
            TokenKindOf::If => "'if'",
            TokenKindOf::Else => "'else'",
            TokenKindOf::Comma => "','",
            TokenKindOf::Equals => "'='",
            TokenKindOf::LessThan => "'<'",
            TokenKindOf::LessThanOrEqual => "'<='",
            TokenKindOf::GreaterThan => "'>'",
            TokenKindOf::GreaterThanOrEqual => "'>='",
            TokenKindOf::EqualEqual => "'=='",
            TokenKindOf::NotEqual => "'!='",
            TokenKindOf::Bang => "'!'",
            TokenKindOf::AndAnd => "'&&'",
            TokenKindOf::OrOr => "'||'",
            TokenKindOf::Semicolon => "';'",
            TokenKindOf::Plus => "'+'",
            TokenKindOf::Minus => "'-'",
            TokenKindOf::Star => "'*'",
            TokenKindOf::Slash => "'/'",
            TokenKindOf::Percent => "'%'",
            TokenKindOf::LeftParen => "'('",
            TokenKindOf::RightParen => "')'",
            TokenKindOf::LeftBrace => "'{'",
            TokenKindOf::RightBrace => "'}'",
        }
    }
}

// ---------------------------------------------------------------------------
// Specification of the lexer as a function on characters.
// ---------------------------------------------------------------------------

/// Where the lexer stands: an index into the characters and the 1-based
/// line and column of that character.
pub struct LexState {
    pub pos: nat,
    pub line: usize,
    pub column: usize,
}

/// Adds one to a line or column counter (a counter already at the top of
/// its range stays there).
pub open spec fn bump(x: usize) -> usize {
    if x < usize::MAX { (x + 1) as usize } else { x }
}

/// The lexer state before any character is read.
pub open spec fn start_state() -> LexState {
    LexState { pos: 0, line: 1, column: 1 }
}

/// The source position of the character the lexer stands on.
pub open spec fn position_of(st: LexState) -> SourcePosition {
    SourcePosition { line: st.line, column: st.column }
}

/// The state after consuming the current character: a newline starts a new
/// line at column 1, any other character moves one column right.
pub open spec fn step(cs: Seq<char>, st: LexState) -> LexState {
    if st.pos < cs.len() {
        if cs[st.pos as int] == '\n' {
            LexState { pos: st.pos + 1, line: bump(st.line), column: 1 }
        } else {
            LexState { pos: st.pos + 1, line: st.line, column: bump(st.column) }
        }
    } else {
        st
    }
}

/// The character at the lexer's position, if any.
pub open spec fn char_at(cs: Seq<char>, pos: nat) -> Option<char> {
    if pos < cs.len() { Some(cs[pos as int]) } else { None }
}

pub open spec fn is_whitespace(c: char) -> bool {
    c == ' ' || c == '\t' || c == '\n' || c == '\x0C' || c == '\r'
}

pub open spec fn is_alpha(c: char) -> bool {
    ('a' <= c && c <= 'z') || ('A' <= c && c <= 'Z')
}

pub open spec fn is_identifier_start(c: char) -> bool {
    is_alpha(c) || c == '_'
}

pub open spec fn is_identifier_continue(c: char) -> bool {
    is_alpha(c) || is_digit(c) || c == '_'
}

/// Reads the digits of an integer literal, accumulating `value`; a literal
/// whose value leaves the unsigned 64-bit range is reported at the digit
/// that overflows.
pub open spec fn lex_integer(cs: Seq<char>, st: LexState, value: u64) -> Result<(u64, LexState), ErrorView>
    decreases cs.len() - st.pos,
{
    if st.pos < cs.len() && is_digit(cs[st.pos as int]) {
        let next = value * 10 + digit_value(cs[st.pos as int]);
        if next > u64::MAX {
            Err(error_of("integer literal out of range"@, Some(position_of(st))))
        } else {
            lex_integer(cs, step(cs, st), next as u64)
        }
    } else {
        Ok((value, st))
    }
}

/// The state just past the identifier characters starting at `st`.
pub open spec fn scan_identifier(cs: Seq<char>, st: LexState) -> LexState
    decreases cs.len() - st.pos,
{
    if st.pos < cs.len() && is_identifier_continue(cs[st.pos as int]) {
        scan_identifier(cs, step(cs, st))
    } else {
        st
    }
}

/// The token kind of an identifier-shaped word: a keyword or an identifier.
pub open spec fn word_kind(word: Seq<char>) -> KindView {
    if word == seq!['l', 'e', 't'] {
        TokenKindOf::Let
    } else if word == seq!['f', 'n'] {
        TokenKindOf::Fn
    } else if word == seq!['t', 'r', 'u', 'e'] {
        TokenKindOf::True
    } else if word == seq!['f', 'a', 'l', 's', 'e'] {
        TokenKindOf::False
    } else if word == seq!['i', 'f'] {
        TokenKindOf::If
    } else if word == seq!['e', 'l', 's', 'e'] {
        TokenKindOf::Else
    } else {
        TokenKindOf::Identifier(word)
    }
}

/// The character an escape letter stands for, if it is a supported escape.
pub open spec fn escape_of(c: char) -> Option<char> {
    if c == 'n' {
        Some('\n')
    } else if c == 't' {
        Some('\t')
    } else if c == '\\' {
        Some('\\')
    } else if c == '"' {
        Some('"')
    } else {
        None
    }
}

/// Reads the body of a string literal after its opening quote, which sits
/// at `open`; `value` holds the characters decoded so far.
pub open spec fn lex_string_body(cs: Seq<char>, st: LexState, open: SourcePosition, value: Seq<char>) -> Result<(Seq<char>, LexState), ErrorView>
    decreases cs.len() - st.pos,
{
    if st.pos >= cs.len() {
        Err(error_of("unterminated string literal"@, Some(open)))
    } else {
        let c = cs[st.pos as int];
        if c == '"' {
            Ok((value, step(cs, st)))
        } else if c == '\\' {
            let after = step(cs, st);
            match char_at(cs, after.pos) {
                Some(e) => match escape_of(e) {
                    Some(decoded) => lex_string_body(cs, step(cs, after), open, value.push(decoded)),
                    None => Err(error_of("invalid escape sequence in string literal"@, Some(position_of(after)))),
                },
                None => Err(error_of("invalid escape sequence in string literal"@, Some(position_of(after)))),
            }
        } else if c == '\n' {
            Err(error_of("unterminated string literal"@, Some(open)))
        } else {
            lex_string_body(cs, step(cs, st), open, value.push(c))
        }
    }
}

/// Skips the rest of a `//` comment, stopping before the newline.
pub open spec fn skip_line_comment(cs: Seq<char>, st: LexState) -> LexState
    decreases cs.len() - st.pos,
{
    if st.pos < cs.len() && cs[st.pos as int] != '\n' {
        skip_line_comment(cs, step(cs, st))
    } else {
        st
    }
}

/// Skips the rest of a `/* */` comment up to and including its first `*/`;
/// running out of input is an error at the opening `/*`.
pub open spec fn skip_block_comment(cs: Seq<char>, st: LexState, open: SourcePosition) -> Result<LexState, ErrorView>
    decreases cs.len() - st.pos,
{
    if st.pos >= cs.len() {
        Err(error_of("unterminated block comment"@, Some(open)))
    } else if cs[st.pos as int] == '*' {
        let after = step(cs, st);
        if char_at(cs, after.pos) == Some('/') {
            Ok(step(cs, after))
        } else {
            skip_block_comment(cs, after, open)
        }
    } else {
        skip_block_comment(cs, step(cs, st), open)
    }
}

/// A one- or two-character operator: `single`, or `compound` when the next
/// character is `second`.
pub open spec fn operator_pair(cs: Seq<char>, st: LexState, second: char, single: KindView, compound: KindView) -> (KindView, LexState) {
    let after = step(cs, st);
    if char_at(cs, after.pos) == Some(second) {
        (compound, step(cs, after))
    } else {
        (single, after)
    }
}

/// The kind of a single-character punctuation token.
pub open spec fn punctuation_kind(c: char) -> Option<KindView> {
    if c == ';' {
        Some(TokenKindOf::Semicolon)
    } else if c == ',' {
        Some(TokenKindOf::Comma)
    } else if c == '+' {
        Some(TokenKindOf::Plus)
    } else if c == '-' {
        Some(TokenKindOf::Minus)
    } else if c == '*' {
        Some(TokenKindOf::Star)
    } else if c == '/' {
        Some(TokenKindOf::Slash)
    } else if c == '%' {
        Some(TokenKindOf::Percent)
    } else if c == '(' {
        Some(TokenKindOf::LeftParen)
    } else if c == ')' {
        Some(TokenKindOf::RightParen)
    } else if c == '{' {
        Some(TokenKindOf::LeftBrace)
    } else if c == '}' {
        Some(TokenKindOf::RightBrace)
    } else {
        None
    }
}

/// One step of the lexer at a position holding a character: skips
/// whitespace or a comment (no token), or reads one token.
pub open spec fn lex_step(cs: Seq<char>, st: LexState) -> Result<(Option<TokenView>, LexState), ErrorView> {
    let c = cs[st.pos as int];
    let here = position_of(st);
    if is_whitespace(c) {
        Ok((None, step(cs, st)))
    } else if is_digit(c) {
        match lex_integer(cs, st, 0) {
            Ok((v, after)) => Ok((Some(TokenView { kind: TokenKindOf::Integer(v), position: here }), after)),
            Err(e) => Err(e),
        }
    } else if is_identifier_start(c) {
        let after = scan_identifier(cs, st);
        let word = cs.subrange(st.pos as int, after.pos as int);
        Ok((Some(TokenView { kind: word_kind(word), position: here }), after))
    } else if c == '/' && (char_at(cs, st.pos + 1) == Some('/') || char_at(cs, st.pos + 1) == Some('*')) {
        let after = step(cs, step(cs, st));
        if char_at(cs, st.pos + 1) == Some('/') {
            Ok((None, skip_line_comment(cs, after)))
        } else {
            match skip_block_comment(cs, after, here) {
                Ok(end) => Ok((None, end)),
                Err(e) => Err(e),
            }
        }
    } else if c == '"' {
        match lex_string_body(cs, step(cs, st), here, Seq::empty()) {
            Ok((value, after)) => Ok((Some(TokenView { kind: TokenKindOf::String(value), position: here }), after)),
            Err(e) => Err(e),
        }
    } else if c == '=' {
        let (kind, after) = operator_pair(cs, st, '=', TokenKindOf::Equals, TokenKindOf::EqualEqual);
        Ok((Some(TokenView { kind, position: here }), after))
    } else if c == '<' {
        let (kind, after) = operator_pair(cs, st, '=', TokenKindOf::LessThan, TokenKindOf::LessThanOrEqual);
        Ok((Some(TokenView { kind, position: here }), after))
    } else if c == '>' {
        let (kind, after) = operator_pair(cs, st, '=', TokenKindOf::GreaterThan, TokenKindOf::GreaterThanOrEqual);
        Ok((Some(TokenView { kind, position: here }), after))
    } else if c == '!' {
        let (kind, after) = operator_pair(cs, st, '=', TokenKindOf::Bang, TokenKindOf::NotEqual);
        Ok((Some(TokenView { kind, position: here }), after))
    } else if c == '&' {
        if char_at(cs, st.pos + 1) == Some('&') {
            Ok((Some(TokenView { kind: TokenKindOf::AndAnd, position: here }), step(cs, step(cs, st))))
        } else {
            Err(error_of("unexpected character '&'"@, Some(here)))
        }
    } else if c == '|' {
        if char_at(cs, st.pos + 1) == Some('|') {
            Ok((Some(TokenView { kind: TokenKindOf::OrOr, position: here }), step(cs, step(cs, st))))
        } else {
            Err(error_of("unexpected character '|'"@, Some(here)))
        }
    } else {
        match punctuation_kind(c) {
            Some(kind) => Ok((Some(TokenView { kind, position: here }), step(cs, st))),
            None => Err(error_of("unexpected character '"@ + seq![c] + "'"@, Some(here))),
        }
    }
}

/// Lexes everything from `st` on, after the tokens `acc` already read.
pub open spec fn lex_from(cs: Seq<char>, st: LexState, acc: Seq<TokenView>) -> Result<Seq<TokenView>, ErrorView>
    decreases cs.len() - st.pos,
{
    if st.pos >= cs.len() {
        Ok(acc)
    } else {
        match lex_step(cs, st) {
            Err(e) => Err(e),
            Ok((token, after)) => {
                if after.pos <= st.pos || after.pos > cs.len() {
                    Err(error_of(Seq::empty(), None))
                } else {
                    let acc2 = match token {
                        Some(t) => acc.push(t),
                        None => acc,
                    };
                    lex_from(cs, after, acc2)
                }
            },
        }
    }
}

/// The tokens of a whole source text, or the first lexical error.
pub open spec fn lex(cs: Seq<char>) -> Result<Seq<TokenView>, ErrorView> {
    lex_from(cs, start_state(), Seq::empty())
}

proof fn lemma_lex_integer_bounds(cs: Seq<char>, st: LexState, value: u64)
    requires
        st.pos <= cs.len(),
    ensures
        lex_integer(cs, st, value) matches Ok((_, after)) ==> st.pos <= after.pos <= cs.len(),
    decreases cs.len() - st.pos,
{
    if st.pos < cs.len() && is_digit(cs[st.pos as int]) {
        let next = value * 10 + digit_value(cs[st.pos as int]);
        if next <= u64::MAX {
            lemma_lex_integer_bounds(cs, step(cs, st), next as u64);
        }
    }
}

proof fn lemma_scan_identifier_bounds(cs: Seq<char>, st: LexState)
    requires
        st.pos <= cs.len(),
    ensures
        st.pos <= scan_identifier(cs, st).pos <= cs.len(),
    decreases cs.len() - st.pos,
{
    if st.pos < cs.len() && is_identifier_continue(cs[st.pos as int]) {
        lemma_scan_identifier_bounds(cs, step(cs, st));
    }
}

proof fn lemma_string_body_bounds(cs: Seq<char>, st: LexState, open: SourcePosition, value: Seq<char>)
    requires
        st.pos <= cs.len(),
    ensures
        lex_string_body(cs, st, open, value) matches Ok((_, after)) ==> st.pos <= after.pos <= cs.len(),
    decreases cs.len() - st.pos,
{
    if st.pos < cs.len() {
        let c = cs[st.pos as int];
        if c == '\\' {
            let after = step(cs, st);
            if let Some(e) = char_at(cs, after.pos) {
                if let Some(decoded) = escape_of(e) {
                    lemma_string_body_bounds(cs, step(cs, after), open, value.push(decoded));
                }
            }
        } else if c != '"' && c != '\n' {
            lemma_string_body_bounds(cs, step(cs, st), open, value.push(c));
        }
    }
}

proof fn lemma_line_comment_bounds(cs: Seq<char>, st: LexState)
    requires
        st.pos <= cs.len(),
    ensures
        st.pos <= skip_line_comment(cs, st).pos <= cs.len(),
    decreases cs.len() - st.pos,
{
    if st.pos < cs.len() && cs[st.pos as int] != '\n' {
        lemma_line_comment_bounds(cs, step(cs, st));
    }
}

proof fn lemma_block_comment_bounds(cs: Seq<char>, st: LexState, open: SourcePosition)
    requires
        st.pos <= cs.len(),
    ensures
        skip_block_comment(cs, st, open) matches Ok(end) ==> st.pos <= end.pos <= cs.len(),
    decreases cs.len() - st.pos,
{
    if st.pos < cs.len() {
        if cs[st.pos as int] == '*' {
            let after = step(cs, st);
            if char_at(cs, after.pos) != Some('/') {
                lemma_block_comment_bounds(cs, after, open);
            }
        } else {
            lemma_block_comment_bounds(cs, step(cs, st), open);
        }
    }
}

// ---------------------------------------------------------------------------
// The executable lexer.
// ---------------------------------------------------------------------------

/// A lexer over the characters of one source text.
pub struct Lexer {
    chars: Vec<char>,
    position: usize,
    line: usize,
    column: usize,
}

fn is_space_char(c: char) -> (b: bool)
    ensures
        b == is_whitespace(c),
{
    c == ' ' || c == '\t' || c == '\n' || c == '\x0C' || c == '\r'
}

fn is_word_start(c: char) -> (b: bool)
    ensures
        b == is_identifier_start(c),
{
    ('a' <= c && c <= 'z') || ('A' <= c && c <= 'Z') || c == '_'
}

fn is_word_char(c: char) -> (b: bool)
    ensures
        b == is_identifier_continue(c),
{
    ('a' <= c && c <= 'z') || ('A' <= c && c <= 'Z') || ('0' <= c && c <= '9') || c == '_'
}

impl Lexer {
    /// The characters being lexed.
    pub closed spec fn source(&self) -> Seq<char> {
        self.chars@
    }

    /// The lexer's current state.
    pub closed spec fn state(&self) -> LexState {
        LexState { pos: self.position as nat, line: self.line, column: self.column }
    }

    /// The lexer's position lies within its characters.
    pub closed spec fn wf(&self) -> bool {
        self.position <= self.chars@.len()
    }

    /// A lexer at the start of `input`.
    pub fn new(input: &str) -> (lexer: Self)
        ensures
            lexer.wf(),
            lexer.source() == input@,
            lexer.state() == start_state(),
    {
        Lexer { chars: str_chars(input), position: 0, line: 1, column: 1 }
    }

    /// Lexes the whole input into tokens, or reports the first lexical
    /// error.
    pub fn tokenize(self) -> (result: Result<Vec<Token>, Error>)
        requires
            self.wf(),
        ensures
            lex_result_view(result) == lex_from(self.source(), self.state(), Seq::empty()),
    {
        let mut lexer = self;
        lexer.run()
    }

    fn run(&mut self) -> (result: Result<Vec<Token>, Error>)
        requires
            old(self).wf(),
        ensures
            lex_result_view(result) == lex_from(old(self).source(), old(self).state(), Seq::empty()),
    {
        let mut tokens: Vec<Token> = Vec::new();
        let ghost cs = self.source();
        let ghost st0 = self.state();
        assert(tokens_view(tokens@) == Seq::<TokenView>::empty());
        loop
            invariant
                self.wf(),
                self.source() == cs,
                cs == old(self).source(),
                st0 == old(self).state(),
                lex_from(cs, st0, Seq::empty()) == lex_from(cs, self.state(), tokens_view(tokens@)),
            decreases self.chars@.len() - self.position,
        {
            let ghost st = self.state();
            let c = match self.current_character() {
                Some(c) => c,
                None => {
                    assert(self.state().pos >= cs.len());
                    assert(lex_from(cs, self.state(), tokens_view(tokens@)) == Ok::<Seq<TokenView>, ErrorView>(tokens_view(tokens@)));
                    assert(lex_result_view(Ok(tokens)) == Ok::<Seq<TokenView>, ErrorView>(tokens_view(tokens@)));
                    return Ok(tokens);
                },
            };
            let ghost before = tokens_view(tokens@);
            if is_space_char(c) {
                self.advance();
                continue;
            }
            if '0' <= c && c <= '9' {
                let position = self.current_position();
                proof {
                    assert(digit_value(c) <= 9);
                    lemma_lex_integer_bounds(cs, step(cs, st), digit_value(c) as u64);
                }
                let value = self.integer_literal()?;
                tokens.push(Token { kind: TokenKind::Integer(value), position });
                assert(tokens_view(tokens@) == before.push(tokens@.last()@));
                continue;
            }
            if is_word_start(c) {
                proof {
                    lemma_scan_identifier_bounds(cs, step(cs, st));
                }
                let token = self.identifier();
                tokens.push(token);
                assert(tokens_view(tokens@) == before.push(tokens@.last()@));
                continue;
            }
            if c == '/' {
                let next = self.peek_character();
                if next == Some('/') || next == Some('*') {
                    proof {
                        lemma_line_comment_bounds(cs, step(cs, step(cs, st)));
                        lemma_block_comment_bounds(cs, step(cs, step(cs, st)), position_of(st));
                    }
                    self.skip_comment()?;
                    continue;
                }
            }
            if c == '"' {
                proof {
                    lemma_string_body_bounds(cs, step(cs, st), position_of(st), Seq::empty());
                }
                let token = self.string_literal()?;
                tokens.push(token);
                assert(tokens_view(tokens@) == before.push(tokens@.last()@));
                continue;
            }
            let position = self.current_position();
            let kind = if c == '=' {
                self.operator_with_optional_equals(TokenKind::Equals, TokenKind::EqualEqual)
            } else if c == '<' {
                self.operator_with_optional_equals(TokenKind::LessThan, TokenKind::LessThanOrEqual)
            } else if c == '>' {
                self.operator_with_optional_equals(TokenKind::GreaterThan, TokenKind::GreaterThanOrEqual)
            } else if c == '!' {
                self.operator_with_optional_equals(TokenKind::Bang, TokenKind::NotEqual)
            } else if c == '&' {
                self.advance();
                if self.current_character() == Some('&') {
                    self.advance();
                    TokenKind::AndAnd
                } else {
                    return Err(Error::at_str("unexpected character '&'", position));
                }
            } else if c == '|' {
                self.advance();
                if self.current_character() == Some('|') {
                    self.advance();
                    TokenKind::OrOr
                } else {
                    return Err(Error::at_str("unexpected character '|'", position));
                }
            } else {
                let kind = if c == ';' {
                    TokenKind::Semicolon
                } else if c == ',' {
                    TokenKind::Comma
                } else if c == '+' {
                    TokenKind::Plus
                } else if c == '-' {
                    TokenKind::Minus
                } else if c == '*' {
                    TokenKind::Star
                } else if c == '/' {
                    TokenKind::Slash
                } else if c == '%' {
                    TokenKind::Percent
                } else if c == '(' {
                    TokenKind::LeftParen
                } else if c == ')' {
                    TokenKind::RightParen
                } else if c == '{' {
                    TokenKind::LeftBrace
                } else if c == '}' {
                    TokenKind::RightBrace
                } else {
                    let mut message: Vec<char> = Vec::new();
                    push_str(&mut message, "unexpected character '");
                    let ghost prefix = message@;
                    message.push(c);
                    assert(message@ == prefix + seq![c]);
                    push_str(&mut message, "'");
                    assert(punctuation_kind(c) is None);
                    return Err(Error::positioned(&message, Some(position)));
                };
                self.advance();
                kind
            };
            tokens.push(Token { kind, position });
            assert(tokens_view(tokens@) == before.push(tokens@.last()@));
        }
    }

    fn current_character(&self) -> (c: Option<char>)
        requires
            self.wf(),
        ensures
            c == char_at(self.source(), self.state().pos),
    {
        if self.position < self.chars.len() {
            Some(self.chars[self.position])
        } else {
            None
        }
    }

    fn peek_character(&self) -> (c: Option<char>)
        requires
            self.wf(),
        ensures
            c == char_at(self.source(), self.state().pos + 1),
    {
        if self.position < self.chars.len() && self.position + 1 < self.chars.len() {
            Some(self.chars[self.position + 1])
        } else {
            None
        }
    }

    fn current_position(&self) -> (p: SourcePosition)
        ensures
            p == position_of(self.state()),
    {
        SourcePosition { line: self.line, column: self.column }
    }

    fn advance(&mut self)
        requires
            old(self).wf(),
        ensures
            final(self).wf(),
            final(self).source() == old(self).source(),
            final(self).state() == step(old(self).source(), old(self).state()),
    {
        if self.position < self.chars.len() {
            let c = self.chars[self.position];
            self.position = self.position + 1;
            if c == '\n' {
                self.line = if self.line < usize::MAX { self.line + 1 } else { self.line };
                self.column = 1;
            } else {
                self.column = if self.column < usize::MAX { self.column + 1 } else { self.column };
            }
        }
    }

    fn integer_literal(&mut self) -> (result: Result<u64, Error>)
        requires
            old(self).wf(),
        ensures
            final(self).wf(),
            final(self).source() == old(self).source(),
            final(self).state().pos >= old(self).state().pos,
            match lex_integer(old(self).source(), old(self).state(), 0) {
                Ok((v, after)) => result == Ok::<u64, Error>(v) && final(self).state() == after,
                Err(e) => result is Err && result->Err_0@ == e,
            },
    {
        let mut value: u64 = 0;
        while self.position < self.chars.len() && '0' <= self.chars[self.position] && self.chars[self.position] <= '9'
            invariant
                self.wf(),
                self.source() == old(self).source(),
                self.state().pos >= old(self).state().pos,
                lex_integer(old(self).source(), old(self).state(), 0) == lex_integer(self.source(), self.state(), value),
            decreases self.chars@.len() - self.position,
        {
            let digit: u64 = (self.chars[self.position] as u32 - 48) as u64;
            match value.checked_mul(10) {
                Some(tens) => match tens.checked_add(digit) {
                    Some(next) => {
                        value = next;
                        self.advance();
                    },
                    None => {
                        let p = self.current_position();
                        return Err(Error::at_str("integer literal out of range", p));
                    },
                },
                None => {
                    let p = self.current_position();
                    return Err(Error::at_str("integer literal out of range", p));
                },
            }
        }
        Ok(value)
    }

    fn identifier(&mut self) -> (token: Token)
        requires
            old(self).wf(),
        ensures
            final(self).wf(),
            final(self).source() == old(self).source(),
            final(self).state() == scan_identifier(old(self).source(), old(self).state()),
            token@ == (TokenView {
                kind: word_kind(old(self).source().subrange(old(self).state().pos as int, final(self).state().pos as int)),
                position: position_of(old(self).state()),
            }),
    {
        let position = self.current_position();
        let start = self.position;
        let mut word: Vec<char> = Vec::new();
        while self.position < self.chars.len() && is_word_char(self.chars[self.position])
            invariant
                self.wf(),
                self.source() == old(self).source(),
                start <= self.position,
                start == old(self).state().pos,
                word@ == self.chars@.subrange(start as int, self.position as int),
                scan_identifier(old(self).source(), old(self).state()) == scan_identifier(self.source(), self.state()),
            decreases self.chars@.len() - self.position,
        {
            word.push(self.chars[self.position]);
            self.advance();
            assert(word@ == self.chars@.subrange(start as int, self.position as int));
        }
        let n = word.len();
        let kind = if n == 3 && word[0] == 'l' && word[1] == 'e' && word[2] == 't' {
            assert(word@ == seq!['l', 'e', 't']);
            TokenKind::Let
        } else if n == 2 && word[0] == 'f' && word[1] == 'n' {
            assert(word@ == seq!['f', 'n']);
            TokenKind::Fn
        } else if n == 4 && word[0] == 't' && word[1] == 'r' && word[2] == 'u' && word[3] == 'e' {
            assert(word@ == seq!['t', 'r', 'u', 'e']);
            TokenKind::True
        } else if n == 5 && word[0] == 'f' && word[1] == 'a' && word[2] == 'l' && word[3] == 's' && word[4] == 'e' {
            assert(word@ == seq!['f', 'a', 'l', 's', 'e']);
            TokenKind::False
        } else if n == 2 && word[0] == 'i' && word[1] == 'f' {
            assert(word@ == seq!['i', 'f']);
            TokenKind::If
        } else if n == 4 && word[0] == 'e' && word[1] == 'l' && word[2] == 's' && word[3] == 'e' {
            assert(word@ == seq!['e', 'l', 's', 'e']);
            TokenKind::Else
        } else {
            TokenKind::Identifier(string_from_chars(&word))
        };
        Token { kind, position }
    }

    /// Lexes a string literal starting at the current double quote and
    /// returns its decoded content. The supported escapes are backslash
    /// followed by n, t, a backslash or a double quote; any other escape
    /// sequence is an error, and a literal that runs past the end of the
    /// input or contains a raw newline is reported as unterminated at the
    /// opening quote.
    fn string_literal(&mut self) -> (result: Result<Token, Error>)
        requires
            old(self).wf(),
            old(self).state().pos < old(self).source().len(),
        ensures
            final(self).wf(),
            final(self).source() == old(self).source(),
            final(self).state().pos >= old(self).state().pos,
            match lex_string_body(old(self).source(), step(old(self).source(), old(self).state()), position_of(old(self).state()), Seq::empty()) {
                Ok((value, after)) => result is Ok && result->Ok_0@ == (TokenView {
                    kind: TokenKindOf::String(value),
                    position: position_of(old(self).state()),
                }) && final(self).state() == after,
                Err(e) => result is Err && result->Err_0@ == e,
            },
    {
        let position = self.current_position();
        self.advance();
        let mut value: Vec<char> = Vec::new();
        loop
            invariant
                self.wf(),
                self.source() == old(self).source(),
                self.state().pos >= old(self).state().pos,
                lex_string_body(old(self).source(), step(old(self).source(), old(self).state()), position, Seq::empty())
                    == lex_string_body(self.source(), self.state(), position, value@),
                position == position_of(old(self).state()),
            decreases self.chars@.len() - self.position,
        {
            match self.current_character() {
                None => return Err(Error::at_str("unterminated string literal", position)),
                Some(c) => {
                    if c == '"' {
                        self.advance();
                        return Ok(Token { kind: TokenKind::String(string_from_chars(&value)), position });
                    } else if c == '\\' {
                        self.advance();
                        let escape_position = self.current_position();
                        match self.current_character() {
                            Some(e) => {
                                let decoded = if e == 'n' {
                                    '\n'
                                } else if e == 't' {
                                    '\t'
                                } else if e == '\\' {
                                    '\\'
                                } else if e == '"' {
                                    '"'
                                } else {
                                    return Err(Error::at_str("invalid escape sequence in string literal", escape_position));
                                };
                                value.push(decoded);
                                self.advance();
                            },
                            None => {
                                return Err(Error::at_str("invalid escape sequence in string literal", escape_position));
                            },
                        }
                    } else if c == '\n' {
                        return Err(Error::at_str("unterminated string literal", position));
                    } else {
                        value.push(c);
                        self.advance();
                    }
                },
            }
        }
    }

    /// Skips a `//` line comment or `/* ... */` block comment that starts at
    /// the current '/' character. Block comments do not nest; an
    /// unterminated block comment is an error positioned at its opening `/*`.
    fn skip_comment(&mut self) -> (result: Result<(), Error>)
        requires
            old(self).wf(),
            old(self).state().pos < old(self).source().len(),
            char_at(old(self).source(), old(self).state().pos + 1) == Some('/')
                || char_at(old(self).source(), old(self).state().pos + 1) == Some('*'),
        ensures
            final(self).wf(),
            final(self).source() == old(self).source(),
            final(self).state().pos >= old(self).state().pos,
            ({
                let cs = old(self).source();
                let st = old(self).state();
                let after = step(cs, step(cs, st));
                if char_at(cs, st.pos + 1) == Some('/') {
                    result is Ok && final(self).state() == skip_line_comment(cs, after)
                } else {
                    match skip_block_comment(cs, after, position_of(st)) {
                        Ok(end) => result is Ok && final(self).state() == end,
                        Err(e) => result is Err && result->Err_0@ == e,
                    }
                }
            }),
    {
        let position = self.current_position();
        self.advance();
        let second = self.current_character();
        self.advance();
        if second == Some('/') {
            while self.position < self.chars.len() && self.chars[self.position] != '\n'
                invariant
                    self.wf(),
                    self.source() == old(self).source(),
                    self.state().pos >= old(self).state().pos,
                    skip_line_comment(old(self).source(), step(old(self).source(), step(old(self).source(), old(self).state())))
                        == skip_line_comment(self.source(), self.state()),
                decreases self.chars@.len() - self.position,
            {
                self.advance();
            }
            Ok(())
        } else {
            loop
                invariant
                    self.wf(),
                    self.source() == old(self).source(),
                    self.state().pos >= old(self).state().pos,
                    position == position_of(old(self).state()),
                    char_at(old(self).source(), old(self).state().pos + 1) != Some('/'),
                    skip_block_comment(old(self).source(), step(old(self).source(), step(old(self).source(), old(self).state())), position)
                        == skip_block_comment(self.source(), self.state(), position),
                decreases self.chars@.len() - self.position,
            {
                if self.position >= self.chars.len() {
                    return Err(Error::at_str("unterminated block comment", position));
                }
                if self.chars[self.position] == '*' {
                    self.advance();
                    if self.current_character() == Some('/') {
                        self.advance();
                        return Ok(());
                    }
                } else {
                    self.advance();
                }
            }
        }
    }

    fn operator_with_optional_equals(&mut self, single: TokenKind, compound: TokenKind) -> (kind: TokenKind)
        requires
            old(self).wf(),
            old(self).state().pos < old(self).source().len(),
        ensures
            final(self).wf(),
            final(self).source() == old(self).source(),
            final(self).state().pos > old(self).state().pos,
            (kind@, final(self).state()) == operator_pair(old(self).source(), old(self).state(), '=', single@, compound@),
    {
        self.advance();
        if self.current_character() == Some('=') {
            self.advance();
            compound
        } else {
            single
        }
    }
}

} // verus!
