//! The decisions of the command-line program: which request its arguments
//! make, how a source is evaluated under the requested limits, and how an
//! error is reported. Reading files and standard input, and printing, are
//! left to the program around this module.

use vstd::prelude::*;

use crate::ast::{name_of_type, Type};
use crate::error::{Error, ErrorView};
use crate::semantics::value_type;
use crate::text::{
    all_digits, decimal, digits_value, int_text, is_digit, push_int_text, push_str, push_usize_text, str_chars, str_eq,
    string_from_chars,
};
use crate::{evaluate_with_limits, run_within, Limits, Value, ValueView, DEFAULT_MAX_INPUT_BYTES};

verus! {

/// Where the program text comes from.
#[derive(Debug, PartialEq, Eq)]
pub enum SourceArg {
    /// The program given inline as an argument.
    Inline(String),
    /// The file named by the argument at this index.
    File(usize),
    /// Standard input.
    Stdin,
}

/// The mathematical content of a [`SourceArg`].
pub enum SourceView {
    Inline(Seq<char>),
    File(usize),
    Stdin,
}

impl View for SourceArg {
    type V = SourceView;

    open spec fn view(&self) -> SourceView {
        match self {
            SourceArg::Inline(text) => SourceView::Inline(text@),
            SourceArg::File(index) => SourceView::File(*index),
            SourceArg::Stdin => SourceView::Stdin,
        }
    }
}

/// The options an invocation selects.
pub struct Invocation {
    pub source: Option<SourceArg>,
    pub input_limit: Option<usize>,
    pub positions: bool,
    pub json: bool,
}

pub struct InvocationView {
    pub source: Option<SourceView>,
    pub input_limit: Option<usize>,
    pub positions: bool,
    pub json: bool,
}

impl View for Invocation {
    type V = InvocationView;

    open spec fn view(&self) -> InvocationView {
        InvocationView {
            source: match self.source {
                Some(s) => Some(s@),
                None => None,
            },
            input_limit: self.input_limit,
            positions: self.positions,
            json: self.json,
        }
    }
}

/// What the command line asks for.
pub enum Request {
    Help,
    Version,
    Repl,
    Evaluate { source: SourceArg, limits: Limits, positions: bool, json: bool },
}

pub enum RequestView {
    Help,
    Version,
    Repl,
    Evaluate { source: SourceView, limits: Limits, positions: bool, json: bool },
}

impl View for Request {
    type V = RequestView;

    open spec fn view(&self) -> RequestView {
        match self {
            Request::Help => RequestView::Help,
            Request::Version => RequestView::Version,
            Request::Repl => RequestView::Repl,
            Request::Evaluate { source, limits, positions, json } => RequestView::Evaluate {
                source: source@,
                limits: *limits,
                positions: *positions,
                json: *json,
            },
        }
    }
}

/// The arguments as text; `None` stands for an argument that is not valid
/// UTF-8.
pub open spec fn args_view(args: Seq<Option<String>>) -> Seq<Option<Seq<char>>> {
    args.map_values(|a: Option<String>| match a {
        Some(s) => Some(s@),
        None => None,
    })
}

/// The value of a decimal size under std's grammar for unsigned integers:
/// an optional leading `+` and one or more ASCII digits, fitting in `usize`.
pub open spec fn parse_size_text(text: Seq<char>) -> Option<usize> {
    let digits = if text.len() > 0 && text[0] == '+' { text.drop_first() } else { text };
    if digits.len() == 0 || !all_digits(digits) || digits_value(digits) > usize::MAX {
        None
    } else {
        Some(digits_value(digits) as usize)
    }
}

/// The message for a second source after `source` was selected.
pub open spec fn conflict_text(source: SourceView) -> Seq<char> {
    match source {
        SourceView::Inline(_) => "expected exactly one expression argument"@,
        SourceView::File(_) => "-f/--file accepts exactly one path and cannot be combined with additional arguments"@,
        SourceView::Stdin => "--stdin cannot be combined with additional arguments"@,
    }
}

pub open spec fn with_source(inv: InvocationView, source: SourceView) -> InvocationView {
    InvocationView { source: Some(source), input_limit: inv.input_limit, positions: inv.positions, json: inv.json }
}

/// Reads the arguments from index `i` on into the options `inv`.
pub open spec fn invocation_from(args: Seq<Option<Seq<char>>>, i: nat, inv: InvocationView) -> Result<InvocationView, Seq<char>>
    decreases args.len() - i,
{
    if i >= args.len() {
        Ok(inv)
    } else {
        let argument = args[i as int];
        if argument == Some("--positions"@) {
            invocation_from(
                args,
                i + 1,
                InvocationView { source: inv.source, input_limit: inv.input_limit, positions: true, json: inv.json },
            )
        } else if argument == Some("--json"@) {
            invocation_from(
                args,
                i + 1,
                InvocationView { source: inv.source, input_limit: inv.input_limit, positions: inv.positions, json: true },
            )
        } else if argument == Some("--input-limit"@) {
            if i + 1 >= args.len() {
                Err("missing value after --input-limit"@)
            } else {
                match args[i + 1int] {
                    None => Err("--input-limit value must be valid UTF-8"@),
                    Some(text) => match parse_size_text(text) {
                        None => Err("invalid --input-limit value: '"@ + text + "'"@),
                        Some(bytes) => invocation_from(
                            args,
                            i + 2,
                            InvocationView { source: inv.source, input_limit: Some(bytes), positions: inv.positions, json: inv.json },
                        ),
                    },
                }
            }
        } else if argument == Some("-f"@) || argument == Some("--file"@) {
            if i + 1 >= args.len() {
                Err("missing file path after -f/--file"@)
            } else {
                match inv.source {
                    Some(s) => Err(conflict_text(s)),
                    None => invocation_from(args, i + 2, with_source(inv, SourceView::File((i + 1) as usize))),
                }
            }
        } else if argument == Some("--stdin"@) {
            match inv.source {
                Some(s) => Err(conflict_text(s)),
                None => invocation_from(args, i + 1, with_source(inv, SourceView::Stdin)),
            }
        } else {
            match argument {
                None => Err("expression must be valid UTF-8"@),
                Some(text) => match inv.source {
                    Some(s) => Err(conflict_text(s)),
                    None => invocation_from(args, i + 1, with_source(inv, SourceView::Inline(text))),
                },
            }
        }
    }
}

/// The options of a whole argument list.
pub open spec fn invocation_of(args: Seq<Option<Seq<char>>>) -> Result<InvocationView, Seq<char>> {
    invocation_from(args, 0, InvocationView { source: None, input_limit: None, positions: false, json: false })
}

/// The request a whole argument list makes.
pub open spec fn request_of(args: Seq<Option<Seq<char>>>) -> Result<RequestView, Seq<char>> {
    if args.len() == 1 && (args[0] == Some("-h"@) || args[0] == Some("--help"@)) {
        Ok(RequestView::Help)
    } else if args.len() == 1 && (args[0] == Some("-V"@) || args[0] == Some("--version"@)) {
        Ok(RequestView::Version)
    } else if args.len() == 1 && args[0] == Some("--repl"@) {
        Ok(RequestView::Repl)
    } else {
        match invocation_of(args) {
            Err(m) => Err(m),
            Ok(inv) => match inv.source {
                None => Err("expected exactly one expression argument"@),
                Some(source) => Ok(RequestView::Evaluate {
                    source,
                    limits: Limits {
                        max_input_bytes: match inv.input_limit {
                            Some(bytes) => bytes,
                            None => DEFAULT_MAX_INPUT_BYTES,
                        },
                    },
                    positions: inv.positions,
                    json: inv.json,
                }),
            },
        }
    }
}

/// A hexadecimal digit, in lower case.
pub open spec fn hex_digit(d: nat) -> char {
    if d < 10 { (48 + d) as char } else { (87 + d) as char }
}

/// One character as it stands inside a JSON string: quotes, backslashes
/// and control characters escaped, everything else as it is.
pub open spec fn json_char(c: char) -> Seq<char> {
    if c == '"' {
        seq!['\\', '"']
    } else if c == '\\' {
        seq!['\\', '\\']
    } else if c == '\n' {
        seq!['\\', 'n']
    } else if c == '\t' {
        seq!['\\', 't']
    } else if c == '\r' {
        seq!['\\', 'r']
    } else if (c as u32) < 32 {
        seq!['\\', 'u', '0', '0', hex_digit((c as u32 / 16) as nat), hex_digit((c as u32 % 16) as nat)]
    } else {
        seq![c]
    }
}

/// The characters of a text as they stand inside a JSON string.
pub open spec fn json_escape(text: Seq<char>) -> Seq<char>
    decreases text.len(),
{
    if text.len() == 0 {
        Seq::empty()
    } else {
        json_escape(text.drop_last()) + json_char(text.last())
    }
}

/// A text as a JSON string.
pub open spec fn json_string(text: Seq<char>) -> Seq<char> {
    seq!['"'] + json_escape(text) + seq!['"']
}

/// A value as JSON: an integer as a number, a boolean as a literal, a string
/// as a JSON string.
pub open spec fn json_value(v: ValueView) -> Seq<char> {
    match v {
        ValueView::Int(n) => int_text(n as int),
        ValueView::Bool(b) => if b { "true"@ } else { "false"@ },
        ValueView::Str(text) => json_string(text),
    }
}

/// The JSON document reporting an evaluation: `{"ok":true,"value":..,"type":..}`
/// on success, `{"ok":false,"error":..}` with `"line"` and `"column"` when
/// the error has a position.
pub open spec fn json_document(result: Result<ValueView, ErrorView>) -> Seq<char> {
    match result {
        Ok(v) => "{\"ok\":true,\"value\":"@ + json_value(v) + ",\"type\":\""@ + name_of_type(value_type(v)) + "\"}"@,
        Err(e) => "{\"ok\":false,\"error\":"@ + json_string(e.message) + match e.position {
            Some(p) => ",\"line\":"@ + decimal(p.line as nat) + ",\"column\":"@ + decimal(p.column as nat),
            None => Seq::empty(),
        } + "}"@,
    }
}

/// How an error is reported: its message, and with `positions` its line and
/// column when it has them.
pub open spec fn error_text(error: ErrorView, positions: bool) -> Seq<char> {
    match error.position {
        Some(p) => if positions {
            error.message + "\n at line "@ + decimal(p.line as nat) + ", column "@ + decimal(p.column as nat)
        } else {
            error.message
        },
        None => error.message,
    }
}

proof fn lemma_digits_prefix_grows(s: Seq<char>, i: int)
    requires
        0 <= i <= s.len(),
    ensures
        digits_value(s.take(i)) <= digits_value(s),
    decreases s.len() - i,
{
    if i < s.len() {
        lemma_digits_prefix_grows(s, i + 1);
        assert(s.take(i + 1).drop_last() == s.take(i));
    } else {
        assert(s.take(i) == s);
    }
}

/// Parses a size under std's grammar for unsigned integers.
pub fn parse_size(text: &str) -> (size: Option<usize>)
    ensures
        size == parse_size_text(text@),
{
    let chars = str_chars(text);
    let plus = chars.len() > 0 && chars[0] == '+';
    let start: usize = if plus { 1 } else { 0 };
    let ghost digits = if plus { chars@.drop_first() } else { chars@ };
    if start == chars.len() {
        return None;
    }
    let mut acc: usize = 0;
    let mut i: usize = start;
    while i < chars.len()
        invariant
            start <= i <= chars@.len(),
            start < chars@.len(),
            chars@ == text@,
            digits == chars@.subrange(start as int, chars@.len() as int),
            all_digits(chars@.subrange(start as int, i as int)),
            acc as nat == digits_value(chars@.subrange(start as int, i as int)),
            plus == (chars@.len() > 0 && chars@[0] == '+'),
            start == (if plus { 1usize } else { 0usize }),
            digits == (if plus { chars@.drop_first() } else { chars@ }),
        decreases chars@.len() - i,
    {
        let c = chars[i];
        if !('0' <= c && c <= '9') {
            assert(!is_digit(digits[i - start]));
            return None;
        }
        let d: usize = (c as u32 - 48) as usize;
        assert(chars@.subrange(start as int, i + 1).drop_last() == chars@.subrange(start as int, i as int));
        if acc > (usize::MAX - d) / 10 {
            proof {
                assert(digits_value(chars@.subrange(start as int, i + 1)) > usize::MAX) by (nonlinear_arith)
                    requires
                        digits_value(chars@.subrange(start as int, i + 1)) == acc * 10 + d,
                        acc > (usize::MAX - d) / 10,
                        d <= 9,
                ;
                assert(chars@.subrange(start as int, i + 1) == digits.take(i + 1 - start));
                lemma_digits_prefix_grows(digits, i + 1 - start);
            }
            return None;
        }
        assert(acc * 10 + d <= usize::MAX) by (nonlinear_arith)
            requires
                acc <= (usize::MAX - d) / 10,
                d <= 9,
        ;
        acc = acc * 10 + d;
        i = i + 1;
        assert forall|k: int| 0 <= k < chars@.subrange(start as int, i as int).len()
            implies #[trigger] is_digit(chars@.subrange(start as int, i as int)[k]) by {
            if k < i - 1 - start {
                assert(chars@.subrange(start as int, i as int)[k] == chars@.subrange(start as int, i - 1)[k]);
            }
        }
    }
    assert(chars@.subrange(start as int, i as int) == digits);
    Some(acc)
}

/// Whether argument `i` is the given flag.
fn is_flag(args: &Vec<Option<String>>, i: usize, flag: &str) -> (b: bool)
    requires
        i < args@.len(),
    ensures
        b == (args_view(args@)[i as int] == Some(flag@)),
{
    match &args[i] {
        Some(text) => str_eq(text.as_str(), flag),
        None => false,
    }
}

/// The message reported when a second source follows `source`.
pub fn conflict_message(source: &SourceArg) -> (message: &'static str)
    ensures
        message@ == conflict_text(source@),
{
    match source {
        SourceArg::Inline(_) => "expected exactly one expression argument",
        SourceArg::File(_) => "-f/--file accepts exactly one path and cannot be combined with additional arguments",
        SourceArg::Stdin => "--stdin cannot be combined with additional arguments",
    }
}

/// Reads the options of an argument list: `--positions`, `--json`,
/// `--input-limit <bytes>`, and one source among an inline program,
/// `-f`/`--file <path>` and `--stdin`.
pub fn parse_invocation(args: &Vec<Option<String>>) -> (result: Result<Invocation, String>)
    ensures
        match invocation_of(args_view(args@)) {
            Ok(v) => result matches Ok(inv) && inv@ == v,
            Err(m) => result is Err && result->Err_0@ == m,
        },
{
    let ghost a = args_view(args@);
    let mut invocation = Invocation { source: None, input_limit: None, positions: false, json: false };
    let mut index: usize = 0;
    while index < args.len()
        invariant
            a == args_view(args@),
            a.len() == args@.len(),
            index <= args@.len(),
            invocation_of(a) == invocation_from(a, index as nat, invocation@),
        decreases args@.len() - index,
    {
        if is_flag(args, index, "--positions") {
            invocation.positions = true;
            index = index + 1;
            continue;
        }
        if is_flag(args, index, "--json") {
            invocation.json = true;
            index = index + 1;
            continue;
        }
        if is_flag(args, index, "--input-limit") {
            if index + 1 >= args.len() {
                return Err("missing value after --input-limit".to_owned());
            }
            let value = match &args[index + 1] {
                Some(value) => value,
                None => return Err("--input-limit value must be valid UTF-8".to_owned()),
            };
            match parse_size(value.as_str()) {
                Some(bytes) => {
                    invocation.input_limit = Some(bytes);
                    index = index + 2;
                    continue;
                },
                None => {
                    let mut message: Vec<char> = Vec::new();
                    push_str(&mut message, "invalid --input-limit value: '");
                    push_str(&mut message, value.as_str());
                    push_str(&mut message, "'");
                    return Err(string_from_chars(message.as_slice()));
                },
            }
        }
        if is_flag(args, index, "-f") || is_flag(args, index, "--file") {
            if index + 1 >= args.len() {
                return Err("missing file path after -f/--file".to_owned());
            }
            if let Some(source) = &invocation.source {
                return Err(conflict_message(source).to_owned());
            }
            invocation.source = Some(SourceArg::File(index + 1));
            index = index + 2;
            continue;
        }
        if is_flag(args, index, "--stdin") {
            if let Some(source) = &invocation.source {
                return Err(conflict_message(source).to_owned());
            }
            invocation.source = Some(SourceArg::Stdin);
            index = index + 1;
            continue;
        }
        let text = match &args[index] {
            Some(text) => text.clone(),
            None => return Err("expression must be valid UTF-8".to_owned()),
        };
        if let Some(source) = &invocation.source {
            return Err(conflict_message(source).to_owned());
        }
        invocation.source = Some(SourceArg::Inline(text));
        index = index + 1;
    }
    Ok(invocation)
}

/// The request an argument list makes: help, version or the interactive
/// loop when the flag is the only argument, otherwise the evaluation of
/// exactly one source.
pub fn request(args: &Vec<Option<String>>) -> (result: Result<Request, String>)
    ensures
        match request_of(args_view(args@)) {
            Ok(v) => result matches Ok(r) && r@ == v,
            Err(m) => result is Err && result->Err_0@ == m,
        },
{
    if args.len() == 1 && (is_flag(args, 0, "-h") || is_flag(args, 0, "--help")) {
        return Ok(Request::Help);
    }
    if args.len() == 1 && (is_flag(args, 0, "-V") || is_flag(args, 0, "--version")) {
        return Ok(Request::Version);
    }
    if args.len() == 1 && is_flag(args, 0, "--repl") {
        return Ok(Request::Repl);
    }
    let invocation = parse_invocation(args)?;
    let limits = match invocation.input_limit {
        Some(bytes) => Limits { max_input_bytes: bytes },
        None => Limits { max_input_bytes: DEFAULT_MAX_INPUT_BYTES },
    };
    match invocation.source {
        Some(source) => Ok(Request::Evaluate { source, limits, positions: invocation.positions, json: invocation.json }),
        None => Err("expected exactly one expression argument".to_owned()),
    }
}

/// How an error is reported: its message, followed with `positions` by
/// `\n at line L, column C` when it has a position.
pub fn format_error(error: &Error, positions: bool) -> (text: String)
    ensures
        text@ == error_text(error@, positions),
{
    match error.position() {
        Some(p) => {
            if !positions {
                return error.message().to_owned();
            }
            let mut chars: Vec<char> = Vec::new();
            push_str(&mut chars, error.message());
            push_str(&mut chars, "\n at line ");
            push_usize_text(&mut chars, p.line);
            push_str(&mut chars, ", column ");
            push_usize_text(&mut chars, p.column);
            string_from_chars(chars.as_slice())
        },
        None => error.message().to_owned(),
    }
}

/// Evaluates a source under the given limits, reporting an error as
/// [`format_error`] does.
pub fn evaluate_source(source: &str, limits: &Limits, positions: bool) -> (result: Result<Value, String>)
    ensures
        match run_within(source@, source.len() as nat, limits.max_input_bytes as nat) {
            Ok(v) => result matches Ok(value) && value@ == v,
            Err(e) => result is Err && result->Err_0@ == error_text(e, positions),
        },
{
    match evaluate_with_limits(source, limits) {
        Ok(value) => Ok(value),
        Err(error) => Err(format_error(&error, positions)),
    }
}

fn hex(d: u32) -> (c: char)
    requires
        d < 16,
    ensures
        c == hex_digit(d as nat),
{
    if d < 10 {
        ((48 + d) as u8) as char
    } else {
        ((87 + d) as u8) as char
    }
}

/// Appends one character as it stands inside a JSON string.
fn push_json_char(out: &mut Vec<char>, c: char)
    ensures
        final(out)@ == old(out)@ + json_char(c),
{
    let ghost before = out@;
    if c == '"' {
        out.push('\\');
        out.push('"');
    } else if c == '\\' {
        out.push('\\');
        out.push('\\');
    } else if c == '\n' {
        out.push('\\');
        out.push('n');
    } else if c == '\t' {
        out.push('\\');
        out.push('t');
    } else if c == '\r' {
        out.push('\\');
        out.push('r');
    } else if (c as u32) < 32 {
        let code = c as u32;
        out.push('\\');
        out.push('u');
        out.push('0');
        out.push('0');
        out.push(hex(code / 16));
        out.push(hex(code % 16));
    } else {
        out.push(c);
    }
    assert(out@ =~= before + json_char(c));
}

/// Appends a text as a JSON string.
fn push_json_string(out: &mut Vec<char>, text: &str)
    ensures
        final(out)@ == old(out)@ + json_string(text@),
{
    let chars = str_chars(text);
    let ghost start = out@;
    out.push('"');
    let mut i: usize = 0;
    while i < chars.len()
        invariant
            i <= chars@.len(),
            chars@ == text@,
            out@ == start + seq!['"'] + json_escape(chars@.subrange(0, i as int)),
        decreases chars@.len() - i,
    {
        let ghost prefix = chars@.subrange(0, i + 1);
        assert(prefix.drop_last() =~= chars@.subrange(0, i as int));
        push_json_char(out, chars[i]);
        assert(json_escape(prefix) == json_escape(chars@.subrange(0, i as int)) + json_char(chars@[i as int]));
        i = i + 1;
    }
    out.push('"');
    assert(chars@.subrange(0, i as int) =~= text@);
    assert(out@ =~= start + json_string(text@));
}

/// The JSON document reporting an evaluation.
pub fn json_document_of(result: &Result<Value, Error>) -> (document: String)
    ensures
        document@ == json_document(crate::result_view(*result)),
{
    let mut out: Vec<char> = Vec::new();
    match result {
        Ok(value) => {
            push_str(&mut out, "{\"ok\":true,\"value\":");
            match value {
                Value::Int(n) => push_int_text(&mut out, *n),
                Value::Bool(b) => push_str(&mut out, if *b { "true" } else { "false" }),
                Value::String(text) => push_json_string(&mut out, text.as_str()),
            }
            push_str(&mut out, ",\"type\":\"");
            let kind = match value {
                Value::Int(_) => Type::Int,
                Value::Bool(_) => Type::Bool,
                Value::String(_) => Type::String,
            };
            push_str(&mut out, kind.name());
            push_str(&mut out, "\"}");
        },
        Err(error) => {
            push_str(&mut out, "{\"ok\":false,\"error\":");
            push_json_string(&mut out, error.message());
            let ghost middle = out@;
            if let Some(p) = error.position() {
                push_str(&mut out, ",\"line\":");
                push_usize_text(&mut out, p.line);
                push_str(&mut out, ",\"column\":");
                push_usize_text(&mut out, p.column);
            }
            push_str(&mut out, "}");
        },
    }
    string_from_chars(out.as_slice())
}

/// Whether an interactive session succeeded: it must have read at least one
/// program.
pub fn session_succeeded(programs: usize) -> (ok: bool)
    ensures
        ok == (programs > 0),
{
    programs > 0
}

} // verus!
