//! A minimal integer calculator: `+ - * /` over decimal literals with
//! parentheses, precedence, left associativity, and checked 64-bit
//! arithmetic. Errors are plain messages.

use vstd::prelude::*;

use crate::text::{digit_value, is_digit, push_str, str_chars, string_from_chars};
use crate::semantics::{lemma_division_matches, trunc_div};

verus! {

/// A token of the calculator.
#[derive(Debug, Clone, Copy, PartialEq, Eq, Structural)]
pub enum Tok {
    Integer(i64),
    Plus,
    Minus,
    Star,
    Slash,
    LeftParen,
    RightParen,
}

/// An arithmetic operator.
#[derive(Debug, Clone, Copy, PartialEq, Eq, Structural)]
pub enum Op {
    Add,
    Subtract,
    Multiply,
    Divide,
}

/// A calculator expression.
#[derive(Debug, PartialEq)]
pub enum Calc {
    Literal(i64),
    Binary { operator: Op, left: Box<Calc>, right: Box<Calc> },
}

/// ASCII whitespace: space, tab, line feed, form feed, carriage return.
pub open spec fn is_ascii_space(c: char) -> bool {
    c == ' ' || c == '\t' || c == '\n' || c == '\x0C' || c == '\r'
}

/// The token of a one-character operator or parenthesis.
pub open spec fn symbol_token(c: char) -> Option<Tok> {
    if c == '+' {
        Some(Tok::Plus)
    } else if c == '-' {
        Some(Tok::Minus)
    } else if c == '*' {
        Some(Tok::Star)
    } else if c == '/' {
        Some(Tok::Slash)
    } else if c == '(' {
        Some(Tok::LeftParen)
    } else if c == ')' {
        Some(Tok::RightParen)
    } else {
        None
    }
}

/// The digits of a literal from index `i` on, accumulated onto `value`,
/// and the index after them.
pub open spec fn calc_literal(cs: Seq<char>, i: nat, value: i64) -> Result<(i64, nat), Seq<char>>
    decreases cs.len() - i,
{
    if i < cs.len() && is_digit(cs[i as int]) {
        let next = value * 10 + digit_value(cs[i as int]);
        if next > i64::MAX {
            Err("integer literal out of range"@)
        } else {
            calc_literal(cs, i + 1, next as i64)
        }
    } else {
        Ok((value, i))
    }
}

/// The tokens of `cs` from index `i` on, after the tokens `acc`.
pub open spec fn calc_tokens(cs: Seq<char>, i: nat, acc: Seq<Tok>) -> Result<Seq<Tok>, Seq<char>>
    decreases cs.len() - i,
{
    if i >= cs.len() {
        Ok(acc)
    } else {
        let c = cs[i as int];
        if is_ascii_space(c) {
            calc_tokens(cs, i + 1, acc)
        } else if is_digit(c) {
            match calc_literal(cs, i, 0) {
                Err(e) => Err(e),
                Ok((value, next)) => if next <= i || next > cs.len() {
                    Err(Seq::empty())
                } else {
                    calc_tokens(cs, next, acc.push(Tok::Integer(value)))
                },
            }
        } else {
            match symbol_token(c) {
                Some(t) => calc_tokens(cs, i + 1, acc.push(t)),
                None => Err("unexpected character '"@ + seq![c] + "'"@),
            }
        }
    }
}

pub type CalcParsed = Result<(Calc, nat), Seq<char>>;

/// `additive ::= multiplicative (("+" | "-") multiplicative)*`
pub open spec fn calc_additive(ts: Seq<Tok>, pos: nat) -> CalcParsed
    decreases ts.len() - pos, 5nat,
{
    match calc_multiplicative(ts, pos) {
        Err(e) => Err(e),
        Ok((left, p1)) => if p1 < pos || p1 > ts.len() { Err(Seq::empty()) } else { calc_additive_rest(ts, left, p1) },
    }
}

pub open spec fn calc_additive_rest(ts: Seq<Tok>, left: Calc, pos: nat) -> CalcParsed
    decreases ts.len() - pos, 4nat,
{
    let operator = if pos < ts.len() && ts[pos as int] == Tok::Plus {
        Some(Op::Add)
    } else if pos < ts.len() && ts[pos as int] == Tok::Minus {
        Some(Op::Subtract)
    } else {
        None
    };
    match operator {
        None => Ok((left, pos)),
        Some(operator) => match calc_multiplicative(ts, pos + 1) {
            Err(e) => Err(e),
            Ok((right, p2)) => if p2 < pos + 1 || p2 > ts.len() {
                Err(Seq::empty())
            } else {
                calc_additive_rest(ts, Calc::Binary { operator, left: Box::new(left), right: Box::new(right) }, p2)
            },
        },
    }
}

/// `multiplicative ::= primary (("*" | "/") primary)*`
pub open spec fn calc_multiplicative(ts: Seq<Tok>, pos: nat) -> CalcParsed
    decreases ts.len() - pos, 3nat,
{
    match calc_primary(ts, pos) {
        Err(e) => Err(e),
        Ok((left, p1)) => if p1 < pos || p1 > ts.len() { Err(Seq::empty()) } else { calc_multiplicative_rest(ts, left, p1) },
    }
}

pub open spec fn calc_multiplicative_rest(ts: Seq<Tok>, left: Calc, pos: nat) -> CalcParsed
    decreases ts.len() - pos, 2nat,
{
    let operator = if pos < ts.len() && ts[pos as int] == Tok::Star {
        Some(Op::Multiply)
    } else if pos < ts.len() && ts[pos as int] == Tok::Slash {
        Some(Op::Divide)
    } else {
        None
    };
    match operator {
        None => Ok((left, pos)),
        Some(operator) => match calc_primary(ts, pos + 1) {
            Err(e) => Err(e),
            Ok((right, p2)) => if p2 < pos + 1 || p2 > ts.len() {
                Err(Seq::empty())
            } else {
                calc_multiplicative_rest(ts, Calc::Binary { operator, left: Box::new(left), right: Box::new(right) }, p2)
            },
        },
    }
}

/// `primary ::= integer | "(" additive ")"`
pub open spec fn calc_primary(ts: Seq<Tok>, pos: nat) -> CalcParsed
    decreases ts.len() - pos, 1nat,
{
    if pos >= ts.len() {
        Err("expected an expression"@)
    } else {
        match ts[pos as int] {
            Tok::Integer(value) => Ok((Calc::Literal(value), pos + 1)),
            Tok::LeftParen => match calc_additive(ts, pos + 1) {
                Err(e) => Err(e),
                Ok((inner, p2)) => if p2 < ts.len() && ts[p2 as int] == Tok::RightParen {
                    Ok((inner, p2 + 1))
                } else {
                    Err("unmatched '('"@)
                },
            },
            Tok::RightParen => Err("unexpected ')'"@),
            _ => Err("expected an expression"@),
        }
    }
}

/// How a token is named in error messages.
pub open spec fn tok_name(t: Tok) -> Seq<char> {
    match t {
        Tok::Integer(_) => "integer literal"@,
        Tok::Plus => "'+'"@,
        Tok::Minus => "'-'"@,
        Tok::Star => "'*'"@,
        Tok::Slash => "'/'"@,
        Tok::LeftParen => "'('"@,
        Tok::RightParen => "')'"@,
    }
}

/// A whole token list as one expression.
pub open spec fn calc_parse(ts: Seq<Tok>) -> Result<Calc, Seq<char>> {
    if ts.len() == 0 {
        Err("expression is empty"@)
    } else {
        match calc_additive(ts, 0) {
            Err(e) => Err(e),
            Ok((expression, p)) => if p >= ts.len() {
                Ok(expression)
            } else if ts[p as int] == Tok::RightParen {
                Err("unmatched ')'"@)
            } else {
                Err("unexpected trailing token: "@ + tok_name(ts[p as int]))
            },
        }
    }
}

/// An integer result, or `message` when it does not fit in 64 bits.
pub open spec fn calc_checked(n: int, message: Seq<char>) -> Result<i64, Seq<char>> {
    if i64::MIN <= n <= i64::MAX { Ok(n as i64) } else { Err(message) }
}

/// The value of an expression under checked arithmetic; division truncates
/// toward zero.
pub open spec fn calc_value(e: Calc) -> Result<i64, Seq<char>>
    decreases e,
{
    match e {
        Calc::Literal(value) => Ok(value),
        Calc::Binary { operator, left, right } => match calc_value(*left) {
            Err(m) => Err(m),
            Ok(a) => match calc_value(*right) {
                Err(m) => Err(m),
                Ok(b) => match operator {
                    Op::Add => calc_checked(a + b, "integer addition overflow"@),
                    Op::Subtract => calc_checked(a - b, "integer subtraction overflow"@),
                    Op::Multiply => calc_checked(a * b, "integer multiplication overflow"@),
                    Op::Divide => if b == 0 {
                        Err("division by zero"@)
                    } else {
                        calc_checked(trunc_div(a as int, b as int), "integer division overflow"@)
                    },
                },
            },
        },
    }
}

/// What a calculator input evaluates to.
pub open spec fn calculate(cs: Seq<char>) -> Result<i64, Seq<char>> {
    match calc_tokens(cs, 0, Seq::empty()) {
        Err(m) => Err(m),
        Ok(ts) => match calc_parse(ts) {
            Err(m) => Err(m),
            Ok(e) => calc_value(e),
        },
    }
}

fn is_space(c: char) -> (b: bool)
    ensures
        b == is_ascii_space(c),
{
    c == ' ' || c == '\t' || c == '\n' || c == '\x0C' || c == '\r'
}

fn symbol(c: char) -> (t: Option<Tok>)
    ensures
        t == symbol_token(c),
{
    if c == '+' {
        Some(Tok::Plus)
    } else if c == '-' {
        Some(Tok::Minus)
    } else if c == '*' {
        Some(Tok::Star)
    } else if c == '/' {
        Some(Tok::Slash)
    } else if c == '(' {
        Some(Tok::LeftParen)
    } else if c == ')' {
        Some(Tok::RightParen)
    } else {
        None
    }
}

/// Reads the decimal literal starting at `start`.
fn read_literal(cs: &Vec<char>, start: usize) -> (result: Result<(i64, usize), String>)
    requires
        start < cs@.len(),
        is_digit(cs@[start as int]),
    ensures
        match calc_literal(cs@, start as nat, 0) {
            Ok((value, next)) => result matches Ok((v, n)) && v == value && n as nat == next && start < n <= cs@.len(),
            Err(m) => result is Err && result->Err_0@ == m,
        },
{
    let mut value: i64 = 0;
    let mut i: usize = start;
    while i < cs.len() && ('0' <= cs[i] && cs[i] <= '9')
        invariant
            start <= i <= cs@.len(),
            i > start ==> value >= 0,
            i == start ==> value == 0,
            calc_literal(cs@, start as nat, 0) == calc_literal(cs@, i as nat, value),
        decreases cs@.len() - i,
    {
        let digit: i64 = ((cs[i] as u32) - 48) as i64;
        assert(digit == digit_value(cs@[i as int]));
        if value > (9223372036854775807i64 - digit) / 10 {
            assert(value * 10 + digit > i64::MAX) by (nonlinear_arith)
                requires
                    value > (9223372036854775807i64 - digit) / 10,
                    0 <= digit <= 9,
            ;
            return Err("integer literal out of range".to_owned());
        }
        assert(value * 10 + digit <= i64::MAX) by (nonlinear_arith)
            requires
                value <= (9223372036854775807i64 - digit) / 10,
                0 <= digit <= 9,
                value >= 0,
        ;
        value = value * 10 + digit;
        i = i + 1;
    }
    Ok((value, i))
}

/// The tokens of the input characters.
fn tokenize(cs: &Vec<char>) -> (result: Result<Vec<Tok>, String>)
    ensures
        match calc_tokens(cs@, 0, Seq::empty()) {
            Ok(ts) => result matches Ok(v) && v@ == ts,
            Err(m) => result is Err && result->Err_0@ == m,
        },
{
    let mut tokens: Vec<Tok> = Vec::new();
    let mut i: usize = 0;
    while i < cs.len()
        invariant
            i <= cs@.len(),
            calc_tokens(cs@, 0, Seq::empty()) == calc_tokens(cs@, i as nat, tokens@),
        decreases cs@.len() - i,
    {
        let c = cs[i];
        if is_space(c) {
            i = i + 1;
        } else if '0' <= c && c <= '9' {
            let (value, next) = read_literal(cs, i)?;
            tokens.push(Tok::Integer(value));
            i = next;
        } else {
            match symbol(c) {
                Some(t) => {
                    tokens.push(t);
                    i = i + 1;
                },
                None => {
                    let text = seq_to_message(c);
                    return Err(text);
                },
            }
        }
    }
    Ok(tokens)
}

/// `unexpected character '<c>'`.
fn seq_to_message(c: char) -> (message: String)
    ensures
        message@ == "unexpected character '"@ + seq![c] + "'"@,
{
    let mut chars: Vec<char> = Vec::new();
    push_str(&mut chars, "unexpected character '");
    chars.push(c);
    push_str(&mut chars, "'");
    assert(chars@ =~= "unexpected character '"@ + seq![c] + "'"@);
    string_from_chars(chars.as_slice())
}

/// The outcome of reading a phrase, against its specification.
pub open spec fn calc_outcome(result: Result<Calc, String>, spec: CalcParsed, after: nat) -> bool {
    match spec {
        Ok((e, p)) => result matches Ok(r) && r == e && after == p,
        Err(m) => result is Err && result->Err_0@ == m,
    }
}

fn additive_operator(ts: &Vec<Tok>, pos: usize) -> (operator: Option<Op>)
    ensures
        operator == (if pos < ts@.len() && ts@[pos as int] == Tok::Plus {
            Some(Op::Add)
        } else if pos < ts@.len() && ts@[pos as int] == Tok::Minus {
            Some(Op::Subtract)
        } else {
            None
        }),
{
    if pos < ts.len() && ts[pos] == Tok::Plus {
        Some(Op::Add)
    } else if pos < ts.len() && ts[pos] == Tok::Minus {
        Some(Op::Subtract)
    } else {
        None
    }
}

fn multiplicative_operator(ts: &Vec<Tok>, pos: usize) -> (operator: Option<Op>)
    ensures
        operator == (if pos < ts@.len() && ts@[pos as int] == Tok::Star {
            Some(Op::Multiply)
        } else if pos < ts@.len() && ts@[pos as int] == Tok::Slash {
            Some(Op::Divide)
        } else {
            None
        }),
{
    if pos < ts.len() && ts[pos] == Tok::Star {
        Some(Op::Multiply)
    } else if pos < ts.len() && ts[pos] == Tok::Slash {
        Some(Op::Divide)
    } else {
        None
    }
}

fn parse_additive(ts: &Vec<Tok>, pos: &mut usize) -> (result: Result<Calc, String>)
    requires
        *old(pos) <= ts@.len(),
    ensures
        *old(pos) <= *final(pos) <= ts@.len(),
        calc_outcome(result, calc_additive(ts@, *old(pos) as nat), *final(pos) as nat),
    decreases ts@.len() - *old(pos), 5nat,
{
    let mut expression = parse_multiplicative(ts, pos)?;
    let count = ts.len();
    loop
        invariant
            count == ts@.len(),
            *old(pos) <= *pos <= ts@.len(),
            calc_additive(ts@, *old(pos) as nat) == calc_additive_rest(ts@, expression, *pos as nat),
        decreases ts@.len() - *pos,
    {
        let operator = match additive_operator(ts, *pos) {
            Some(operator) => operator,
            None => return Ok(expression),
        };
        assert(*pos < ts@.len());
        *pos = *pos + 1;
        let right = parse_multiplicative(ts, pos)?;
        expression = Calc::Binary { operator, left: Box::new(expression), right: Box::new(right) };
    }
}

fn parse_multiplicative(ts: &Vec<Tok>, pos: &mut usize) -> (result: Result<Calc, String>)
    requires
        *old(pos) <= ts@.len(),
    ensures
        *old(pos) <= *final(pos) <= ts@.len(),
        calc_outcome(result, calc_multiplicative(ts@, *old(pos) as nat), *final(pos) as nat),
    decreases ts@.len() - *old(pos), 3nat,
{
    let mut expression = parse_primary(ts, pos)?;
    let count = ts.len();
    loop
        invariant
            count == ts@.len(),
            *old(pos) <= *pos <= ts@.len(),
            calc_multiplicative(ts@, *old(pos) as nat) == calc_multiplicative_rest(ts@, expression, *pos as nat),
        decreases ts@.len() - *pos,
    {
        let operator = match multiplicative_operator(ts, *pos) {
            Some(operator) => operator,
            None => return Ok(expression),
        };
        assert(*pos < ts@.len());
        *pos = *pos + 1;
        let right = parse_primary(ts, pos)?;
        expression = Calc::Binary { operator, left: Box::new(expression), right: Box::new(right) };
    }
}

fn parse_primary(ts: &Vec<Tok>, pos: &mut usize) -> (result: Result<Calc, String>)
    requires
        *old(pos) <= ts@.len(),
    ensures
        *old(pos) <= *final(pos) <= ts@.len(),
        calc_outcome(result, calc_primary(ts@, *old(pos) as nat), *final(pos) as nat),
    decreases ts@.len() - *old(pos), 1nat,
{
    if *pos >= ts.len() {
        return Err("expected an expression".to_owned());
    }
    let token = ts[*pos];
    *pos = *pos + 1;
    match token {
        Tok::Integer(value) => Ok(Calc::Literal(value)),
        Tok::LeftParen => {
            let inner = parse_additive(ts, pos)?;
            if *pos < ts.len() && ts[*pos] == Tok::RightParen {
                *pos = *pos + 1;
                Ok(inner)
            } else {
                Err("unmatched '('".to_owned())
            }
        },
        Tok::RightParen => Err("unexpected ')'".to_owned()),
        _ => Err("expected an expression".to_owned()),
    }
}

fn token_name(t: Tok) -> (name: &'static str)
    ensures
        name@ == tok_name(t),
{
    match t {
        Tok::Integer(_) => "integer literal",
        Tok::Plus => "'+'",
        Tok::Minus => "'-'",
        Tok::Star => "'*'",
        Tok::Slash => "'/'",
        Tok::LeftParen => "'('",
        Tok::RightParen => "')'",
    }
}

/// Parses a whole token list as one expression.
fn parse(ts: &Vec<Tok>) -> (result: Result<Calc, String>)
    ensures
        match calc_parse(ts@) {
            Ok(e) => result matches Ok(r) && r == e,
            Err(m) => result is Err && result->Err_0@ == m,
        },
{
    if ts.len() == 0 {
        return Err("expression is empty".to_owned());
    }
    let mut pos: usize = 0;
    let expression = parse_additive(ts, &mut pos)?;
    if pos < ts.len() {
        if ts[pos] == Tok::RightParen {
            return Err("unmatched ')'".to_owned());
        }
        return Err("unexpected trailing token: ".to_owned().concat(token_name(ts[pos])));
    }
    Ok(expression)
}

/// The value of an expression under checked arithmetic.
fn value_of(e: &Calc) -> (result: Result<i64, String>)
    ensures
        match calc_value(*e) {
            Ok(v) => result == Ok::<i64, String>(v),
            Err(m) => result is Err && result->Err_0@ == m,
        },
    decreases e,
{
    match e {
        Calc::Literal(value) => Ok(*value),
        Calc::Binary { operator, left, right } => {
            let a = value_of(left)?;
            let b = value_of(right)?;
            match operator {
                Op::Add => match a.checked_add(b) {
                    Some(sum) => Ok(sum),
                    None => Err("integer addition overflow".to_owned()),
                },
                Op::Subtract => match a.checked_sub(b) {
                    Some(difference) => Ok(difference),
                    None => Err("integer subtraction overflow".to_owned()),
                },
                Op::Multiply => match a.checked_mul(b) {
                    Some(product) => Ok(product),
                    None => Err("integer multiplication overflow".to_owned()),
                },
                Op::Divide => {
                    if b == 0 {
                        return Err("division by zero".to_owned());
                    }
                    proof {
                        lemma_division_matches(a, b);
                    }
                    match a.checked_div(b) {
                        Some(quotient) => Ok(quotient),
                        None => Err("integer division overflow".to_owned()),
                    }
                },
            }
        },
    }
}

/// Evaluates an integer expression over `+ - * /` and parentheses.
pub fn evaluate(input: &str) -> (result: Result<i64, String>)
    ensures
        match calculate(input@) {
            Ok(v) => result == Ok::<i64, String>(v),
            Err(m) => result is Err && result->Err_0@ == m,
        },
{
    let cs = str_chars(input);
    let tokens = tokenize(&cs)?;
    let expression = parse(&tokens)?;
    value_of(&expression)
}

} // verus!
