//! Character-level helpers shared by the lexer, the evaluator and the
//! command-line logic: conversions between strings and characters, decimal
//! rendering and parsing of integers, and lexicographic ordering.

use vstd::prelude::*;

verus! {

/// Trusted: std's `String::push` appends the character `ch` to the end of
/// the string, so the string's characters gain `ch` as their last.
pub assume_specification[ std::string::String::push ](s: &mut std::string::String, ch: char)
    ensures
        final(s)@ == old(s)@.push(ch),
;

/// Builds a `String` holding exactly the given characters.
pub(crate) fn string_from_chars(chars: &[char]) -> (text: String)
    ensures
        text@ == chars@,
{
    let mut text = String::new();
    let mut i: usize = 0;
    while i < chars.len()
        invariant
            i <= chars@.len(),
            text@ == chars@.take(i as int),
        decreases chars@.len() - i,
    {
        text.push(chars[i]);
        assert(chars@.take(i as int + 1) =~= chars@.take(i as int).push(chars@[i as int]));
        i = i + 1;
    }
    assert(chars@.take(chars@.len() as int) =~= chars@);
    text
}

/// The characters of a string slice, in order.
pub fn str_chars(text: &str) -> (chars: Vec<char>)
    ensures
        chars@ == text@,
{
    let mut chars: Vec<char> = Vec::new();
    for c in it: text.chars()
        invariant
            chars@ == it.seq().take(it.index() as int),
            it.seq() == text@,
    {
        chars.push(c);
    }
    chars
}

/// Whether two string slices hold the same characters.
pub fn str_eq(a: &str, b: &str) -> (same: bool)
    ensures
        same == (a@ == b@),
{
    let x = str_chars(a);
    let y = str_chars(b);
    same_chars(x.as_slice(), y.as_slice())
}

/// Appends the characters of `text` to `out`.
pub fn push_str(out: &mut Vec<char>, text: &str)
    ensures
        final(out)@ == old(out)@ + text@,
{
    let chars = str_chars(text);
    let ghost start = out@;
    let mut i: usize = 0;
    while i < chars.len()
        invariant
            i <= chars@.len(),
            chars@ == text@,
            out@ == start + chars@.take(i as int),
        decreases chars@.len() - i,
    {
        out.push(chars[i]);
        i = i + 1;
        assert(chars@.take(i as int) == chars@.take((i - 1) as int).push(chars@[i - 1]));
    }
    assert(chars@.take(i as int) == chars@);
}


/// The ASCII digit character for a value below ten.
pub open spec fn digit_char(d: nat) -> char {
    (48 + d) as char
}

/// Whether `c` is an ASCII decimal digit.
pub open spec fn is_digit(c: char) -> bool {
    '0' <= c && c <= '9'
}

/// The numeric value of an ASCII digit character.
pub open spec fn digit_value(c: char) -> nat {
    ((c as int) - 48) as nat
}

/// The decimal text of a natural number, most significant digit first.
pub open spec fn decimal(n: nat) -> Seq<char>
    decreases n,
{
    if n < 10 {
        seq![digit_char(n)]
    } else {
        decimal(n / 10).push(digit_char(n % 10))
    }
}

/// The decimal text of an integer: a leading `-` for negative values.
pub open spec fn int_text(n: int) -> Seq<char> {
    if n < 0 {
        seq!['-'] + decimal((-n) as nat)
    } else {
        decimal(n as nat)
    }
}

/// Whether every character of `s` is an ASCII digit.
pub open spec fn all_digits(s: Seq<char>) -> bool {
    forall|i: int| 0 <= i < s.len() ==> #[trigger] is_digit(s[i])
}

/// The value of a run of decimal digits, most significant first.
pub open spec fn digits_value(s: Seq<char>) -> nat
    decreases s.len(),
{
    if s.len() == 0 {
        0
    } else {
        digits_value(s.drop_last()) * 10 + digit_value(s.last())
    }
}

/// The integer denoted by `text` under the strict integer grammar: an
/// optional leading `-` followed by one or more ASCII digits (no sign `+`,
/// no whitespace), whose value fits in a signed 64-bit integer.
pub open spec fn parse_int_text(text: Seq<char>) -> Option<i64> {
    let negative = text.len() > 0 && text[0] == '-';
    let digits = if negative { text.drop_first() } else { text };
    if digits.len() == 0 || !all_digits(digits) {
        None
    } else {
        let value = if negative { -(digits_value(digits) as int) } else { digits_value(digits) as int };
        if i64::MIN <= value && value <= i64::MAX {
            Some(value as i64)
        } else {
            None
        }
    }
}

/// Appends the decimal digits of `n` to `out`.
pub fn push_decimal(out: &mut Vec<char>, n: u64)
    ensures
        final(out)@ == old(out)@ + decimal(n as nat),
    decreases n,
{
    if n >= 10 {
        push_decimal(out, n / 10);
    }
    let d: u8 = (n % 10) as u8;
    let c: char = (48u8 + d) as char;
    out.push(c);
    assert(c == digit_char((n % 10) as nat));
    if n >= 10 {
        assert(decimal(n as nat) == decimal((n / 10) as nat).push(digit_char((n % 10) as nat)));
    }
}

/// Appends the decimal text of a signed 64-bit integer to `out`.
pub fn push_int_text(out: &mut Vec<char>, n: i64)
    ensures
        final(out)@ == old(out)@ + int_text(n as int),
{
    if n < 0 {
        out.push('-');
        let magnitude: u64 = (-(n as i128)) as u64;
        push_decimal(out, magnitude);
    } else {
        push_decimal(out, n as u64);
    }
}

/// Appends the decimal text of an unsigned size to `out`.
pub fn push_usize_text(out: &mut Vec<char>, n: usize)
    ensures
        final(out)@ == old(out)@ + decimal(n as nat),
{
    push_decimal(out, n as u64);
}

proof fn lemma_digits_value_prefix_grows(s: Seq<char>, i: int)
    requires
        0 <= i <= s.len(),
    ensures
        digits_value(s.take(i)) <= digits_value(s),
    decreases s.len() - i,
{
    if i < s.len() {
        lemma_digits_value_prefix_grows(s, i + 1);
        assert(s.take(i + 1).drop_last() == s.take(i));
    } else {
        assert(s.take(i) == s);
    }
}

/// Parses `text` under the strict integer grammar.
pub fn parse_int(text: &[char]) -> (value: Option<i64>)
    ensures
        value == parse_int_text(text@),
{
    let negative = text.len() > 0 && text[0] == '-';
    let start: usize = if negative { 1 } else { 0 };
    let ghost digits = if negative { text@.drop_first() } else { text@ };
    if start == text.len() {
        return None;
    }
    let limit: u64 = 9223372036854775808;
    let mut acc: u64 = 0;
    let mut i: usize = start;
    while i < text.len()
        invariant
            start <= i <= text@.len(),
            start < text@.len(),
            digits == text@.subrange(start as int, text@.len() as int),
            all_digits(text@.subrange(start as int, i as int)),
            acc as nat == digits_value(text@.subrange(start as int, i as int)),
            acc <= limit,
            limit == 9223372036854775808u64,
            negative == (text@.len() > 0 && text@[0] == '-'),
            start == (if negative { 1usize } else { 0usize }),
            digits == (if negative { text@.drop_first() } else { text@ }),
        decreases text@.len() - i,
    {
        let c = text[i];
        if !('0' <= c && c <= '9') {
            assert(!is_digit(digits[i - start]));
            return None;
        }
        let d: u64 = (c as u32 - 48) as u64;
        assert(text@.subrange(start as int, i + 1).drop_last() == text@.subrange(start as int, i as int));
        if acc > (limit - d) / 10 {
            proof {
                assert(digits_value(text@.subrange(start as int, i + 1)) > limit) by (nonlinear_arith)
                    requires
                        digits_value(text@.subrange(start as int, i + 1)) == acc * 10 + d,
                        acc > (limit - d) / 10,
                        d <= 9,
                        limit == 9223372036854775808u64,
                ;
                assert(text@.subrange(start as int, i + 1) == digits.take(i + 1 - start));
                lemma_digits_value_prefix_grows(digits, i + 1 - start);
                if all_digits(digits) {
                    assert(digits_value(digits) > limit);
                }
            }
            return None;
        }
        acc = acc * 10 + d;
        i = i + 1;
        assert forall|k: int| 0 <= k < text@.subrange(start as int, i as int).len()
            implies #[trigger] is_digit(text@.subrange(start as int, i as int)[k]) by {
            if k < i - 1 - start {
                assert(text@.subrange(start as int, i as int)[k] == text@.subrange(start as int, i - 1)[k]);
            }
        }
    }
    assert(text@.subrange(start as int, i as int) == digits);
    if negative {
        if acc == limit {
            Some(-9223372036854775807i64 - 1)
        } else {
            Some(-(acc as i64))
        }
    } else if acc == limit {
        None
    } else {
        Some(acc as i64)
    }
}

/// Whether `a` orders strictly before `b`, comparing characters from index
/// `i` on by code point.
pub open spec fn chars_less_from(a: Seq<char>, b: Seq<char>, i: nat) -> bool
    decreases a.len() - i,
{
    if i >= a.len() {
        i < b.len()
    } else if i >= b.len() {
        false
    } else if a[i as int] != b[i as int] {
        (a[i as int] as u32) < (b[i as int] as u32)
    } else {
        chars_less_from(a, b, i + 1)
    }
}

/// Lexicographic order of character sequences by code point (the order of
/// Rust's `str` comparison).
pub open spec fn chars_less(a: Seq<char>, b: Seq<char>) -> bool {
    chars_less_from(a, b, 0)
}

/// Whether `a` orders strictly before `b`.
pub fn less_chars(a: &[char], b: &[char]) -> (less: bool)
    ensures
        less == chars_less(a@, b@),
{
    let mut i: usize = 0;
    while i < a.len() && i < b.len()
        invariant
            i <= a@.len(),
            i <= b@.len(),
            chars_less(a@, b@) == chars_less_from(a@, b@, i as nat),
        decreases a@.len() - i,
    {
        if a[i] != b[i] {
            return (a[i] as u32) < (b[i] as u32);
        }
        i = i + 1;
    }
    i < b.len() && i >= a.len()
}

/// Whether two character slices are equal.
pub fn same_chars(a: &[char], b: &[char]) -> (same: bool)
    ensures
        same == (a@ == b@),
{
    if a.len() != b.len() {
        return false;
    }
    let mut i: usize = 0;
    while i < a.len()
        invariant
            i <= a@.len(),
            a@.len() == b@.len(),
            a@.take(i as int) == b@.take(i as int),
        decreases a@.len() - i,
    {
        if a[i] != b[i] {
            assert(a@[i as int] != b@[i as int]);
            return false;
        }
        i = i + 1;
        assert(a@.take(i as int) == a@.take(i - 1).push(a@[i - 1]));
        assert(b@.take(i as int) == b@.take(i - 1).push(b@[i - 1]));
    }
    assert(a@.take(i as int) == a@);
    assert(b@.take(i as int) == b@);
    true
}

proof fn lemma_decimal(n: nat)
    ensures
        decimal(n).len() >= 1,
        all_digits(decimal(n)),
        digits_value(decimal(n)) == n,
    decreases n,
{
    let c = digit_char(n % 10);
    assert(c as int == 48 + n % 10);
    assert(is_digit(c));
    assert(digit_value(c) == n % 10);
    if n >= 10 {
        lemma_decimal(n / 10);
        let s = decimal(n);
        assert(s.drop_last() == decimal(n / 10));
        assert(s.last() == c);
        assert((n / 10) * 10 + n % 10 == n) by (nonlinear_arith);
        assert(digits_value(s) == digits_value(decimal(n / 10)) * 10 + digit_value(c));
        assert forall|i: int| 0 <= i < s.len() implies #[trigger] is_digit(s[i]) by {
            if i < s.len() - 1 {
                assert(s[i] == decimal(n / 10)[i]);
            }
        }
    } else {
        assert(decimal(n).drop_last().len() == 0);
        assert(digits_value(decimal(n).drop_last()) == 0);
        assert(decimal(n).last() == c);
        assert(n % 10 == n);
    }
}

/// Rendering an integer as decimal text and parsing that text back gives the
/// integer again (`string_to_int(int_to_string(n)) == n`).
pub proof fn lemma_int_text_round_trip(n: i64)
    ensures
        parse_int_text(int_text(n as int)) == Some(n),
{
    if n < 0 {
        let m = (-(n as int)) as nat;
        lemma_decimal(m);
        let t = int_text(n as int);
        assert(t.drop_first() == decimal(m));
    } else {
        lemma_decimal(n as nat);
        let d = decimal(n as nat);
        assert(is_digit(d[0]));
    }
}

} // verus!
