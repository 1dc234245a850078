use rusty_buggy_language::lexer::{Lexer, TokenKind};
use rusty_buggy_language::SourcePosition;
fn kinds(input: &str) -> Vec<TokenKind> {
    Lexer::new(input)
        .tokenize()
        .unwrap()
        .iter()
        .map(|token| token.kind.clone())
        .collect()
}

#[test]
fn tokenizes_the_language_symbols_and_identifiers() {
    let tokens = Lexer::new("let _value2 = 1 <= 2 != 3;").tokenize();
    let kinds: Vec<TokenKind> = tokens
        .as_ref()
        .unwrap()
        .iter()
        .map(|token| token.kind.clone())
        .collect();

    assert_eq!(
        kinds,
        vec![
            TokenKind::Let,
            TokenKind::Identifier("_value2".to_owned()),
            TokenKind::Equals,
            TokenKind::Integer(1),
            TokenKind::LessThanOrEqual,
            TokenKind::Integer(2),
            TokenKind::NotEqual,
            TokenKind::Integer(3),
            TokenKind::Semicolon,
        ]
    );
}

#[test]
fn tokenizes_the_v2_keywords() {
    assert_eq!(
        kinds("let if else true false"),
        vec![
            TokenKind::Let,
            TokenKind::If,
            TokenKind::Else,
            TokenKind::True,
            TokenKind::False,
        ]
    );
}

#[test]
fn keywords_are_not_identifiers() {
    // Longer names that merely start with a keyword stay identifiers.
    assert_eq!(
        kinds("letter iffy elsewise truthful"),
        vec![
            TokenKind::Identifier("letter".to_owned()),
            TokenKind::Identifier("iffy".to_owned()),
            TokenKind::Identifier("elsewise".to_owned()),
            TokenKind::Identifier("truthful".to_owned()),
        ]
    );
}

#[test]
fn tokenizes_bang_and_logical_operators() {
    assert_eq!(
        kinds("!true && false || true"),
        vec![
            TokenKind::Bang,
            TokenKind::True,
            TokenKind::AndAnd,
            TokenKind::False,
            TokenKind::OrOr,
            TokenKind::True,
        ]
    );
}

#[test]
fn tokenizes_braces() {
    assert_eq!(
        kinds("{ }"),
        vec![TokenKind::LeftBrace, TokenKind::RightBrace]
    );
}

#[test]
fn rejects_lone_ampersand_and_pipe() {
    let error = Lexer::new("1 & 2").tokenize().unwrap_err();
    assert_eq!(error.to_string(), "unexpected character '&'");
    assert_eq!(
        error.position(),
        Some(SourcePosition { line: 1, column: 3 })
    );

    let error = Lexer::new("1 | 2").tokenize().unwrap_err();
    assert_eq!(error.to_string(), "unexpected character '|'");
    assert_eq!(
        error.position(),
        Some(SourcePosition { line: 1, column: 3 })
    );
}

#[test]
fn tokenizes_string_literals_with_escapes() {
    assert_eq!(
        kinds(r#""hello""#),
        vec![TokenKind::String("hello".to_owned())]
    );
    assert_eq!(kinds(r#""""#), vec![TokenKind::String(String::new())]);
    assert_eq!(
        kinds(r#""a\nb\tc\\d\"e""#),
        vec![TokenKind::String("a\nb\tc\\d\"e".to_owned())]
    );
}

#[test]
fn string_literals_keep_their_opening_position() {
    let tokens = Lexer::new("let s = \"hi\"; s").tokenize().unwrap();

    assert_eq!(tokens[3].position, SourcePosition { line: 1, column: 9 });
}

#[test]
fn rejects_unterminated_string_literals_at_the_opening_quote() {
    let error = Lexer::new("1 + \"oops").tokenize().unwrap_err();
    assert_eq!(error.to_string(), "unterminated string literal");
    assert_eq!(
        error.position(),
        Some(SourcePosition { line: 1, column: 5 })
    );
}

#[test]
fn rejects_raw_newlines_inside_string_literals() {
    let error = Lexer::new("\"first\nsecond\"").tokenize().unwrap_err();
    assert_eq!(error.to_string(), "unterminated string literal");
    assert_eq!(
        error.position(),
        Some(SourcePosition { line: 1, column: 1 })
    );
}

#[test]
fn rejects_invalid_escape_sequences_at_the_escape_character() {
    let error = Lexer::new(r#""a\x""#).tokenize().unwrap_err();
    assert_eq!(
        error.to_string(),
        "invalid escape sequence in string literal"
    );
    assert_eq!(
        error.position(),
        Some(SourcePosition { line: 1, column: 4 })
    );
}

#[test]
fn tracks_line_and_column_positions_across_multiple_lines() {
    let tokens = Lexer::new("let a = 1;\n  a + 2").tokenize().unwrap();

    // 'let' at line 1, column 1
    assert_eq!(tokens[0].position, SourcePosition { line: 1, column: 1 });
    // 'a' at line 1, column 5
    assert_eq!(tokens[1].position, SourcePosition { line: 1, column: 5 });
    // 'a' after newline at line 2, column 3
    assert_eq!(tokens[5].position, SourcePosition { line: 2, column: 3 });
    // '+' at line 2, column 5
    assert_eq!(tokens[6].position, SourcePosition { line: 2, column: 5 });
    // '2' at line 2, column 7
    assert_eq!(tokens[7].position, SourcePosition { line: 2, column: 7 });
}

#[test]
fn lexer_rejects_invalid_characters() {
    assert_eq!(
        Lexer::new("1 @ 2").tokenize().unwrap_err().to_string(),
        "unexpected character '@'"
    );
}

#[test]
fn reports_the_position_of_an_invalid_character() {
    let error = Lexer::new("1 + @ 2").tokenize().unwrap_err();
    // '@' is at line 1, column 5 (1-based).
    assert_eq!(
        error.position(),
        Some(SourcePosition { line: 1, column: 5 })
    );
    assert_eq!(error.to_string(), "unexpected character '@'");
}

#[test]
fn lexer_rejects_out_of_range_literals() {
    assert_eq!(
        Lexer::new("18446744073709551616")
            .tokenize()
            .unwrap_err()
            .to_string(),
        "integer literal out of range"
    );
}

#[test]
fn skips_line_comments_without_emitting_tokens() {
    let tokens = Lexer::new("1 + 2 // trailing comment").tokenize().unwrap();
    let kinds: Vec<TokenKind> = tokens.iter().map(|token| token.kind.clone()).collect();

    assert_eq!(
        kinds,
        vec![
            TokenKind::Integer(1),
            TokenKind::Plus,
            TokenKind::Integer(2)
        ]
    );
}

#[test]
fn line_comments_end_at_the_newline_and_positions_stay_correct() {
    let tokens = Lexer::new("1 + // note\n  2").tokenize().unwrap();

    // The '2' after the comment sits at line 2, column 3.
    assert_eq!(tokens[2].position, SourcePosition { line: 2, column: 3 });
}

#[test]
fn line_comments_run_to_the_end_of_the_input() {
    let tokens = Lexer::new("1 + 2 // no trailing newline")
        .tokenize()
        .unwrap();

    assert_eq!(tokens.len(), 3);
}

#[test]
fn skips_block_comments_including_empty_and_multiline_ones() {
    for input in [
        "1 /* comment */ + 2",
        "1/**/+2",
        "1 /*\nmulti\nline\n*/ + 2",
    ] {
        let tokens = Lexer::new(input).tokenize().unwrap();
        let kinds: Vec<TokenKind> = tokens.iter().map(|token| token.kind.clone()).collect();

        assert_eq!(
            kinds,
            vec![
                TokenKind::Integer(1),
                TokenKind::Plus,
                TokenKind::Integer(2)
            ],
            "input: {input}"
        );
    }
}

#[test]
fn block_comment_newlines_advance_line_and_column_tracking() {
    let tokens = Lexer::new("1 /* first\nsecond */ + 2").tokenize().unwrap();

    // The '+' after the block comment is at line 2, column 11.
    assert_eq!(
        tokens[1].position,
        SourcePosition {
            line: 2,
            column: 11
        }
    );
}

#[test]
fn block_comments_do_not_nest() {
    let tokens = Lexer::new("/* /* */ 1").tokenize().unwrap();

    assert_eq!(tokens.len(), 1);
    assert_eq!(tokens[0].kind, TokenKind::Integer(1));
}

#[test]
fn rejects_unterminated_block_comments_with_the_opening_position() {
    let error = Lexer::new("1 + /* oops").tokenize().unwrap_err();

    assert_eq!(error.to_string(), "unterminated block comment");
    assert_eq!(
        error.position(),
        Some(SourcePosition { line: 1, column: 5 })
    );
}

#[test]
fn rejects_unterminated_block_comments_on_later_lines() {
    let error = Lexer::new("1 + 2\n/* never closed").tokenize().unwrap_err();

    assert_eq!(error.to_string(), "unterminated block comment");
    assert_eq!(
        error.position(),
        Some(SourcePosition { line: 2, column: 1 })
    );
}

#[test]
fn tokenizes_the_percent_operator() {
    let tokens = Lexer::new("1 % 2").tokenize().unwrap();
    let kinds: Vec<TokenKind> = tokens.iter().map(|token| token.kind.clone()).collect();

    assert_eq!(
        kinds,
        vec![
            TokenKind::Integer(1),
            TokenKind::Percent,
            TokenKind::Integer(2)
        ]
    );
}

#[test]
fn a_single_slash_remains_the_division_operator() {
    let tokens = Lexer::new("8 / 2").tokenize().unwrap();
    let kinds: Vec<TokenKind> = tokens.iter().map(|token| token.kind.clone()).collect();

    assert_eq!(
        kinds,
        vec![
            TokenKind::Integer(8),
            TokenKind::Slash,
            TokenKind::Integer(2)
        ]
    );
}

#[test]
fn slash_followed_by_space_and_star_is_not_a_comment() {
    let tokens = Lexer::new("1 / * 2").tokenize().unwrap();
    let kinds: Vec<TokenKind> = tokens.iter().map(|token| token.kind.clone()).collect();

    assert_eq!(
        kinds,
        vec![
            TokenKind::Integer(1),
            TokenKind::Slash,
            TokenKind::Star,
            TokenKind::Integer(2),
        ]
    );
}


fn error_text(input: &str) -> String {
    Lexer::new(input).tokenize().unwrap_err().message().to_owned()
}

#[test]
fn leading_comments_and_whitespace_leave_token_kinds_and_errors_unchanged() {
    for program in ["let a = 1; a * (2 + 3)", "\"text\" == \"te\" + \"xt\"", "fn f(x) = { x }; f(1) <= 2"] {
        for prefix in ["// note\n", "/* note */", "/***/", "/* a * / b */", " ", "\n", "\t"] {
            let combined = format!("{prefix}{program}");
            assert_eq!(kinds(&combined), kinds(program));
        }
    }
    for broken in ["1 & 2", "\"open", "99999999999999999999", "1 @ 2"] {
        for prefix in ["// note\n", "/* note */", " "] {
            let combined = format!("{prefix}{broken}");
            assert_eq!(error_text(&combined), error_text(broken));
        }
    }
}

#[test]
fn tokens_come_in_reading_order() {
    let tokens = Lexer::new("let a = 1;\n  /* c */ a +\n\t\"s\" // x\n!= 2").tokenize().unwrap();
    for token in &tokens {
        assert!(token.position.line >= 1 && token.position.column >= 1);
    }
    for pair in tokens.windows(2) {
        let (a, b) = (pair[0].position, pair[1].position);
        assert!(a.line < b.line || (a.line == b.line && a.column < b.column));
    }
}
