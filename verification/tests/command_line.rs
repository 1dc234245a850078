use rusty_buggy_language::cli::{
    evaluate_source, format_error, json_document_of, parse_invocation, parse_size, request, session_succeeded,
    Request, SourceArg,
};
use rusty_buggy_language::{evaluate, Error, Limits, SourcePosition, Value, DEFAULT_MAX_INPUT_BYTES};

fn arguments(texts: &[&str]) -> Vec<Option<String>> {
    texts.iter().map(|text| Some((*text).to_owned())).collect()
}

fn request_error(texts: &[&str]) -> String {
    match request(&arguments(texts)) {
        Err(message) => message,
        Ok(_) => panic!("request accepted: {texts:?}"),
    }
}

#[test]
fn help_version_and_repl_are_recognized_only_alone() {
    assert!(matches!(request(&arguments(&["-h"])), Ok(Request::Help)));
    assert!(matches!(request(&arguments(&["--help"])), Ok(Request::Help)));
    assert!(matches!(request(&arguments(&["-V"])), Ok(Request::Version)));
    assert!(matches!(request(&arguments(&["--version"])), Ok(Request::Version)));
    assert!(matches!(request(&arguments(&["--repl"])), Ok(Request::Repl)));
    assert_eq!(request_error(&["--help", "1"]), "expected exactly one expression argument");
    assert_eq!(request_error(&["-V", "1"]), "expected exactly one expression argument");
}

#[test]
fn a_source_is_required_and_unique() {
    assert_eq!(request_error(&[]), "expected exactly one expression argument");
    assert_eq!(request_error(&["1", "2"]), "expected exactly one expression argument");
    assert_eq!(request_error(&["--positions"]), "expected exactly one expression argument");
}

#[test]
fn file_mode_requires_a_path_and_excludes_other_sources() {
    assert_eq!(request_error(&["-f"]), "missing file path after -f/--file");
    assert_eq!(request_error(&["--file"]), "missing file path after -f/--file");
    assert_eq!(
        request_error(&["-f", "a.rbl", "1"]),
        "-f/--file accepts exactly one path and cannot be combined with additional arguments"
    );
    assert_eq!(request_error(&["1", "--file", "a.rbl"]), "expected exactly one expression argument");
    match request(&arguments(&["--positions", "-f", "-"])) {
        Ok(Request::Evaluate { source, positions, .. }) => {
            assert_eq!(source, SourceArg::File(2));
            assert!(positions);
        }
        _ => panic!("file request expected"),
    }
}

#[test]
fn stdin_mode_excludes_other_sources() {
    assert_eq!(request_error(&["--stdin", "1"]), "--stdin cannot be combined with additional arguments");
    assert_eq!(request_error(&["--stdin", "--stdin"]), "--stdin cannot be combined with additional arguments");
    match request(&arguments(&["--stdin"])) {
        Ok(Request::Evaluate { source, limits, positions, json }) => {
            assert_eq!(source, SourceArg::Stdin);
            assert_eq!(limits.max_input_bytes, DEFAULT_MAX_INPUT_BYTES);
            assert!(!positions);
            assert!(!json);
        }
        _ => panic!("stdin request expected"),
    }
}

#[test]
fn input_limit_takes_a_size() {
    match request(&arguments(&["--input-limit", "100", "1 + 2"])) {
        Ok(Request::Evaluate { source, limits, .. }) => {
            assert_eq!(source, SourceArg::Inline("1 + 2".to_owned()));
            assert_eq!(limits, Limits { max_input_bytes: 100 });
        }
        _ => panic!("evaluation request expected"),
    }
    assert_eq!(request_error(&["1", "--input-limit"]), "missing value after --input-limit");
    assert_eq!(request_error(&["--input-limit", "ten", "1"]), "invalid --input-limit value: 'ten'");
    assert_eq!(request_error(&["--input-limit", "-1", "1"]), "invalid --input-limit value: '-1'");
    let mut texts = arguments(&["--input-limit", "x", "1"]);
    texts[1] = None;
    assert_eq!(request(&texts).err(), Some("--input-limit value must be valid UTF-8".to_owned()));
}

#[test]
fn an_inline_program_must_be_text() {
    let texts = vec![None];
    assert_eq!(request(&texts).err(), Some("expression must be valid UTF-8".to_owned()));
}

#[test]
fn json_and_positions_flags_are_options() {
    let invocation = parse_invocation(&arguments(&["--json", "--positions", "1"])).unwrap();
    assert!(invocation.json);
    assert!(invocation.positions);
    assert_eq!(invocation.input_limit, None);
    assert_eq!(invocation.source, Some(SourceArg::Inline("1".to_owned())));
}

#[test]
fn sizes_follow_the_unsigned_integer_grammar() {
    assert_eq!(parse_size("0"), Some(0));
    assert_eq!(parse_size("1048576"), Some(1048576));
    assert_eq!(parse_size("+7"), Some(7));
    assert_eq!(parse_size("007"), Some(7));
    assert_eq!(parse_size(""), None);
    assert_eq!(parse_size("+"), None);
    assert_eq!(parse_size("-0"), None);
    assert_eq!(parse_size(" 1"), None);
    assert_eq!(parse_size("1.5"), None);
    assert_eq!(parse_size("99999999999999999999999"), None);
}

#[test]
fn errors_are_formatted_with_optional_positions() {
    let error = evaluate("8 / (3 - 3)").unwrap_err();
    assert_eq!(format_error(&error, false), "division by zero");
    assert_eq!(format_error(&error, true), "division by zero\n at line 1, column 3");
    let unpositioned = Error::new("program is too large to evaluate".to_owned());
    assert_eq!(format_error(&unpositioned, true), "program is too large to evaluate");
}

#[test]
fn sources_are_evaluated_under_the_given_limits() {
    let limits = Limits { max_input_bytes: 5 };
    assert_eq!(evaluate_source("1 + 2", &limits, false), Ok(Value::Int(3)));
    assert_eq!(
        evaluate_source("1 + 2 + 3", &limits, true),
        Err("program is too large to evaluate".to_owned())
    );
    assert_eq!(
        evaluate_source("let x = 1;\nx / 0", &Limits::default(), true),
        Err("division by zero\n at line 2, column 3".to_owned())
    );
}

#[test]
fn results_are_reported_as_json_documents() {
    assert_eq!(json_document_of(&evaluate("6 * 7")), "{\"ok\":true,\"value\":42,\"type\":\"integer\"}");
    assert_eq!(json_document_of(&evaluate("-5")), "{\"ok\":true,\"value\":-5,\"type\":\"integer\"}");
    assert_eq!(json_document_of(&evaluate("1 < 2")), "{\"ok\":true,\"value\":true,\"type\":\"boolean\"}");
    assert_eq!(
        json_document_of(&evaluate(r#""say \"hi\"\n\tand \\ done""#)),
        "{\"ok\":true,\"value\":\"say \\\"hi\\\"\\n\\tand \\\\ done\",\"type\":\"string\"}"
    );
    assert_eq!(
        json_document_of(&Ok(Value::String("bell\u{7}é".to_owned()))),
        "{\"ok\":true,\"value\":\"bell\\u0007é\",\"type\":\"string\"}"
    );
    assert_eq!(
        json_document_of(&evaluate("8 / (3 - 3)")),
        "{\"ok\":false,\"error\":\"division by zero\",\"line\":1,\"column\":3}"
    );
    assert_eq!(
        json_document_of(&evaluate("")),
        "{\"ok\":false,\"error\":\"expression is empty\"}"
    );
    assert_eq!(
        json_document_of(&evaluate("missing")),
        "{\"ok\":false,\"error\":\"undefined variable: 'missing'\",\"line\":1,\"column\":1}"
    );
}

#[test]
fn a_session_succeeds_once_it_has_read_a_program() {
    assert!(!session_succeeded(0));
    assert!(session_succeeded(1));
    assert!(session_succeeded(12));
}

#[test]
fn error_positions_are_exposed() {
    let error = evaluate("1 +\n  true").unwrap_err();
    assert_eq!(error.position(), Some(SourcePosition { line: 1, column: 3 }));
    assert_eq!(error.message(), "type mismatch in '+': expected two integers or two strings, found integer and boolean");
}
