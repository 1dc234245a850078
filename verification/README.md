# rusty_buggy_language

A small expression language over 64-bit integers, booleans and strings, with
immutable `let` bindings, `if`/`else` blocks, built-in conversions and
functions whose types are inferred, written in Verus and proved against a
mathematical specification of every stage.

## Layout

- `src/lexer.rs`, `src/parser.rs`, `src/typecheck.rs`, `src/evaluator.rs`:
  the executable pipeline. Each stage is proved equal to a spec function:
  `lex` (in `lexer.rs`), `parse_program` (`parser_spec.rs`),
  `resolve_program` / `check_program` (`typecheck_spec.rs`) and
  `eval_program` (`semantics.rs`).
- `src/lib.rs`: `evaluate` and `evaluate_with_limits`, whose results are
  exactly `run_within` of the program text.
- `src/expression.rs`: the integer calculator `expression::evaluate`.
- `src/cli.rs`: argument handling, error formatting and JSON documents of
  the command-line program, as verified functions on plain values.
- `src/laws.rs`, `src/lex_laws.rs`, `src/parse_laws.rs`,
  `src/inference_laws.rs`, `src/type_safety.rs`: properties of the language
  proved for all inputs.
- `app/main.rs`: the command-line program itself (reading files and standard
  input, printing).
- `tests/`: scenarios run against the compiled library.
