# venus_compiler

The front end of VenusScript — scanner, two parsers and two semantic
analyzers — and the float-free rules of its evaluator, written in Verus with
their contracts proved.

Layout:

- `src/lexer` — tokens (`token.rs`), the lexical rules as spec functions
  (`rules.rs`: one scanning step, `scan_step`, and the whole input, `scan_run`),
  the scanner that follows them (`scanner.rs`), and the law that a comment at
  the end of a source adds no tokens (`comments.rs`).
- `src/parser`, `src/venus_parser` — the AST of each language level with its
  view, the grammar as spec functions over the token sequence (`*_at`), and the
  recursive-descent parsers proved to compute exactly what the grammar gives,
  error messages included.
- `src/analyzer`, `src/venus_analyzer` — scopes, type compatibility and the
  analyzers as state transformers over spec functions (`visit_*`), with laws on
  scoping and reported mismatches; `analyzer/eval.rs` holds the evaluator's
  rules that do not touch floating point (integer, boolean and string
  operations, member and native-call tables, indexing, buffers, branches).
- `src/text.rs` — text helpers and the few calls into `std` whose results are
  named or stated in contracts.
- `app/` — the command-line program: reading files, printing reports and the
  evaluator itself, whose values hold floats and shared environments.
- `tests/` — the library's tests, run against the compiled crate: the
  scanner (`lexer.rs`), the two parsers (`parser.rs`, `crate_parser.rs`), the
  two analyzers (`analyzer.rs`, `crate_analyzer.rs`), the evaluator's rules
  (`eval_rules.rs`) and error reports (`report.rs`).
