# rac

A front end and tree-walking interpreter for Amy, a small functional language, written in
Verus: every stage of the pipeline is executable Rust whose behaviour is stated by a contract
and proved.

## Layout

- `src/diagnostics.rs`, `src/diagnostics/render.rs`: spans, stages and reports, and the text
  that shows a report against its source (line numbers, the offending range between `!!`
  marks, the lines around it).
- `src/parser/`: tokens and the lexer (`tokeniter.rs`), the grammar as spec functions
  (`grammar.rs`), and the recursive-descent parser that agrees with it (`pattern.rs`,
  `expr.rs`, `definition.rs`).
- `src/ast/`: the nominal and symbolic trees, their models, the scoped environment, and the
  pretty-printer (`show.rs`).
- `src/name_analyzer/`: name resolution; `rules.rs` states it as spec functions, `mod.rs` and
  `program.rs` carry it out.
- `src/typecheck/`: constraint collection and unification, and the check that a resolved
  program is one the checker can read (`wellformed.rs`).
- `src/interpreter/`: values, the standard functions over a modelled console, and the
  evaluator, specified by a big-step semantics with a depth budget.
- `src/text.rs`: decimal rendering and string helpers.
- `app/main.rs`: the command-line driver (`--tokens`, `--parse`, `--resolve`, `--typecheck`,
  `--interpret`, `--help`): it reads the files and standard input and prints what the library
  computes.
- `tests/`: tests of each stage on concrete programs.

The only trusted item is the wrapper of `std::str::from_utf8` in `src/text.rs`.
