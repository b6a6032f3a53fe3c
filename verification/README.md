# banshee_lint

Migration-safety linting for SQL, verified with Verus.

The library takes the syntax trees of a migration set and reports statements that lock
tables, destroy data, or pick a type that will need migrating later (`MG01` to `MG24`). With
`--breaking`, a run fails on backward-incompatible changes and on findings that the
configuration raises to errors; every other finding stays advisory.

## Layout

- `src/syntax.rs`: the syntax tree that the rules read.
- `src/text.rs`, `src/names.rs`, `src/types.rs`: texts, identifiers and column types.
- `src/history.rs`, `src/fresh.rs`, `src/transaction.rs`: what a rule knows of the statements
  around it: the type history of columns across the set, the tables that a file creates
  itself, and open transactions.
- `src/rule.rs`, `src/migration/`, `src/pack.rs`: the rules and the pack that they make up.
- `src/config.rs`: which rules report, how serious their findings are, and `--breaking`.
- `src/summary.rs`, `src/lint_cmd.rs`: what a run puts out, and its exit code.
- `src/laws/`: properties that hold across functions.
- `app/`: the subcommand around the library: arguments, files, and printing.
- `tests/`: the library on concrete statements.

## What is proved

Every function of the library has a contract that says what it returns. The contract of a
rule gives its findings, with message, range and fixes, as a function of the tree and the
column history. The laws say, among other things, that a type change is flagged unless it is
a provable safe widening, that a table that a file creates itself is exempt until it is
dropped, undone or no longer certain to go by its name, that no configuration hides a breaking
change from `--breaking`, and that suggested edits stay inside the range of their finding.

Two contracts are taken on trust: `String::push` of the standard library, and the empty range
of `text_size`.
