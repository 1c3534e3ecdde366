# safe-migrate

A verified model of what a PostgreSQL catalog becomes while a chain of
migration statements runs against it.

* `src/state` holds the analysis state and one module per family of statements.
  `AnalysisState::apply` runs one mutation; its contract says which state and
  which answer every mutation leads to. Evidence records say where the model
  cannot be exact. Rolling back undoes what was done in a transaction or since a
  savepoint; only edges that the drop of an index or a constraint, or the
  detaching of a partition, removed do not come back.
* `src/graph.rs` is the dependency graph: renames, cascades and partitions.
* `src/resolver` turns parsed statements into mutations.
* `src/settings.rs`, `src/digits.rs`, `src/doubles.rs` read timeout settings, in
  the double precision that PostgreSQL takes them in.
* `src/expr_ir.rs`, `src/expr_visitor.rs` hold default and check expressions.
* `src/collections.rs`, `src/text.rs`, `src/reach.rs` are the foundations.

Public proof functions named `law_..` state what holds of the library as a
whole. `app/` reads the parser's syntax tree and holds serialisable copies of
the fact types.

`squawk-lexer` and `squawk-parser` are named in `Cargo.toml` only to hold them to
the version of `squawk-syntax`: it asks for no exact version of them, and later
ones need a newer compiler.
