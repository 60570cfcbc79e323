# pg_trickle

The logic of stream tables for PostgreSQL: materialized views that are kept up
to date from the changes of their sources.  The library decides and writes SQL;
it never talks to a server.  Every function in `src/` has a contract that Verus
proves.

## Layout

- `src/sql_builder.rs`, `src/text.rs`, `src/lexical.rs`, `src/text_map.rs`:
  quoting, text, numbers, and a map from texts to texts.
- `src/error.rs`: errors, their kinds, and retries.
- `src/graph.rs`, `src/dag.rs`, `src/schedule.rs`: the dependency graph, the
  order of refreshes, cycles, and schedules that follow from those downstream.
- `src/dvm/`: operator trees and their deltas.  `parser.rs` has the trees,
  `diff.rs` the chain of common table expressions, `operators/` one module for
  each operator, and `engine.rs` the differentiation of a whole tree.
  `chain.rs` and `shape.rs` prove what holds of every tree.
- `src/cdc.rs`, `src/wal_decoder.rs`: capture of changes by triggers and from
  the write-ahead log.
- `src/catalog.rs`, `src/hooks.rs`, `src/monitor.rs`, `src/refresh/`,
  `src/scheduler/`, `src/shmem.rs`, `src/api/`: records of the catalog,
  reactions to changes of the schema, alerts, clean-up, quotas, and reports.
- `src/tui/`: what the terminal client does with what it polls.
- `app/`: the extension and the client around the library.
- `tests/`: tests of the compiled library.

## How contracts are stated

Generated SQL is stated as a concatenation of literals and slots, so a contract
gives the text of a statement character by character.  Differentiation is stated
as a function from settings and a state to a state and a delta; a context is seen
as the pair of them.

What is not proved is what standard functions and `serde_json` return: how a text
looks in upper case or in `Debug` form, how a value of JSON is printed, and that
cloning a shared pointer keeps what it points to.  Each stands behind one function marked
`external_body`, or an `assume_specification`.
