# sql_optimizer_labs

A SQL plan optimizer built on e-graphs, with its core proved correct by Verus.

## Layout

- `src/` — the verified library.
  - `value.rs`: SQL values, three-valued logic, arithmetic, and the display
    and parse format (`null`, `false`, `1`, `'string'`), with the laws that
    relate them.
  - `language.rs`: the plan language (expression, aggregate and plan nodes).
  - `column_set.rs`, `plan.rs`: the column-set analysis, the helpers behind
    projection pushdown (`column-merge`, `column-prune`) and the rewrite-rule
    tables.
  - `agg.rs`, `agg_extractor.rs`: the aggregate analysis and the extraction of
    aggregates from a SELECT statement, as a state machine that asks the
    e-graph for what it needs.
  - `analysis.rs`: the combined e-class analysis.
  - `bench.rs`, `rule_counts.rs`, `cli.rs`, `query_spec.rs`, `text.rs`: the
    plan statistics, rule rankings, command line and query-specification
    format of the TPC-H evaluation.
- `app/` — the evaluation program: the egg language and analysis over the
  library, the rewrite rules as egg rewrites, timing, file I/O and reports.
- `tests/` — tests of the library on concrete values.
