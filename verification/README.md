# oas3_gen

The orchestration of a Rust code generator for OpenAPI documents, verified with Verus.

- `src/document.rs`, `src/entry_map.rs`, `src/id_set.rs`: what is used of `oas3`, `indexmap` and
  the standard library's hash sets.
- `src/operation_filter.rs`, `src/registration.rs`, `src/operation_source.rs`,
  `src/operation_registry.rs`: which operations of a document are generated, and under which ids.
- `src/backend.rs`: the interface to the schema registry, the converters and the code writer, which
  are not part of this crate. Each method is one step of a run.
- `src/conversion.rs`, `src/orchestrator.rs`: the conversion of schemas and operations, and the
  generation of files and modules over a backend. Their contracts relate what a run returns to what
  the backend answered, call by call.
- `src/statistics.rs`, `src/report.rs`: the counts and warnings of a run.
- `src/laws.rs`, `src/repeated_runs.rs`: what holds across these functions, the second over a
  backend that always answers a question the same way.
- `app/`: console output, `anyhow` errors and `http` types.
