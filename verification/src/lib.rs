//! Orchestration of Rust code generation from an OpenAPI document: which operations of the
//! document are generated and under which ids, in which order schemas and operations are
//! converted, and what is reported about a run.
//!
//! The conversions themselves are supplied by a [`backend::GeneratorBackend`].

pub mod ast;
pub mod backend;
pub mod conversion;
pub mod document;
pub mod entry_map;
pub mod id_set;
pub mod laws;
pub mod operation_filter;
pub mod operation_registry;
pub mod operation_source;
pub mod orchestrator;
pub mod registration;
pub mod repeated_runs;
pub mod report;
pub mod statistics;
