//! What orchestration is given: the schema graph of a document, the conversions, and the writing
//! of source code. Each method is one step; which steps are taken, in which order and on what, is
//! decided in [`crate::conversion`] and [`crate::orchestrator`].

use crate::ast::{OperationInfo, RustType};
use crate::operation_registry::OperationRegistry;
use crate::registration::{OperationEntry, OperationNaming};
use crate::report::GenerationWarning;
use oas3::spec::{Info, Server};
use oas3::Spec;
use std::collections::{BTreeSet, HashMap};
use vstd::prelude::*;

verus! {

/// How enum values that differ in case alone become variants.
#[derive(Debug, Clone, Copy, PartialEq, Eq, Structural)]
pub enum EnumCasePolicy {
    Preserve,
    Deduplicate,
}

/// Whether enums get helper methods.
#[derive(Debug, Clone, Copy, PartialEq, Eq, Structural)]
pub enum EnumHelperPolicy {
    Generate,
    Disable,
}

/// Whether enum values are read without regard to case.
#[derive(Debug, Clone, Copy, PartialEq, Eq, Structural)]
pub enum EnumDeserializePolicy {
    CaseSensitive,
    CaseInsensitive,
}

/// Whether OData conventions are followed.
#[derive(Debug, Clone, Copy, PartialEq, Eq, Structural)]
pub enum ODataPolicy {
    Enabled,
    Disabled,
}

/// How schemas and operations are converted.
#[derive(Debug)]
pub struct CodegenConfig {
    pub enum_case: EnumCasePolicy,
    pub enum_helpers: EnumHelperPolicy,
    pub enum_deserialize: EnumDeserializePolicy,
    pub odata: ODataPolicy,
    pub customizations: HashMap<String, String>,
}

/// A schema of a document.
#[derive(Debug)]
pub struct ObjectSchema<S> {
    /// How many enum values the schema lists.
    pub enum_values: usize,
    pub definition: S,
}

/// A name that the schema graph lists, with the schema that is found under it.
#[derive(Debug)]
pub struct SchemaKey<S> {
    pub name: String,
    pub schema: Option<ObjectSchema<S>>,
}

/// The schemas of a document, as they are loaded.
#[derive(Debug)]
pub struct LoadedSchemas<G> {
    pub graph: G,
    pub warnings: Vec<GenerationWarning>,
}

/// The names that a scan of the schemas gives.
#[derive(Debug)]
pub struct NameScan<N, E> {
    /// The names of types.
    pub names: N,
    /// The names of enums.
    pub enum_names: E,
}

/// What an operation is converted to.
#[derive(Debug)]
pub struct ConvertedOperation<D, O> {
    pub types: Vec<RustType<D>>,
    pub operation_info: OperationInfo<O>,
}

/// The conversions and the code generator that a run is orchestrated over.
pub trait GeneratorBackend: OperationNaming {
    /// How visible generated items are.
    type Visibility;

    /// The schemas of a document and the dependencies among them.
    type Graph;

    /// The definition of a schema.
    type Schema;

    /// The names of types that a scan of the schemas gives.
    type Names;

    /// The names of enums that a scan of the schemas gives.
    type EnumNames;

    /// The types that are made while schemas and operations are converted.
    type Cache;

    /// What is known while schemas and operations are converted.
    type Context;

    /// The definition of a generated item.
    type Definition;

    /// What the code generator needs to know of an operation.
    type OperationDetail;

    /// Records which types are used in requests and which in responses.
    type Recorder;

    /// Which types are used in requests and which in responses.
    type UsageMap;

    /// The client that is generated.
    type Client;

    /// The lints that a generated file sets.
    type Lints;

    /// Generated code, before it is laid out as source.
    type Tokens;

    /// Why a step failed.
    type Error;

    /// Loads the schemas of a document.
    fn from_spec(&self, spec: Spec) -> LoadedSchemas<Self::Graph>;

    /// The graph with the dependencies among its schemas.
    fn build_dependencies(&self, graph: Self::Graph) -> Self::Graph;

    /// The cycles among the dependencies, each as the names of its schemas.
    fn detect_cycles(&self, graph: &Self::Graph) -> Vec<Vec<String>>;

    /// The names of the schemas that the registered operations reach.
    fn reachable(&self, graph: &Self::Graph, registry: &OperationRegistry) -> BTreeSet<String>;

    /// The names that the graph lists.
    fn keys(&self, graph: &Self::Graph) -> Vec<String>;

    /// Whether the graph holds a schema under the name.
    fn contains(&self, graph: &Self::Graph, schema_name: &str) -> bool;

    /// The schema that the graph holds under the name.
    fn get(&self, graph: &Self::Graph, schema_name: &str) -> Option<ObjectSchema<Self::Schema>>;

    /// Scans the schemas for the names of the types that they become.
    fn scan_and_compute_names(&self, graph: &Self::Graph) -> Result<
        NameScan<Self::Names, Self::EnumNames>,
        Self::Error,
    >;

    /// A scan without names.
    fn no_names(&self) -> NameScan<Self::Names, Self::EnumNames>;

    /// An empty cache.
    fn new_cache(&self) -> Self::Cache;

    /// The cache with names that are fixed from the start.
    fn set_precomputed_names(
        &self,
        cache: Self::Cache,
        names: Self::Names,
        enum_names: Self::EnumNames,
    ) -> Self::Cache;

    /// Prepares the conversion of schemas and operations.
    fn new_context(
        &self,
        graph: &Self::Graph,
        config: CodegenConfig,
        cache: Self::Cache,
        reachable: Option<&BTreeSet<String>>,
    ) -> Self::Context;

    /// Makes a schema known before any is converted, unless that fails.
    fn register_schema(
        &self,
        context: Self::Context,
        schema: &ObjectSchema<Self::Schema>,
        schema_name: &str,
    ) -> (Self::Context, Result<(), Self::Error>);

    /// Converts a schema.
    fn convert_schema(
        &self,
        context: Self::Context,
        schema_name: &str,
        schema: &ObjectSchema<Self::Schema>,
    ) -> (Self::Context, Result<Vec<RustType<Self::Definition>>, Self::Error>);

    /// A recorder without records.
    fn new_recorder(&self) -> Self::Recorder;

    /// Converts an operation.
    fn convert_operation(
        &self,
        context: Self::Context,
        recorder: Self::Recorder,
        entry: &OperationEntry,
    ) -> (
        Self::Context,
        Self::Recorder,
        Result<ConvertedOperation<Self::Definition, Self::OperationDetail>, Self::Error>,
    );

    /// An error in words.
    fn error_text(&self, error: &Self::Error) -> String;

    /// The cache as the conversions leave it.
    fn take_cache(&self, context: Self::Context) -> Self::Cache;

    /// The types that a cache holds.
    fn into_types(&self, cache: Self::Cache) -> Vec<RustType<Self::Definition>>;

    /// What a recorder has recorded.
    fn into_usage_map(&self, recorder: Self::Recorder) -> Self::UsageMap;

    /// Adjusts types and operations to the use of types.
    fn analyze(
        &self,
        rust_types: Vec<RustType<Self::Definition>>,
        operations_info: Vec<OperationInfo<Self::OperationDetail>>,
        usage: Self::UsageMap,
    ) -> (Vec<RustType<Self::Definition>>, Vec<OperationInfo<Self::OperationDetail>>);

    /// A client under the given name.
    fn define_client(&self, name: String, info: &Info, servers: &Vec<Server>) -> Self::Client;

    /// The lints that are set where nothing else is asked for.
    fn default_lints(&self) -> Self::Lints;

    /// The code of the types.
    fn type_tokens(
        &self,
        rust_types: &Vec<RustType<Self::Definition>>,
        visibility: &Self::Visibility,
    ) -> Self::Tokens;

    /// The code of the client, which imports the types where `types_import` is set.
    fn client_tokens(
        &self,
        client: &Self::Client,
        operations_info: &Vec<OperationInfo<Self::OperationDetail>>,
        rust_types: &Vec<RustType<Self::Definition>>,
        visibility: &Self::Visibility,
        types_import: bool,
    ) -> Self::Tokens;

    /// Lays code out as the source of a file.
    fn generate_source(
        &self,
        tokens: &Self::Tokens,
        client: &Self::Client,
        lints: Option<&Self::Lints>,
        source_path: &str,
        version: &str,
    ) -> Result<String, Self::Error>;

    /// The source of a file that holds the types.
    fn generate_file(
        &self,
        rust_types: &Vec<RustType<Self::Definition>>,
        visibility: &Self::Visibility,
        client: &Self::Client,
        lints: &Self::Lints,
        source_path: &str,
        version: &str,
    ) -> Result<String, Self::Error>;

    /// The source of the root file of a module.
    fn generate_mod_file(
        &self,
        client: &Self::Client,
        visibility: &Self::Visibility,
        source_path: &str,
        version: &str,
    ) -> Result<String, Self::Error>;
}

} // verus!
