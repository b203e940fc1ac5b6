//! Generation runs.

pub use crate::report::{ClientModOutput, GenerationStats, GenerationWarning};

use crate::ast::{OperationInfo, RustType};
use crate::backend::{
    CodegenConfig, EnumCasePolicy, EnumDeserializePolicy, EnumHelperPolicy, GeneratorBackend,
    LoadedSchemas, NameScan, ODataPolicy,
};
use crate::conversion::{
    all_schemas_converted, convert_all_operations, convert_all_schemas, operations_converted,
    OperationProgress, SchemaProgress,
};
use crate::document::{
    document_info, document_servers, document_title, spec_info, spec_servers, spec_title,
};
use crate::operation_registry::OperationRegistry;
use crate::registration::OperationEntryView;
use crate::statistics::{
    client_counted, collect_stats, count_client, count_orphaned, orphaned_count, stats_describe,
    text_of, warning_views,
};
use oas3::spec::Server;
use oas3::Spec;
use std::collections::{BTreeSet, HashMap, HashSet};
use vstd::prelude::*;

verus! {

/// The version of the generator, as generated files state it.
pub const OAS3_GEN_VERSION: &'static str = "0.1.0";

/// Generates code from one document.
#[derive(Debug)]
pub struct Orchestrator<B: GeneratorBackend> {
    pub spec: Spec,
    pub visibility: B::Visibility,
    pub include_unused_schemas: bool,
    pub operation_registry: OperationRegistry,
    pub odata_support: bool,
    pub preserve_case_variants: bool,
    pub case_insensitive_enums: bool,
    pub no_helpers: bool,
    pub customizations: HashMap<String, String>,
    pub backend: B,
}

/// What is generated, before the types are adjusted to their use.
pub struct GenerationArtifacts<B: GeneratorBackend> {
    pub rust_types: Vec<RustType<B::Definition>>,
    pub operations_info: Vec<OperationInfo<B::OperationDetail>>,
    pub usage_recorder: B::Recorder,
    pub stats: GenerationStats,
    /// The lines for the console.
    pub console: Vec<String>,
}

/// What source code is written from.
pub struct PreparedRun<B: GeneratorBackend> {
    pub client: B::Client,
    pub rust_types: Vec<RustType<B::Definition>>,
    pub operations_info: Vec<OperationInfo<B::OperationDetail>>,
    pub stats: GenerationStats,
    /// The lines for the console.
    pub console: Vec<String>,
}

/// What the backend answers while the artifacts of a run are collected.
pub struct CollectionTrace<B: GeneratorBackend> {
    pub loaded: LoadedSchemas<B::Graph>,
    pub graph: B::Graph,
    pub cycle_details: Vec<Vec<String>>,
    pub reachable: Option<BTreeSet<String>>,
    pub names: Vec<String>,
    pub config: CodegenConfig,
    pub scanned: Result<NameScan<B::Names, B::EnumNames>, B::Error>,
    pub precomputed: NameScan<B::Names, B::EnumNames>,
    pub empty: B::Cache,
    pub cache: B::Cache,
    pub opened: B::Context,
    pub schemas: SchemaProgress<B>,
    pub recorder: B::Recorder,
    pub operations: OperationProgress<B>,
    pub filled: B::Cache,
    pub cached: Vec<RustType<B::Definition>>,
}

impl<B: GeneratorBackend> CollectionTrace<B> {
    /// Whether the backend's answers give these artifacts: the types of the schemas, of the
    /// operations and those made on the way, in this order, and likewise the warnings.
    pub open spec fn yields(self, artifacts: GenerationArtifacts<B>) -> bool {
        &&& artifacts.rust_types@ == self.schemas.types + self.operations.types + self.cached@
        &&& artifacts.operations_info@ == self.operations.infos
        &&& artifacts.usage_recorder == self.operations.recorder
        &&& stats_describe(
            artifacts.stats,
            artifacts.rust_types@,
            artifacts.operations_info@,
            self.cycle_details,
            warning_views(self.loaded.warnings@) + self.schemas.warnings + self.operations.warnings,
            orphaned_count(
                self.names@.len(),
                match self.reachable {
                    Some(reachable) => Some(reachable.len() as nat),
                    None => None,
                },
            ),
        )
        &&& text_of(artifacts.console@) == self.schemas.console
    }
}

impl<B: GeneratorBackend> Orchestrator<B> {
    /// Whether a configuration says what the run was asked for.
    pub open spec fn configures(&self, config: CodegenConfig) -> bool {
        &&& config.enum_case == if self.preserve_case_variants {
            EnumCasePolicy::Preserve
        } else {
            EnumCasePolicy::Deduplicate
        }
        &&& config.enum_helpers == if self.no_helpers {
            EnumHelperPolicy::Disable
        } else {
            EnumHelperPolicy::Generate
        }
        &&& config.enum_deserialize == if self.case_insensitive_enums {
            EnumDeserializePolicy::CaseInsensitive
        } else {
            EnumDeserializePolicy::CaseSensitive
        }
        &&& config.odata == if self.odata_support {
            ODataPolicy::Enabled
        } else {
            ODataPolicy::Disabled
        }
        &&& config.customizations@ == self.customizations@
    }

    /// Whether the backend's answers can come about: each is given to the question that the run
    /// asks after the earlier ones.
    pub open spec fn traces(&self, trace: CollectionTrace<B>) -> bool {
        &&& call_ensures(B::from_spec, (&self.backend, self.spec), trace.loaded)
        &&& call_ensures(B::build_dependencies, (&self.backend, trace.loaded.graph), trace.graph)
        &&& call_ensures(B::detect_cycles, (&self.backend, &trace.graph), trace.cycle_details)
        &&& match trace.reachable {
            Some(reachable) => !self.include_unused_schemas && call_ensures(
                B::reachable,
                (&self.backend, &trace.graph, &self.operation_registry),
                reachable,
            ),
            None => self.include_unused_schemas,
        }
        &&& call_ensures(B::keys, (&self.backend, &trace.graph), trace.names)
        &&& self.configures(trace.config)
        &&& call_ensures(
            B::scan_and_compute_names,
            (&self.backend, &trace.graph),
            trace.scanned,
        )
        &&& match trace.scanned {
            Ok(names) => trace.precomputed == names,
            Err(_) => call_ensures(B::no_names, (&self.backend,), trace.precomputed),
        }
        &&& call_ensures(B::new_cache, (&self.backend,), trace.empty)
        &&& call_ensures(
            B::set_precomputed_names,
            (&self.backend, trace.empty, trace.precomputed.names, trace.precomputed.enum_names),
            trace.cache,
        )
        &&& call_ensures(
            B::new_context,
            (&self.backend, &trace.graph, trace.config, trace.cache, match trace.reachable {
                Some(reachable) => Some(&reachable),
                None => None,
            }),
            trace.opened,
        )
        &&& all_schemas_converted(self.backend, trace.graph, trace.opened, trace.schemas)
        &&& call_ensures(B::new_recorder, (&self.backend,), trace.recorder)
        &&& operations_converted(
            self.backend,
            self.operation_registry.entries(),
            OperationProgress {
                context: trace.schemas.context,
                recorder: trace.recorder,
                types: Seq::empty(),
                infos: Seq::empty(),
                warnings: Seq::empty(),
            },
            trace.operations,
        )
        &&& call_ensures(
            B::take_cache,
            (&self.backend, trace.operations.context),
            trace.filled,
        )
        &&& call_ensures(B::into_types, (&self.backend, trace.filled), trace.cached)
    }

    /// Whether a run can collect these artifacts.
    pub open spec fn collects(&self, artifacts: GenerationArtifacts<B>) -> bool {
        exists|trace: CollectionTrace<B>| #[trigger] self.traces(trace) && trace.yields(artifacts)
    }

    /// A run over a document.
    #[must_use]
    pub fn new(
        spec: Spec,
        visibility: B::Visibility,
        include_unused_schemas: bool,
        only_operations: Option<&HashSet<String>>,
        excluded_operations: Option<&HashSet<String>>,
        odata_support: bool,
        preserve_case_variants: bool,
        case_insensitive_enums: bool,
        no_helpers: bool,
        customizations: HashMap<String, String>,
        backend: B,
    ) -> (orchestrator: Self)
        ensures
            orchestrator.spec == spec,
            orchestrator.visibility == visibility,
            orchestrator.include_unused_schemas == include_unused_schemas,
            orchestrator.operation_registry@ == Seq::<OperationEntryView>::empty(),
            orchestrator.odata_support == odata_support,
            orchestrator.preserve_case_variants == preserve_case_variants,
            orchestrator.case_insensitive_enums == case_insensitive_enums,
            orchestrator.no_helpers == no_helpers,
            orchestrator.customizations == customizations,
            orchestrator.backend == backend,
    {
        let operation_registry = OperationRegistry::with_filters(
            &spec,
            only_operations,
            excluded_operations,
            &backend,
        );
        Orchestrator {
            spec,
            visibility,
            include_unused_schemas,
            operation_registry,
            odata_support,
            preserve_case_variants,
            case_insensitive_enums,
            no_helpers,
            customizations,
            backend,
        }
    }

    /// How schemas and operations are converted in this run.
    pub fn codegen_config(&self) -> (config: CodegenConfig)
        ensures
            self.configures(config),
    {
        CodegenConfig {
            enum_case: if self.preserve_case_variants {
                EnumCasePolicy::Preserve
            } else {
                EnumCasePolicy::Deduplicate
            },
            enum_helpers: if self.no_helpers {
                EnumHelperPolicy::Disable
            } else {
                EnumHelperPolicy::Generate
            },
            enum_deserialize: if self.case_insensitive_enums {
                EnumDeserializePolicy::CaseInsensitive
            } else {
                EnumDeserializePolicy::CaseSensitive
            },
            odata: if self.odata_support {
                ODataPolicy::Enabled
            } else {
                ODataPolicy::Disabled
            },
            customizations: self.customizations.clone(),
        }
    }

    /// Whether the client can get this name: `ApiClient` where the document has no title, else
    /// the type name that the backend makes of the title, followed by `Client`.
    pub open spec fn client_named(&self, name: Seq<char>) -> bool {
        let title = document_title(self.spec);
        if title.len() == 0 {
            name == "ApiClient"@
        } else {
            exists|text: &str, titled: String|
                {
                    &&& text@ == title
                    &&& #[trigger] call_ensures(
                        B::to_rust_type_name,
                        (&self.backend, text),
                        titled,
                    )
                    &&& name == titled@ + "Client"@
                }
        }
    }

    /// The name of the client.
    pub fn client_struct_name(&self) -> (name: String)
        ensures
            self.client_named(name@),
    {
        let title = spec_title(&self.spec);
        let text = title.as_str();
        if text.is_empty() {
            "ApiClient".to_owned()
        } else {
            let titled = self.backend.to_rust_type_name(text);
            assert(call_ensures(B::to_rust_type_name, (&self.backend, text), titled));
            let mut name = titled.clone();
            name.append("Client");
            name
        }
    }

    /// Converts the schemas and the registered operations, and describes what came of it.
    pub fn collect_generation_artifacts(&self) -> (artifacts: GenerationArtifacts<B>)
        ensures
            self.collects(artifacts),
    {
        let loaded = self.backend.from_spec(self.spec.clone());
        assert(call_ensures(B::from_spec, (&self.backend, self.spec), loaded));
        let ghost start = loaded;
        let LoadedSchemas { graph, warnings } = loaded;
        let graph = self.backend.build_dependencies(graph);
        assert(call_ensures(B::build_dependencies, (&self.backend, start.graph), graph));
        let cycle_details = self.backend.detect_cycles(&graph);
        assert(call_ensures(B::detect_cycles, (&self.backend, &graph), cycle_details));
        let reachable: Option<BTreeSet<String>> = if self.include_unused_schemas {
            None
        } else {
            let reached = self.backend.reachable(&graph, &self.operation_registry);
            assert(call_ensures(
                B::reachable,
                (&self.backend, &graph, &self.operation_registry),
                reached,
            ));
            Some(reached)
        };
        let operation_reachable: Option<&BTreeSet<String>> = match &reachable {
            Some(reached) => Some(reached),
            None => None,
        };
        let names = self.backend.keys(&graph);
        assert(call_ensures(B::keys, (&self.backend, &graph), names));
        let reachable_count: Option<usize> = match &reachable {
            Some(reached) => Some(reached.len()),
            None => None,
        };
        let orphaned_schemas_count = count_orphaned(names.len(), reachable_count);
        let config = self.codegen_config();
        let ghost configured = config;

        let scanned = self.backend.scan_and_compute_names(&graph);
        assert(call_ensures(B::scan_and_compute_names, (&self.backend, &graph), scanned));
        let ghost answered = scanned;
        let precomputed = match scanned {
            Ok(names) => names,
            Err(_) => {
                let none = self.backend.no_names();
                assert(call_ensures(B::no_names, (&self.backend,), none));
                none
            },
        };
        let ghost fixed = precomputed;
        let empty = self.backend.new_cache();
        assert(call_ensures(B::new_cache, (&self.backend,), empty));
        let ghost unfilled = empty;
        let NameScan { names: type_names, enum_names } = precomputed;
        let cache = self.backend.set_precomputed_names(empty, type_names, enum_names);
        assert(call_ensures(
            B::set_precomputed_names,
            (&self.backend, unfilled, fixed.names, fixed.enum_names),
            cache,
        ));
        let ghost prepared = cache;
        let context = self.backend.new_context(&graph, config, cache, operation_reachable);
        let ghost opened = context;
        assert(call_ensures(
            B::new_context,
            (&self.backend, &graph, configured, prepared, operation_reachable),
            opened,
        ));

        let converted_schemas = convert_all_schemas(
            &self.backend,
            &graph,
            context,
            operation_reachable,
        );
        let ghost schemas = converted_schemas.progress();
        let converted = convert_all_operations(
            &self.backend,
            converted_schemas.context,
            self.operation_registry.operations(),
        );
        let ghost operations = converted.progress();

        let mut rust_types = converted_schemas.rust_types;
        let mut operation_types = converted.rust_types;
        rust_types.append(&mut operation_types);
        let filled = self.backend.take_cache(converted.context);
        assert(call_ensures(B::take_cache, (&self.backend, operations.context), filled));
        let ghost left = filled;
        let mut cached_types = self.backend.into_types(filled);
        let ghost cached = cached_types;
        assert(call_ensures(B::into_types, (&self.backend, left), cached));
        rust_types.append(&mut cached_types);

        let mut warnings = warnings;
        let mut schema_warnings = converted_schemas.warnings;
        let mut operation_warnings = converted.warnings;
        warnings.append(&mut schema_warnings);
        warnings.append(&mut operation_warnings);

        let operations_info = converted.operations_info;
        let stats = collect_stats(
            &rust_types,
            &operations_info,
            cycle_details,
            warnings,
            orphaned_schemas_count,
        );
        let artifacts: GenerationArtifacts<B> = GenerationArtifacts {
            rust_types,
            operations_info,
            usage_recorder: converted.usage_recorder,
            stats,
            console: converted_schemas.console,
        };
        proof {
            let recorder = choose|recorder: B::Recorder|
                {
                    &&& #[trigger] call_ensures(B::new_recorder, (&self.backend,), recorder)
                    &&& operations_converted(
                        self.backend,
                        self.operation_registry.entries(),
                        OperationProgress {
                            context: schemas.context,
                            recorder,
                            types: Seq::empty(),
                            infos: Seq::empty(),
                            warnings: Seq::empty(),
                        },
                        operations,
                    )
                };
            let trace: CollectionTrace<B> = CollectionTrace {
                loaded: start,
                graph,
                cycle_details,
                reachable,
                names,
                config: configured,
                scanned: answered,
                precomputed: fixed,
                empty: unfilled,
                cache: prepared,
                opened,
                schemas,
                recorder,
                operations,
                filled: left,
                cached,
            };
            assert(self.traces(trace));
            assert(warning_views(warnings@) =~= warning_views(start.warnings@) + schemas.warnings
                + operations.warnings);
            assert(trace.yields(artifacts));
        }
        artifacts
    }

    /// Whether the backend can define this client from what the document says of its API and its
    /// servers.
    pub open spec fn client_defined(&self, client: B::Client) -> bool {
        exists|name: String, servers: &Vec<Server>|
            {
                &&& self.client_named(name@)
                &&& servers@ == document_servers(self.spec)
                &&& #[trigger] call_ensures(
                    B::define_client,
                    (&self.backend, name, &document_info(self.spec), servers),
                    client,
                )
            }
    }

    /// The client for the document.
    fn define_client(&self) -> (client: B::Client)
        ensures
            self.client_defined(client),
    {
        let name = self.client_struct_name();
        let info = spec_info(&self.spec);
        let servers = spec_servers(&self.spec);
        let client = self.backend.define_client(name, info, servers);
        assert(call_ensures(B::define_client, (&self.backend, name, info, servers), client));
        client
    }

    /// Whether the backend can adjust the artifacts to these types and operations, by the use
    /// that was recorded of types.
    pub open spec fn analyzes(
        &self,
        artifacts: GenerationArtifacts<B>,
        rust_types: Vec<RustType<B::Definition>>,
        operations_info: Vec<OperationInfo<B::OperationDetail>>,
    ) -> bool {
        exists|usage: B::UsageMap|
            {
                &&& #[trigger] call_ensures(
                    B::into_usage_map,
                    (&self.backend, artifacts.usage_recorder),
                    usage,
                )
                &&& call_ensures(
                    B::analyze,
                    (&self.backend, artifacts.rust_types, artifacts.operations_info, usage),
                    (rust_types, operations_info),
                )
            }
    }

    /// Whether a run can come to this client and these types and operations, the types adjusted
    /// to their use, with these statistics of what was collected.
    pub open spec fn prepares(&self, prepared: PreparedRun<B>) -> bool {
        &&& self.client_defined(prepared.client)
        &&& exists|artifacts: GenerationArtifacts<B>|
            {
                &&& #[trigger] self.collects(artifacts)
                &&& artifacts.stats == prepared.stats
                &&& artifacts.console == prepared.console
                &&& self.analyzes(artifacts, prepared.rust_types, prepared.operations_info)
            }
    }

    /// Collects the artifacts, defines the client and adjusts the types to their use.
    pub fn prepare(&self) -> (prepared: PreparedRun<B>)
        ensures
            self.prepares(prepared),
    {
        let artifacts = self.collect_generation_artifacts();
        let ghost collected = artifacts;
        let GenerationArtifacts { rust_types, operations_info, usage_recorder, stats, console } =
            artifacts;
        let client = self.define_client();
        let usage = self.backend.into_usage_map(usage_recorder);
        assert(call_ensures(
            B::into_usage_map,
            (&self.backend, collected.usage_recorder),
            usage,
        ));
        let ghost recorded = usage;
        let (rust_types, operations_info) = self.backend.analyze(
            rust_types,
            operations_info,
            usage,
        );
        assert(call_ensures(
            B::analyze,
            (&self.backend, collected.rust_types, collected.operations_info, recorded),
            (rust_types, operations_info),
        ));
        assert(self.analyzes(collected, rust_types, operations_info));
        assert(self.collects(collected));
        PreparedRun { client, rust_types, operations_info, stats, console }
    }

    /// Whether the backend can answer this when it is asked for a file of the types, with the
    /// default lints.
    pub open spec fn types_file_written(
        &self,
        prepared: PreparedRun<B>,
        source_path: &str,
        written: Result<String, B::Error>,
    ) -> bool {
        exists|lints: B::Lints|
            {
                &&& #[trigger] call_ensures(B::default_lints, (&self.backend,), lints)
                &&& call_ensures(
                    B::generate_file,
                    (
                        &self.backend,
                        &prepared.rust_types,
                        &self.visibility,
                        &prepared.client,
                        &lints,
                        source_path,
                        OAS3_GEN_VERSION,
                    ),
                    written,
                )
            }
    }

    /// Whether the backend can make this code of the types.
    pub open spec fn type_code_made(&self, prepared: PreparedRun<B>, tokens: B::Tokens) -> bool {
        call_ensures(
            B::type_tokens,
            (&self.backend, &prepared.rust_types, &self.visibility),
            tokens,
        )
    }

    /// Whether the backend can make this code of the client, with or without an import of the
    /// types.
    pub open spec fn client_code_made(
        &self,
        prepared: PreparedRun<B>,
        types_import: bool,
        tokens: B::Tokens,
    ) -> bool {
        call_ensures(
            B::client_tokens,
            (
                &self.backend,
                &prepared.client,
                &prepared.operations_info,
                &prepared.rust_types,
                &self.visibility,
                types_import,
            ),
            tokens,
        )
    }

    /// Whether the backend can answer this when it is asked to lay code out as source.
    pub open spec fn source_laid_out(
        &self,
        prepared: PreparedRun<B>,
        tokens: B::Tokens,
        lints: Option<&B::Lints>,
        source_path: &str,
        written: Result<String, B::Error>,
    ) -> bool {
        call_ensures(
            B::generate_source,
            (&self.backend, &tokens, &prepared.client, lints, source_path, OAS3_GEN_VERSION),
            written,
        )
    }

    /// Whether the backend can answer this when it is asked for a file of the client: the client
    /// does not import the types, and the file sets the default lints.
    pub open spec fn client_file_written(
        &self,
        prepared: PreparedRun<B>,
        source_path: &str,
        written: Result<String, B::Error>,
    ) -> bool {
        exists|tokens: B::Tokens, lints: B::Lints|
            {
                &&& #[trigger] self.client_code_made(prepared, false, tokens)
                &&& #[trigger] call_ensures(B::default_lints, (&self.backend,), lints)
                &&& self.source_laid_out(prepared, tokens, Some(&lints), source_path, written)
            }
    }

    /// Whether the backend can answer this when it is asked for the types of a module, which set
    /// no lints.
    pub open spec fn types_module_written(
        &self,
        prepared: PreparedRun<B>,
        source_path: &str,
        written: Result<String, B::Error>,
    ) -> bool {
        exists|tokens: B::Tokens|
            {
                &&& #[trigger] self.type_code_made(prepared, tokens)
                &&& self.source_laid_out(prepared, tokens, None, source_path, written)
            }
    }

    /// Whether the backend can answer this when it is asked for the client of a module, which
    /// imports the types and sets no lints.
    pub open spec fn client_module_written(
        &self,
        prepared: PreparedRun<B>,
        source_path: &str,
        written: Result<String, B::Error>,
    ) -> bool {
        exists|tokens: B::Tokens|
            {
                &&& #[trigger] self.client_code_made(prepared, true, tokens)
                &&& self.source_laid_out(prepared, tokens, None, source_path, written)
            }
    }

    /// Whether the backend can answer this when it is asked for the root of a module.
    pub open spec fn module_root_written(
        &self,
        prepared: PreparedRun<B>,
        source_path: &str,
        written: Result<String, B::Error>,
    ) -> bool {
        call_ensures(
            B::generate_mod_file,
            (
                &self.backend,
                &prepared.client,
                &self.visibility,
                source_path,
                OAS3_GEN_VERSION,
            ),
            written,
        )
    }

    /// Whether writing a file of the types can end the run `prepared` like this.
    pub open spec fn types_run_ended(
        &self,
        prepared: PreparedRun<B>,
        source_path: &str,
        generated: Result<(String, GenerationStats), B::Error>,
    ) -> bool {
        match generated {
            Ok(output) => self.types_file_written(prepared, source_path, Ok(output.0)) && output.1
                == prepared.stats,
            Err(error) => self.types_file_written(prepared, source_path, Err(error)),
        }
    }

    /// Whether writing a file of the client can end the run `prepared` like this.
    pub open spec fn client_run_ended(
        &self,
        prepared: PreparedRun<B>,
        source_path: &str,
        generated: Result<(String, GenerationStats), B::Error>,
    ) -> bool {
        match generated {
            Ok(output) => self.client_file_written(prepared, source_path, Ok(output.0))
                && client_counted(prepared.stats, prepared.operations_info@, output.1),
            Err(error) => self.client_file_written(prepared, source_path, Err(error)),
        }
    }

    /// Whether writing a client module can end the run `prepared` like this: the types, the
    /// client and the root are written in this order, and the first that fails ends the run.
    pub open spec fn module_run_ended(
        &self,
        prepared: PreparedRun<B>,
        source_path: &str,
        generated: Result<ClientModOutput, B::Error>,
    ) -> bool {
        match generated {
            Ok(output) => {
                &&& self.types_module_written(prepared, source_path, Ok(output.types_code))
                &&& self.client_module_written(prepared, source_path, Ok(output.client_code))
                &&& self.module_root_written(prepared, source_path, Ok(output.mod_code))
                &&& client_counted(prepared.stats, prepared.operations_info@, output.stats)
            },
            Err(error) => {
                ||| self.types_module_written(prepared, source_path, Err(error))
                ||| exists|types_code: String| #[trigger]
                    self.types_module_written(prepared, source_path, Ok(types_code)) && (
                    self.client_module_written(prepared, source_path, Err(error)) || exists|
                        client_code: String,
                    | #[trigger]
                        self.client_module_written(prepared, source_path, Ok(client_code))
                            && self.module_root_written(prepared, source_path, Err(error)))
            },
        }
    }

    /// Lays the code of the types of a module out as source.
    fn write_types_module(&self, prepared: &PreparedRun<B>, source_path: &str) -> (written: Result<
        String,
        B::Error,
    >)
        ensures
            self.types_module_written(*prepared, source_path, written),
    {
        let tokens = self.backend.type_tokens(&prepared.rust_types, &self.visibility);
        assert(self.type_code_made(*prepared, tokens));
        let written = self.backend.generate_source(
            &tokens,
            &prepared.client,
            None,
            source_path,
            OAS3_GEN_VERSION,
        );
        assert(self.source_laid_out(*prepared, tokens, None, source_path, written));
        written
    }

    /// Lays the code of the client of a module out as source.
    fn write_client_module(&self, prepared: &PreparedRun<B>, source_path: &str) -> (written: Result<
        String,
        B::Error,
    >)
        ensures
            self.client_module_written(*prepared, source_path, written),
    {
        let tokens = self.backend.client_tokens(
            &prepared.client,
            &prepared.operations_info,
            &prepared.rust_types,
            &self.visibility,
            true,
        );
        assert(self.client_code_made(*prepared, true, tokens));
        let written = self.backend.generate_source(
            &tokens,
            &prepared.client,
            None,
            source_path,
            OAS3_GEN_VERSION,
        );
        assert(self.source_laid_out(*prepared, tokens, None, source_path, written));
        written
    }

    /// Writes a file that holds the types of a prepared run.
    pub fn write_types_file(&self, prepared: PreparedRun<B>, source_path: &str) -> (generated:
        Result<(String, GenerationStats), B::Error>)
        ensures
            self.types_run_ended(prepared, source_path, generated),
    {
        let lints = self.backend.default_lints();
        assert(call_ensures(B::default_lints, (&self.backend,), lints));
        let written = self.backend.generate_file(
            &prepared.rust_types,
            &self.visibility,
            &prepared.client,
            &lints,
            source_path,
            OAS3_GEN_VERSION,
        );
        assert(self.types_file_written(prepared, source_path, written));
        match written {
            Ok(code) => Ok((code, prepared.stats)),
            Err(error) => Err(error),
        }
    }

    /// Writes a file that holds the client of a prepared run.
    pub fn write_client_file(&self, prepared: PreparedRun<B>, source_path: &str) -> (generated:
        Result<(String, GenerationStats), B::Error>)
        ensures
            self.client_run_ended(prepared, source_path, generated),
    {
        let ghost run = prepared;
        let tokens = self.backend.client_tokens(
            &prepared.client,
            &prepared.operations_info,
            &prepared.rust_types,
            &self.visibility,
            false,
        );
        assert(self.client_code_made(run, false, tokens));
        let lints = self.backend.default_lints();
        assert(call_ensures(B::default_lints, (&self.backend,), lints));
        let written = self.backend.generate_source(
            &tokens,
            &prepared.client,
            Some(&lints),
            source_path,
            OAS3_GEN_VERSION,
        );
        assert(self.source_laid_out(run, tokens, Some(&lints), source_path, written));
        assert(self.client_file_written(run, source_path, written));
        match written {
            Ok(code) => Ok((code, count_client(prepared.stats, &prepared.operations_info))),
            Err(error) => Err(error),
        }
    }

    /// Writes a module that holds the types and the client of a prepared run.
    pub fn write_client_mod(&self, prepared: PreparedRun<B>, source_path: &str) -> (generated:
        Result<ClientModOutput, B::Error>)
        ensures
            self.module_run_ended(prepared, source_path, generated),
    {
        let ghost run = prepared;
        let types_code = match self.write_types_module(&prepared, source_path) {
            Ok(code) => code,
            Err(error) => {
                return Err(error);
            },
        };
        assert(self.types_module_written(run, source_path, Ok(types_code)));
        let client_code = match self.write_client_module(&prepared, source_path) {
            Ok(code) => code,
            Err(error) => {
                return Err(error);
            },
        };
        assert(self.client_module_written(run, source_path, Ok(client_code)));
        let root_written = self.backend.generate_mod_file(
            &prepared.client,
            &self.visibility,
            source_path,
            OAS3_GEN_VERSION,
        );
        assert(self.module_root_written(run, source_path, root_written));
        match root_written {
            Ok(mod_code) => {
                let stats = count_client(prepared.stats, &prepared.operations_info);
                Ok(ClientModOutput { types_code, client_code, mod_code, stats })
            },
            Err(error) => Err(error),
        }
    }

    /// Whether a run that generates a file of the types can end like this.
    pub open spec fn types_generated(
        &self,
        source_path: &str,
        generated: Result<(String, GenerationStats), B::Error>,
    ) -> bool {
        exists|prepared: PreparedRun<B>| #[trigger]
            self.prepares(prepared) && self.types_run_ended(prepared, source_path, generated)
    }

    /// Whether a run that generates a file of the client can end like this.
    pub open spec fn client_generated(
        &self,
        source_path: &str,
        generated: Result<(String, GenerationStats), B::Error>,
    ) -> bool {
        exists|prepared: PreparedRun<B>| #[trigger]
            self.prepares(prepared) && self.client_run_ended(prepared, source_path, generated)
    }

    /// Whether a run that generates a client module can end like this.
    pub open spec fn module_generated(
        &self,
        source_path: &str,
        generated: Result<ClientModOutput, B::Error>,
    ) -> bool {
        exists|prepared: PreparedRun<B>| #[trigger]
            self.prepares(prepared) && self.module_run_ended(prepared, source_path, generated)
    }

    /// Generates a file that holds the types of the document.
    pub fn generate_with_header(&self, source_path: &str) -> (generated: Result<
        (String, GenerationStats),
        B::Error,
    >)
        ensures
            self.types_generated(source_path, generated),
    {
        let prepared = self.prepare();
        self.write_types_file(prepared, source_path)
    }

    /// Generates a file that holds the client of the document.
    pub fn generate_client_with_header(&self, source_path: &str) -> (generated: Result<
        (String, GenerationStats),
        B::Error,
    >)
        ensures
            self.client_generated(source_path, generated),
    {
        let prepared = self.prepare();
        self.write_client_file(prepared, source_path)
    }

    /// Generates a module that holds the types and the client of the document.
    pub fn generate_client_mod(&self, source_path: &str) -> (generated: Result<
        ClientModOutput,
        B::Error,
    >)
        ensures
            self.module_generated(source_path, generated),
    {
        let prepared = self.prepare();
        self.write_client_mod(prepared, source_path)
    }
}

} // verus!
