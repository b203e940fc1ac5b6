//! What a run asks of its backend, and what it makes of the answers.

use crate::ast::{OperationInfo, OperationKind, RustType};
use crate::backend::{
    CodegenConfig, EnumCasePolicy, EnumDeserializePolicy, EnumHelperPolicy, GeneratorBackend,
    LoadedSchemas, ODataPolicy,
};
use crate::conversion::{all_schemas_converted, operations_converted, OperationProgress};
use crate::document::{document_info, document_servers, document_title};
use crate::orchestrator::{
    ClientModOutput, CollectionTrace, GenerationArtifacts, Orchestrator, PreparedRun,
};
use crate::report::GenerationStats;
use crate::statistics::{client_counted, text_of, warning_views};
use oas3::spec::Server;
use std::collections::BTreeSet;
use vstd::prelude::*;

verus! {

/// Each option decides its own policy, whatever the other options are, and the customizations are
/// those of the run.
pub proof fn law_options_decide_alone<B: GeneratorBackend>(
    run: Orchestrator<B>,
    config: CodegenConfig,
)
    requires
        run.configures(config),
    ensures
        config.odata == ODataPolicy::Enabled <==> run.odata_support,
        config.odata == ODataPolicy::Disabled <==> !run.odata_support,
        config.enum_case == EnumCasePolicy::Preserve <==> run.preserve_case_variants,
        config.enum_case == EnumCasePolicy::Deduplicate <==> !run.preserve_case_variants,
        config.enum_helpers == EnumHelperPolicy::Disable <==> run.no_helpers,
        config.enum_helpers == EnumHelperPolicy::Generate <==> !run.no_helpers,
        config.enum_deserialize == EnumDeserializePolicy::CaseInsensitive
            <==> run.case_insensitive_enums,
        config.enum_deserialize == EnumDeserializePolicy::CaseSensitive
            <==> !run.case_insensitive_enums,
        config.customizations@ == run.customizations@,
{
}

/// Two runs that differ in one option have configurations that differ in that policy alone.
pub proof fn law_one_option_one_policy<B: GeneratorBackend>(
    run: Orchestrator<B>,
    other: Orchestrator<B>,
    config: CodegenConfig,
    changed: CodegenConfig,
)
    requires
        run.configures(config),
        other.configures(changed),
    ensures
        run.odata_support == other.odata_support <==> config.odata == changed.odata,
        run.preserve_case_variants == other.preserve_case_variants <==> config.enum_case
            == changed.enum_case,
        run.no_helpers == other.no_helpers <==> config.enum_helpers == changed.enum_helpers,
        run.case_insensitive_enums == other.case_insensitive_enums <==> config.enum_deserialize
            == changed.enum_deserialize,
        run.customizations@ == other.customizations@ <==> config.customizations@
            == changed.customizations@,
{
}

/// The client of a document with a title, of whatever length, is named after the title: by what
/// the backend makes of it, followed by `Client`.
pub proof fn law_titled_client_is_named_after_the_title<B: GeneratorBackend>(
    run: Orchestrator<B>,
    name: Seq<char>,
)
    requires
        document_title(run.spec).len() > 0,
        run.client_named(name),
    ensures
        exists|title: &str, titled: String|
            {
                &&& title@ == document_title(run.spec)
                &&& #[trigger] call_ensures(
                    B::to_rust_type_name,
                    (&run.backend, title),
                    titled,
                )
                &&& name == titled@ + "Client"@
            },
{
}

/// Whatever type name the backend makes of the title is a name that the client can get; a document
/// without a title has a client of one name, for which the backend is not asked.
pub proof fn law_client_names<B: GeneratorBackend>(
    run: Orchestrator<B>,
    title: &str,
    titled: String,
    name: Seq<char>,
)
    ensures
        document_title(run.spec).len() == 0 ==> (run.client_named(name) <==> name
            == "ApiClient"@),
        document_title(run.spec).len() > 0 && title@ == document_title(run.spec) && call_ensures(
            B::to_rust_type_name,
            (&run.backend, title),
            titled,
        ) ==> run.client_named(titled@ + "Client"@),
{
}

/// The client is defined under its name, from what the document says of its API and its servers.
pub proof fn law_client_is_defined_from_the_document<B: GeneratorBackend>(
    run: Orchestrator<B>,
    client: B::Client,
)
    requires
        run.client_defined(client),
    ensures
        exists|name: String, servers: &Vec<Server>|
            {
                &&& run.client_named(name@)
                &&& servers@ == document_servers(run.spec)
                &&& #[trigger] call_ensures(
                    B::define_client,
                    (&run.backend, name, &document_info(run.spec), servers),
                    client,
                )
            },
{
}

/// What a run asks of its backend, question by question: the schemas of the document are loaded,
/// their dependencies built and the cycles among them detected; reachability is asked for unless
/// unused schemas are kept; names are scanned, with none where that fails, and fixed in an empty
/// cache; then the schemas and the registered operations are converted, and the cache is emptied.
pub proof fn law_questions_of_a_run<B: GeneratorBackend>(
    run: Orchestrator<B>,
    trace: CollectionTrace<B>,
)
    requires
        run.traces(trace),
    ensures
        call_ensures(B::from_spec, (&run.backend, run.spec), trace.loaded),
        call_ensures(B::build_dependencies, (&run.backend, trace.loaded.graph), trace.graph),
        call_ensures(B::detect_cycles, (&run.backend, &trace.graph), trace.cycle_details),
        trace.reachable is None <==> run.include_unused_schemas,
        trace.reachable matches Some(reachable) ==> call_ensures(
            B::reachable,
            (&run.backend, &trace.graph, &run.operation_registry),
            reachable,
        ),
        call_ensures(B::keys, (&run.backend, &trace.graph), trace.names),
        run.configures(trace.config),
        call_ensures(B::scan_and_compute_names, (&run.backend, &trace.graph), trace.scanned),
        trace.scanned matches Ok(names) ==> trace.precomputed == names,
        trace.scanned is Err ==> call_ensures(B::no_names, (&run.backend,), trace.precomputed),
        call_ensures(B::new_cache, (&run.backend,), trace.empty),
        call_ensures(
            B::set_precomputed_names,
            (&run.backend, trace.empty, trace.precomputed.names, trace.precomputed.enum_names),
            trace.cache,
        ),
        trace.reachable matches Some(reachable) ==> call_ensures(
            B::new_context,
            (&run.backend, &trace.graph, trace.config, trace.cache, Some(&reachable)),
            trace.opened,
        ),
        trace.reachable is None ==> call_ensures(
            B::new_context,
            (
                &run.backend,
                &trace.graph,
                trace.config,
                trace.cache,
                None::<&BTreeSet<String>>,
            ),
            trace.opened,
        ),
        all_schemas_converted(run.backend, trace.graph, trace.opened, trace.schemas),
        call_ensures(B::new_recorder, (&run.backend,), trace.recorder),
        exists|start: OperationProgress<B>|
            {
                &&& start.context == trace.schemas.context
                &&& start.recorder == trace.recorder
                &&& start.types.len() == 0
                &&& start.infos.len() == 0
                &&& start.warnings.len() == 0
                &&& #[trigger] operations_converted(
                    run.backend,
                    run.operation_registry.entries(),
                    start,
                    trace.operations,
                )
            },
        call_ensures(B::take_cache, (&run.backend, trace.operations.context), trace.filled),
        call_ensures(B::into_types, (&run.backend, trace.filled), trace.cached),
{
    let start: OperationProgress<B> = OperationProgress {
        context: trace.schemas.context,
        recorder: trace.recorder,
        types: Seq::empty(),
        infos: Seq::empty(),
        warnings: Seq::empty(),
    };
    assert(operations_converted(
        run.backend,
        run.operation_registry.entries(),
        start,
        trace.operations,
    ));
}

/// What a run collects is made of the answers to its questions: all types of the schemas, then all
/// of the operations, then those of the cache; all operations; all warnings of loading, of the
/// schemas and of the operations; and statistics that count exactly these.
pub proof fn law_artifacts_of_a_run<B: GeneratorBackend>(
    run: Orchestrator<B>,
    artifacts: GenerationArtifacts<B>,
)
    requires
        run.collects(artifacts),
    ensures
        exists|trace: CollectionTrace<B>|
            {
                let stats = artifacts.stats;
                let loaded = trace.loaded.warnings@;
                let schemas = trace.schemas.warnings;
                let operations = trace.operations.warnings;
                &&& #[trigger] run.traces(trace)
                &&& artifacts.rust_types@ == trace.schemas.types + trace.operations.types
                    + trace.cached@
                &&& artifacts.operations_info@ == trace.operations.infos
                &&& artifacts.usage_recorder == trace.operations.recorder
                &&& artifacts.console@.len() == trace.schemas.console.len()
                &&& forall|i: int|
                    0 <= i < artifacts.console@.len() ==> (#[trigger] artifacts.console@[i])@
                        == trace.schemas.console[i]
                &&& stats.cycle_details == trace.cycle_details
                &&& stats.cycles_detected == trace.cycle_details@.len()
                &&& stats.warnings@.len() == loaded.len() + schemas.len() + operations.len()
                &&& forall|i: int|
                    0 <= i < loaded.len() ==> (#[trigger] loaded[i])@ == stats.warnings@[i]@
                &&& forall|i: int|
                    0 <= i < schemas.len() ==> #[trigger] schemas[i] == stats.warnings@[loaded.len()
                        + i]@
                &&& forall|i: int|
                    0 <= i < operations.len() ==> #[trigger] operations[i]
                        == stats.warnings@[loaded.len() + schemas.len() + i]@
            },
        artifacts.stats.types_generated == artifacts.rust_types@.len(),
        artifacts.stats.structs_generated == artifacts.rust_types@.filter(
            |item: RustType<B::Definition>| item is Struct,
        ).len(),
        artifacts.stats.enums_generated == artifacts.rust_types@.filter(
            |item: RustType<B::Definition>|
                item is Enum || item is DiscriminatedEnum || item is ResponseEnum,
        ).len(),
        artifacts.stats.enums_with_helpers_generated == artifacts.rust_types@.filter(
            |item: RustType<B::Definition>|
                item matches RustType::Enum(def) && def.methods@.len() > 0,
        ).len(),
        artifacts.stats.type_aliases_generated == artifacts.rust_types@.filter(
            |item: RustType<B::Definition>| item is TypeAlias,
        ).len(),
        artifacts.stats.operations_converted == artifacts.operations_info@.len(),
        artifacts.stats.webhooks_converted == artifacts.operations_info@.filter(
            |operation: OperationInfo<B::OperationDetail>|
                operation.kind == OperationKind::Webhook,
        ).len(),
        artifacts.stats.client_methods_generated is None,
        artifacts.stats.client_headers_generated is None,
{
    let trace = choose|trace: CollectionTrace<B>| #[trigger]
        run.traces(trace) && trace.yields(artifacts);
    let stats = artifacts.stats;
    let loaded = trace.loaded.warnings@;
    let schemas = trace.schemas.warnings;
    let operations = trace.operations.warnings;
    let views = warning_views(loaded);
    let warnings = views + schemas + operations;
    super::reporting::law_statistics_say_what_there_is(
        stats,
        artifacts.rust_types@,
        artifacts.operations_info@,
        trace.cycle_details,
        warnings,
        stats.orphaned_schemas_count as nat,
    );
    super::reporting::law_lists_are_known_in_order(loaded, artifacts.console@);
    assert forall|i: int| 0 <= i < loaded.len() implies (#[trigger] loaded[i])@
        == stats.warnings@[i]@ by {
        assert(views[i] == loaded[i]@);
        assert(warnings[i] == views[i]);
    }
    assert forall|i: int| 0 <= i < schemas.len() implies #[trigger] schemas[i]
        == stats.warnings@[loaded.len() + i]@ by {
        assert(warnings[loaded.len() + i] == schemas[i]);
    }
    assert forall|i: int| 0 <= i < operations.len() implies #[trigger] operations[i]
        == stats.warnings@[loaded.len() + schemas.len() + i]@ by {
        assert(warnings[loaded.len() + schemas.len() + i] == operations[i]);
    }
    assert forall|i: int| 0 <= i < artifacts.console@.len() implies (
    #[trigger] artifacts.console@[i])@ == trace.schemas.console[i] by {
        assert(text_of(artifacts.console@)[i] == artifacts.console@[i]@);
    }
    assert(run.traces(trace));
}

/// Where unused schemas are not kept, as many schemas are orphaned as the graph lists beyond those
/// that the registered operations reach, whatever operations there are, or none.
pub proof fn law_unreached_schemas_are_orphaned<B: GeneratorBackend>(
    run: Orchestrator<B>,
    artifacts: GenerationArtifacts<B>,
)
    requires
        !run.include_unused_schemas,
        run.collects(artifacts),
    ensures
        exists|
            loaded: LoadedSchemas<B::Graph>,
            graph: B::Graph,
            names: Vec<String>,
            reachable: BTreeSet<String>,
        |
            {
                &&& #[trigger] call_ensures(B::from_spec, (&run.backend, run.spec), loaded)
                &&& call_ensures(B::build_dependencies, (&run.backend, loaded.graph), graph)
                &&& #[trigger] call_ensures(B::keys, (&run.backend, &graph), names)
                &&& #[trigger] call_ensures(
                    B::reachable,
                    (&run.backend, &graph, &run.operation_registry),
                    reachable,
                )
                &&& artifacts.stats.orphaned_schemas_count == if names@.len() >= reachable.len() {
                    names@.len() - reachable.len()
                } else {
                    0
                }
            },
{
    let trace = choose|trace: CollectionTrace<B>| #[trigger]
        run.traces(trace) && trace.yields(artifacts);
    let reachable = trace.reachable->0;
    assert(call_ensures(B::from_spec, (&run.backend, run.spec), trace.loaded));
    assert(call_ensures(B::keys, (&run.backend, &trace.graph), trace.names));
    assert(call_ensures(
        B::reachable,
        (&run.backend, &trace.graph, &run.operation_registry),
        reachable,
    ));
    super::reporting::law_orphaned_count(trace.names@.len(), reachable.len() as nat);
}

/// Source code is written from what was collected: the types and operations as the backend adjusts
/// them to the recorded use, the statistics and the console lines as they were.
pub proof fn law_preparation_of_a_run<B: GeneratorBackend>(
    run: Orchestrator<B>,
    prepared: PreparedRun<B>,
)
    requires
        run.prepares(prepared),
    ensures
        run.client_defined(prepared.client),
        exists|artifacts: GenerationArtifacts<B>, usage: B::UsageMap|
            {
                &&& #[trigger] run.collects(artifacts)
                &&& #[trigger] call_ensures(
                    B::into_usage_map,
                    (&run.backend, artifacts.usage_recorder),
                    usage,
                )
                &&& call_ensures(
                    B::analyze,
                    (&run.backend, artifacts.rust_types, artifacts.operations_info, usage),
                    (prepared.rust_types, prepared.operations_info),
                )
                &&& prepared.stats == artifacts.stats
                &&& prepared.console == artifacts.console
            },
{
    let artifacts = choose|artifacts: GenerationArtifacts<B>|
        {
            &&& #[trigger] run.collects(artifacts)
            &&& artifacts.stats == prepared.stats
            &&& artifacts.console == prepared.console
            &&& run.analyzes(artifacts, prepared.rust_types, prepared.operations_info)
        };
    let usage = choose|usage: B::UsageMap|
        {
            &&& #[trigger] call_ensures(
                B::into_usage_map,
                (&run.backend, artifacts.usage_recorder),
                usage,
            )
            &&& call_ensures(
                B::analyze,
                (&run.backend, artifacts.rust_types, artifacts.operations_info, usage),
                (prepared.rust_types, prepared.operations_info),
            )
        };
    assert(run.collects(artifacts));
    assert(call_ensures(B::into_usage_map, (&run.backend, artifacts.usage_recorder), usage));
}

/// A file of the types is written with the default lints; the statistics are those of the run, and
/// an error is the backend's.
pub proof fn law_types_file<B: GeneratorBackend>(
    run: Orchestrator<B>,
    prepared: PreparedRun<B>,
    source_path: &str,
    generated: Result<(String, GenerationStats), B::Error>,
)
    requires
        run.types_run_ended(prepared, source_path, generated),
    ensures
        exists|lints: B::Lints, written: Result<String, B::Error>|
            {
                &&& #[trigger] call_ensures(B::default_lints, (&run.backend,), lints)
                &&& #[trigger] call_ensures(
                    B::generate_file,
                    (
                        &run.backend,
                        &prepared.rust_types,
                        &run.visibility,
                        &prepared.client,
                        &lints,
                        source_path,
                        "0.1.0",
                    ),
                    written,
                )
                &&& written matches Ok(code) ==> generated matches Ok(output) && output.0 == code
                    && output.1 == prepared.stats
                &&& written matches Err(error) ==> generated matches Err(given) && given == error
            },
{
    let written: Result<String, B::Error> = match generated {
        Ok(output) => Ok(output.0),
        Err(error) => Err(error),
    };
    assert(run.types_file_written(prepared, source_path, written));
    let lints = choose|lints: B::Lints|
        {
            &&& #[trigger] call_ensures(B::default_lints, (&run.backend,), lints)
            &&& call_ensures(
                B::generate_file,
                (
                    &run.backend,
                    &prepared.rust_types,
                    &run.visibility,
                    &prepared.client,
                    &lints,
                    source_path,
                    "0.1.0",
                ),
                written,
            )
        };
    assert(call_ensures(B::default_lints, (&run.backend,), lints));
}

/// The client of a single file never imports the types, whatever operations there are, or none;
/// the file sets the default lints.
pub proof fn law_client_file<B: GeneratorBackend>(
    run: Orchestrator<B>,
    prepared: PreparedRun<B>,
    source_path: &str,
    generated: Result<(String, GenerationStats), B::Error>,
)
    requires
        run.client_run_ended(prepared, source_path, generated),
    ensures
        exists|tokens: B::Tokens, lints: B::Lints, written: Result<String, B::Error>|
            {
                &&& #[trigger] call_ensures(
                    B::client_tokens,
                    (
                        &run.backend,
                        &prepared.client,
                        &prepared.operations_info,
                        &prepared.rust_types,
                        &run.visibility,
                        false,
                    ),
                    tokens,
                )
                &&& #[trigger] call_ensures(B::default_lints, (&run.backend,), lints)
                &&& #[trigger] call_ensures(
                    B::generate_source,
                    (
                        &run.backend,
                        &tokens,
                        &prepared.client,
                        Some(&lints),
                        source_path,
                        "0.1.0",
                    ),
                    written,
                )
                &&& written matches Ok(code) ==> generated matches Ok(output) && output.0 == code
                    && client_counted(prepared.stats, prepared.operations_info@, output.1)
                &&& written matches Err(error) ==> generated matches Err(given) && given == error
            },
{
    let written: Result<String, B::Error> = match generated {
        Ok(output) => Ok(output.0),
        Err(error) => Err(error),
    };
    assert(run.client_file_written(prepared, source_path, written));
    let (tokens, lints) = choose|tokens: B::Tokens, lints: B::Lints|
        {
            &&& #[trigger] run.client_code_made(prepared, false, tokens)
            &&& #[trigger] call_ensures(B::default_lints, (&run.backend,), lints)
            &&& run.source_laid_out(prepared, tokens, Some(&lints), source_path, written)
        };
    assert(call_ensures(
        B::client_tokens,
        (
            &run.backend,
            &prepared.client,
            &prepared.operations_info,
            &prepared.rust_types,
            &run.visibility,
            false,
        ),
        tokens,
    ));
    assert(call_ensures(B::default_lints, (&run.backend,), lints));
    assert(call_ensures(
        B::generate_source,
        (&run.backend, &tokens, &prepared.client, Some(&lints), source_path, "0.1.0"),
        written,
    ));
}

/// Whether the backend can answer this when it is asked to lay the code of the types out as source
/// without lints.
pub open spec fn types_laid_out<B: GeneratorBackend>(
    run: Orchestrator<B>,
    prepared: PreparedRun<B>,
    source_path: &str,
    written: Result<String, B::Error>,
) -> bool {
    exists|tokens: B::Tokens|
        {
            &&& #[trigger] call_ensures(
                B::type_tokens,
                (&run.backend, &prepared.rust_types, &run.visibility),
                tokens,
            )
            &&& call_ensures(
                B::generate_source,
                (
                    &run.backend,
                    &tokens,
                    &prepared.client,
                    None::<&B::Lints>,
                    source_path,
                    "0.1.0",
                ),
                written,
            )
        }
}

/// Whether the backend can answer this when it is asked to lay the code of the client, which
/// imports the types, out as source without lints.
pub open spec fn importing_client_laid_out<B: GeneratorBackend>(
    run: Orchestrator<B>,
    prepared: PreparedRun<B>,
    source_path: &str,
    written: Result<String, B::Error>,
) -> bool {
    exists|tokens: B::Tokens|
        {
            &&& #[trigger] call_ensures(
                B::client_tokens,
                (
                    &run.backend,
                    &prepared.client,
                    &prepared.operations_info,
                    &prepared.rust_types,
                    &run.visibility,
                    true,
                ),
                tokens,
            )
            &&& call_ensures(
                B::generate_source,
                (
                    &run.backend,
                    &tokens,
                    &prepared.client,
                    None::<&B::Lints>,
                    source_path,
                    "0.1.0",
                ),
                written,
            )
        }
}

proof fn lemma_types_laid_out<B: GeneratorBackend>(
    run: Orchestrator<B>,
    prepared: PreparedRun<B>,
    source_path: &str,
    written: Result<String, B::Error>,
)
    requires
        run.types_module_written(prepared, source_path, written),
    ensures
        types_laid_out(run, prepared, source_path, written),
{
    let tokens = choose|tokens: B::Tokens|
        {
            &&& #[trigger] run.type_code_made(prepared, tokens)
            &&& run.source_laid_out(prepared, tokens, None, source_path, written)
        };
    assert(call_ensures(
        B::type_tokens,
        (&run.backend, &prepared.rust_types, &run.visibility),
        tokens,
    ));
}

proof fn lemma_importing_client_laid_out<B: GeneratorBackend>(
    run: Orchestrator<B>,
    prepared: PreparedRun<B>,
    source_path: &str,
    written: Result<String, B::Error>,
)
    requires
        run.client_module_written(prepared, source_path, written),
    ensures
        importing_client_laid_out(run, prepared, source_path, written),
{
    let tokens = choose|tokens: B::Tokens|
        {
            &&& #[trigger] run.client_code_made(prepared, true, tokens)
            &&& run.source_laid_out(prepared, tokens, None, source_path, written)
        };
    assert(call_ensures(
        B::client_tokens,
        (
            &run.backend,
            &prepared.client,
            &prepared.operations_info,
            &prepared.rust_types,
            &run.visibility,
            true,
        ),
        tokens,
    ));
}

/// The types and the client of a module are written without lints, and the client always imports
/// the types, whatever operations there are, or none; the root is written for the same client. A
/// module that is not generated ends in the error of the first of the three that fails.
pub proof fn law_client_module<B: GeneratorBackend>(
    run: Orchestrator<B>,
    prepared: PreparedRun<B>,
    source_path: &str,
    generated: Result<ClientModOutput, B::Error>,
)
    requires
        run.module_run_ended(prepared, source_path, generated),
    ensures
        generated matches Ok(output) ==> {
            &&& types_laid_out(run, prepared, source_path, Ok(output.types_code))
            &&& importing_client_laid_out(run, prepared, source_path, Ok(output.client_code))
            &&& call_ensures(
                B::generate_mod_file,
                (&run.backend, &prepared.client, &run.visibility, source_path, "0.1.0"),
                Ok(output.mod_code),
            )
            &&& client_counted(prepared.stats, prepared.operations_info@, output.stats)
        },
        generated matches Err(error) ==> {
            ||| types_laid_out(run, prepared, source_path, Err(error))
            ||| (exists|types_code: String| #[trigger]
                types_laid_out(run, prepared, source_path, Ok(types_code)))
                && importing_client_laid_out(run, prepared, source_path, Err(error))
            ||| (exists|types_code: String| #[trigger]
                types_laid_out(run, prepared, source_path, Ok(types_code))) && (exists|
                client_code: String,
            | #[trigger]
                importing_client_laid_out(run, prepared, source_path, Ok(client_code)))
                && call_ensures(
                B::generate_mod_file,
                (&run.backend, &prepared.client, &run.visibility, source_path, "0.1.0"),
                Err(error),
            )
        },
{
    match generated {
        Ok(output) => {
            lemma_types_laid_out(run, prepared, source_path, Ok(output.types_code));
            lemma_importing_client_laid_out(run, prepared, source_path, Ok(output.client_code));
        },
        Err(error) => {
            if run.types_module_written(prepared, source_path, Err(error)) {
                lemma_types_laid_out(run, prepared, source_path, Err(error));
            } else {
                let types_code = choose|types_code: String| #[trigger]
                    run.types_module_written(prepared, source_path, Ok(types_code)) && (
                    run.client_module_written(prepared, source_path, Err(error)) || exists|
                        client_code: String,
                    | #[trigger]
                        run.client_module_written(prepared, source_path, Ok(client_code))
                            && run.module_root_written(prepared, source_path, Err(error)));
                lemma_types_laid_out(run, prepared, source_path, Ok(types_code));
                if run.client_module_written(prepared, source_path, Err(error)) {
                    lemma_importing_client_laid_out(run, prepared, source_path, Err(error));
                } else {
                    let client_code = choose|client_code: String| #[trigger]
                        run.client_module_written(prepared, source_path, Ok(client_code))
                            && run.module_root_written(prepared, source_path, Err(error));
                    lemma_importing_client_laid_out(run, prepared, source_path, Ok(client_code));
                }
            }
        },
    }
}

/// A run that generates a file of the types writes it from a preparation of that run.
pub proof fn law_generated_types<B: GeneratorBackend>(
    run: Orchestrator<B>,
    source_path: &str,
    generated: Result<(String, GenerationStats), B::Error>,
)
    requires
        run.types_generated(source_path, generated),
    ensures
        exists|prepared: PreparedRun<B>, lints: B::Lints, written: Result<String, B::Error>|
            {
                &&& #[trigger] run.prepares(prepared)
                &&& #[trigger] call_ensures(B::default_lints, (&run.backend,), lints)
                &&& #[trigger] call_ensures(
                    B::generate_file,
                    (
                        &run.backend,
                        &prepared.rust_types,
                        &run.visibility,
                        &prepared.client,
                        &lints,
                        source_path,
                        "0.1.0",
                    ),
                    written,
                )
                &&& written matches Ok(code) ==> generated matches Ok(output) && output.0 == code
                    && output.1 == prepared.stats
                &&& written matches Err(error) ==> generated matches Err(given) && given == error
            },
{
    let prepared = choose|prepared: PreparedRun<B>| #[trigger]
        run.prepares(prepared) && run.types_run_ended(prepared, source_path, generated);
    law_types_file(run, prepared, source_path, generated);
    assert(run.prepares(prepared));
}

/// A run that generates a file of the client lays out code that the backend makes without an
/// import of the types, whatever operations there are, or none.
pub proof fn law_generated_client<B: GeneratorBackend>(
    run: Orchestrator<B>,
    source_path: &str,
    generated: Result<(String, GenerationStats), B::Error>,
)
    requires
        run.client_generated(source_path, generated),
    ensures
        exists|
            prepared: PreparedRun<B>,
            tokens: B::Tokens,
            lints: B::Lints,
            written: Result<String, B::Error>,
        |
            {
                &&& #[trigger] run.prepares(prepared)
                &&& #[trigger] call_ensures(
                    B::client_tokens,
                    (
                        &run.backend,
                        &prepared.client,
                        &prepared.operations_info,
                        &prepared.rust_types,
                        &run.visibility,
                        false,
                    ),
                    tokens,
                )
                &&& #[trigger] call_ensures(B::default_lints, (&run.backend,), lints)
                &&& #[trigger] call_ensures(
                    B::generate_source,
                    (
                        &run.backend,
                        &tokens,
                        &prepared.client,
                        Some(&lints),
                        source_path,
                        "0.1.0",
                    ),
                    written,
                )
                &&& written matches Ok(code) ==> generated matches Ok(output) && output.0 == code
                    && client_counted(prepared.stats, prepared.operations_info@, output.1)
                &&& written matches Err(error) ==> generated matches Err(given) && given == error
            },
{
    let prepared = choose|prepared: PreparedRun<B>| #[trigger]
        run.prepares(prepared) && run.client_run_ended(prepared, source_path, generated);
    law_client_file(run, prepared, source_path, generated);
    assert(run.prepares(prepared));
}

/// However the generation of a client module ends, it ends a preparation of that run, and where it
/// fails the error is the backend's: of the types, of the client or of the root.
pub proof fn law_failed_module<B: GeneratorBackend>(
    run: Orchestrator<B>,
    source_path: &str,
    error: B::Error,
)
    requires
        run.module_generated(source_path, Err(error)),
    ensures
        exists|prepared: PreparedRun<B>|
            {
                &&& #[trigger] run.prepares(prepared)
                &&& {
                    ||| types_laid_out(run, prepared, source_path, Err(error))
                    ||| importing_client_laid_out(run, prepared, source_path, Err(error))
                    ||| call_ensures(
                        B::generate_mod_file,
                        (&run.backend, &prepared.client, &run.visibility, source_path, "0.1.0"),
                        Err(error),
                    )
                }
            },
{
    let generated: Result<ClientModOutput, B::Error> = Err(error);
    let prepared = choose|prepared: PreparedRun<B>| #[trigger]
        run.prepares(prepared) && run.module_run_ended(prepared, source_path, generated);
    law_client_module(run, prepared, source_path, generated);
    assert(run.prepares(prepared));
}

/// A run that generates a client module lays out code that the backend makes with an import of the
/// types, whatever operations there are, or none.
pub proof fn law_generated_module<B: GeneratorBackend>(
    run: Orchestrator<B>,
    source_path: &str,
    output: ClientModOutput,
)
    requires
        run.module_generated(source_path, Ok(output)),
    ensures
        exists|prepared: PreparedRun<B>, code: B::Tokens, tokens: B::Tokens|
            {
                &&& #[trigger] run.prepares(prepared)
                &&& #[trigger] call_ensures(
                    B::type_tokens,
                    (&run.backend, &prepared.rust_types, &run.visibility),
                    code,
                )
                &&& call_ensures(
                    B::generate_source,
                    (
                        &run.backend,
                        &code,
                        &prepared.client,
                        None::<&B::Lints>,
                        source_path,
                        "0.1.0",
                    ),
                    Ok(output.types_code),
                )
                &&& #[trigger] call_ensures(
                    B::client_tokens,
                    (
                        &run.backend,
                        &prepared.client,
                        &prepared.operations_info,
                        &prepared.rust_types,
                        &run.visibility,
                        true,
                    ),
                    tokens,
                )
                &&& call_ensures(
                    B::generate_source,
                    (
                        &run.backend,
                        &tokens,
                        &prepared.client,
                        None::<&B::Lints>,
                        source_path,
                        "0.1.0",
                    ),
                    Ok(output.client_code),
                )
                &&& call_ensures(
                    B::generate_mod_file,
                    (&run.backend, &prepared.client, &run.visibility, source_path, "0.1.0"),
                    Ok(output.mod_code),
                )
                &&& client_counted(prepared.stats, prepared.operations_info@, output.stats)
            },
{
    let generated: Result<ClientModOutput, B::Error> = Ok(output);
    let prepared = choose|prepared: PreparedRun<B>| #[trigger]
        run.prepares(prepared) && run.module_run_ended(prepared, source_path, generated);
    law_client_module(run, prepared, source_path, generated);
    assert(run.prepares(prepared));
    let code = choose|code: B::Tokens|
        {
            &&& #[trigger] call_ensures(
                B::type_tokens,
                (&run.backend, &prepared.rust_types, &run.visibility),
                code,
            )
            &&& call_ensures(
                B::generate_source,
                (
                    &run.backend,
                    &code,
                    &prepared.client,
                    None::<&B::Lints>,
                    source_path,
                    "0.1.0",
                ),
                Ok::<String, B::Error>(output.types_code),
            )
        };
    assert(call_ensures(
        B::type_tokens,
        (&run.backend, &prepared.rust_types, &run.visibility),
        code,
    ));
}

} // verus!
