//! What two runs over one document have in common where the backend always answers a question the
//! same way.

use crate::ast::{OperationInfo, RustType};
use crate::backend::{
    CodegenConfig, ConvertedOperation, GeneratorBackend, LoadedSchemas, NameScan, ObjectSchema,
    SchemaKey,
};
use crate::conversion::{
    all_schemas_converted, conversion_order, operation_converted, operation_outcome,
    operations_converted, registration_answered, schema_converted, schema_looked_up,
    schema_outcome, schema_registered, schemas_converted, schemas_looked_up, schemas_registered,
    schemas_traced, OperationProgress, SchemaProgress, SchemaTrace, ANNOUNCED_SCHEMA,
};
use crate::operation_registry::OperationRegistry;
use crate::orchestrator::{
    ClientModOutput, CollectionTrace, GenerationArtifacts, Orchestrator, PreparedRun,
};
use crate::registration::OperationEntry;
use crate::report::GenerationStats;
use crate::statistics::{text_of, warning_views};
use oas3::Spec;
use std::collections::BTreeSet;
use vstd::prelude::*;

verus! {

/// Whether two configurations ask for the same conversions.
pub open spec fn same_config(x: CodegenConfig, y: CodegenConfig) -> bool {
    &&& x.enum_case == y.enum_case
    &&& x.enum_helpers == y.enum_helpers
    &&& x.enum_deserialize == y.enum_deserialize
    &&& x.odata == y.odata
    &&& x.customizations@ == y.customizations@
}

/// Whether a document is always loaded the same way.
pub open spec fn loads_alike<B: GeneratorBackend>(backend: B) -> bool {
    forall|spec: Spec, a: LoadedSchemas<B::Graph>, b: LoadedSchemas<B::Graph>|
        {
            &&& #[trigger] call_ensures(B::from_spec, (&backend, spec), a)
            &&& #[trigger] call_ensures(B::from_spec, (&backend, spec), b)
        } ==> a == b
}

/// Whether the dependencies in a graph are always built the same way.
pub open spec fn depends_alike<B: GeneratorBackend>(backend: B) -> bool {
    forall|graph: B::Graph, a: B::Graph, b: B::Graph|
        {
            &&& #[trigger] call_ensures(B::build_dependencies, (&backend, graph), a)
            &&& #[trigger] call_ensures(B::build_dependencies, (&backend, graph), b)
        } ==> a == b
}

/// Whether the same cycles are always detected in a graph.
pub open spec fn cycles_alike<B: GeneratorBackend>(backend: B) -> bool {
    forall|graph: B::Graph, a: Vec<Vec<String>>, b: Vec<Vec<String>>|
        {
            &&& #[trigger] call_ensures(B::detect_cycles, (&backend, &graph), a)
            &&& #[trigger] call_ensures(B::detect_cycles, (&backend, &graph), b)
        } ==> a == b
}

/// Whether operations always reach the same schemas of a graph.
pub open spec fn reaches_alike<B: GeneratorBackend>(backend: B) -> bool {
    forall|graph: B::Graph, registry: OperationRegistry, a: BTreeSet<String>, b: BTreeSet<String>|
        {
            &&& #[trigger] call_ensures(B::reachable, (&backend, &graph, &registry), a)
            &&& #[trigger] call_ensures(B::reachable, (&backend, &graph, &registry), b)
        } ==> a == b
}

/// Whether a graph always lists the same names.
pub open spec fn lists_alike<B: GeneratorBackend>(backend: B) -> bool {
    forall|graph: B::Graph, a: Vec<String>, b: Vec<String>|
        {
            &&& #[trigger] call_ensures(B::keys, (&backend, &graph), a)
            &&& #[trigger] call_ensures(B::keys, (&backend, &graph), b)
        } ==> a == b
}

/// Whether a graph always holds the same names.
pub open spec fn holds_alike<B: GeneratorBackend>(backend: B) -> bool {
    forall|graph: B::Graph, name: &str, a: bool, b: bool|
        {
            &&& #[trigger] call_ensures(B::contains, (&backend, &graph, name), a)
            &&& #[trigger] call_ensures(B::contains, (&backend, &graph, name), b)
        } ==> a == b
}

/// Whether the same schema is always found under a name.
pub open spec fn finds_alike<B: GeneratorBackend>(backend: B) -> bool {
    forall|
        graph: B::Graph,
        x: &str,
        y: &str,
        a: Option<ObjectSchema<B::Schema>>,
        b: Option<ObjectSchema<B::Schema>>,
    |
        {
            &&& x@ == y@
            &&& #[trigger] call_ensures(B::get, (&backend, &graph, x), a)
            &&& #[trigger] call_ensures(B::get, (&backend, &graph, y), b)
        } ==> a == b
}

/// Whether a scan of a graph always gives the same names.
pub open spec fn scans_alike<B: GeneratorBackend>(backend: B) -> bool {
    forall|
        graph: B::Graph,
        a: Result<NameScan<B::Names, B::EnumNames>, B::Error>,
        b: Result<NameScan<B::Names, B::EnumNames>, B::Error>,
    |
        {
            &&& #[trigger] call_ensures(B::scan_and_compute_names, (&backend, &graph), a)
            &&& #[trigger] call_ensures(B::scan_and_compute_names, (&backend, &graph), b)
        } ==> a == b
}

/// Whether scans without names are alike.
pub open spec fn no_names_alike<B: GeneratorBackend>(backend: B) -> bool {
    forall|a: NameScan<B::Names, B::EnumNames>, b: NameScan<B::Names, B::EnumNames>|
        {
            &&& #[trigger] call_ensures(B::no_names, (&backend,), a)
            &&& #[trigger] call_ensures(B::no_names, (&backend,), b)
        } ==> a == b
}

/// Whether empty caches are alike.
pub open spec fn new_caches_alike<B: GeneratorBackend>(backend: B) -> bool {
    forall|a: B::Cache, b: B::Cache|
        {
            &&& #[trigger] call_ensures(B::new_cache, (&backend,), a)
            &&& #[trigger] call_ensures(B::new_cache, (&backend,), b)
        } ==> a == b
}

/// Whether names are always fixed in a cache the same way.
pub open spec fn fixes_names_alike<B: GeneratorBackend>(backend: B) -> bool {
    forall|cache: B::Cache, names: B::Names, enum_names: B::EnumNames, a: B::Cache, b: B::Cache|
        {
            &&& #[trigger] call_ensures(
                B::set_precomputed_names,
                (&backend, cache, names, enum_names),
                a,
            )
            &&& #[trigger] call_ensures(
                B::set_precomputed_names,
                (&backend, cache, names, enum_names),
                b,
            )
        } ==> a == b
}

/// Whether conversions are always prepared the same way.
pub open spec fn opens_alike<B: GeneratorBackend>(backend: B) -> bool {
    forall|
        graph: B::Graph,
        x: CodegenConfig,
        y: CodegenConfig,
        cache: B::Cache,
        reachable: Option<&BTreeSet<String>>,
        a: B::Context,
        b: B::Context,
    |
        {
            &&& same_config(x, y)
            &&& #[trigger] call_ensures(B::new_context, (&backend, &graph, x, cache, reachable), a)
            &&& #[trigger] call_ensures(B::new_context, (&backend, &graph, y, cache, reachable), b)
        } ==> a == b
}

/// Whether a schema is always made known the same way.
pub open spec fn registers_alike<B: GeneratorBackend>(backend: B) -> bool {
    forall|
        context: B::Context,
        schema: ObjectSchema<B::Schema>,
        x: &str,
        y: &str,
        a: (B::Context, Result<(), B::Error>),
        b: (B::Context, Result<(), B::Error>),
    |
        {
            &&& x@ == y@
            &&& #[trigger] call_ensures(B::register_schema, (&backend, context, &schema, x), a)
            &&& #[trigger] call_ensures(B::register_schema, (&backend, context, &schema, y), b)
        } ==> a == b
}

/// Whether a schema is always converted the same way.
pub open spec fn converts_schemas_alike<B: GeneratorBackend>(backend: B) -> bool {
    forall|
        context: B::Context,
        x: &str,
        y: &str,
        schema: ObjectSchema<B::Schema>,
        a: (B::Context, Result<Vec<RustType<B::Definition>>, B::Error>),
        b: (B::Context, Result<Vec<RustType<B::Definition>>, B::Error>),
    |
        {
            &&& x@ == y@
            &&& #[trigger] call_ensures(B::convert_schema, (&backend, context, x, &schema), a)
            &&& #[trigger] call_ensures(B::convert_schema, (&backend, context, y, &schema), b)
        } ==> a == b
}

/// Whether recorders without records are alike.
pub open spec fn new_recorders_alike<B: GeneratorBackend>(backend: B) -> bool {
    forall|a: B::Recorder, b: B::Recorder|
        {
            &&& #[trigger] call_ensures(B::new_recorder, (&backend,), a)
            &&& #[trigger] call_ensures(B::new_recorder, (&backend,), b)
        } ==> a == b
}

/// Whether an operation is always converted the same way.
pub open spec fn converts_operations_alike<B: GeneratorBackend>(backend: B) -> bool {
    forall|
        context: B::Context,
        recorder: B::Recorder,
        entry: OperationEntry,
        a: (
            B::Context,
            B::Recorder,
            Result<ConvertedOperation<B::Definition, B::OperationDetail>, B::Error>,
        ),
        b: (
            B::Context,
            B::Recorder,
            Result<ConvertedOperation<B::Definition, B::OperationDetail>, B::Error>,
        ),
    |
        {
            &&& #[trigger] call_ensures(
                B::convert_operation,
                (&backend, context, recorder, &entry),
                a,
            )
            &&& #[trigger] call_ensures(
                B::convert_operation,
                (&backend, context, recorder, &entry),
                b,
            )
        } ==> a == b
}

/// Whether an error is always put in the same words.
pub open spec fn words_alike<B: GeneratorBackend>(backend: B) -> bool {
    forall|error: B::Error, a: String, b: String|
        {
            &&& #[trigger] call_ensures(B::error_text, (&backend, &error), a)
            &&& #[trigger] call_ensures(B::error_text, (&backend, &error), b)
        } ==> a == b
}

/// Whether conversions always leave the same cache.
pub open spec fn leaves_alike<B: GeneratorBackend>(backend: B) -> bool {
    forall|context: B::Context, a: B::Cache, b: B::Cache|
        {
            &&& #[trigger] call_ensures(B::take_cache, (&backend, context), a)
            &&& #[trigger] call_ensures(B::take_cache, (&backend, context), b)
        } ==> a == b
}

/// Whether a cache always holds the same types.
pub open spec fn holds_types_alike<B: GeneratorBackend>(backend: B) -> bool {
    forall|cache: B::Cache, a: Vec<RustType<B::Definition>>, b: Vec<RustType<B::Definition>>|
        {
            &&& #[trigger] call_ensures(B::into_types, (&backend, cache), a)
            &&& #[trigger] call_ensures(B::into_types, (&backend, cache), b)
        } ==> a == b
}

/// Whether a recorder always records the same use of types.
pub open spec fn records_alike<B: GeneratorBackend>(backend: B) -> bool {
    forall|recorder: B::Recorder, a: B::UsageMap, b: B::UsageMap|
        {
            &&& #[trigger] call_ensures(B::into_usage_map, (&backend, recorder), a)
            &&& #[trigger] call_ensures(B::into_usage_map, (&backend, recorder), b)
        } ==> a == b
}

/// Whether types and operations are always adjusted the same way.
pub open spec fn analyzes_alike<B: GeneratorBackend>(backend: B) -> bool {
    forall|
        x: Vec<RustType<B::Definition>>,
        y: Vec<RustType<B::Definition>>,
        u: Vec<OperationInfo<B::OperationDetail>>,
        v: Vec<OperationInfo<B::OperationDetail>>,
        usage: B::UsageMap,
        a: (Vec<RustType<B::Definition>>, Vec<OperationInfo<B::OperationDetail>>),
        b: (Vec<RustType<B::Definition>>, Vec<OperationInfo<B::OperationDetail>>),
    |
        {
            &&& x@ == y@
            &&& u@ == v@
            &&& #[trigger] call_ensures(B::analyze, (&backend, x, u, usage), a)
            &&& #[trigger] call_ensures(B::analyze, (&backend, y, v, usage), b)
        } ==> a == b
}

/// Whether every question that is asked to convert the schemas of a graph is always answered the
/// same way.
pub open spec fn answers_on_schemas_alike<B: GeneratorBackend>(backend: B) -> bool {
    &&& lists_alike(backend)
    &&& holds_alike(backend)
    &&& finds_alike(backend)
    &&& registers_alike(backend)
    &&& converts_schemas_alike(backend)
    &&& words_alike(backend)
}

/// Whether every question that is asked before source code is written is always answered the same
/// way.
pub open spec fn answers_alike<B: GeneratorBackend>(backend: B) -> bool {
    &&& answers_on_schemas_alike(backend)
    &&& loads_alike(backend)
    &&& depends_alike(backend)
    &&& cycles_alike(backend)
    &&& reaches_alike(backend)
    &&& scans_alike(backend)
    &&& no_names_alike(backend)
    &&& new_caches_alike(backend)
    &&& fixes_names_alike(backend)
    &&& opens_alike(backend)
    &&& new_recorders_alike(backend)
    &&& converts_operations_alike(backend)
    &&& leaves_alike(backend)
    &&& holds_types_alike(backend)
    &&& records_alike(backend)
    &&& analyzes_alike(backend)
}

proof fn lemma_found_alike<B: GeneratorBackend>(
    backend: B,
    graph: B::Graph,
    names: Seq<String>,
    a: Seq<SchemaKey<B::Schema>>,
    b: Seq<SchemaKey<B::Schema>>,
)
    requires
        finds_alike(backend),
        schemas_looked_up(backend, graph, names, a),
        schemas_looked_up(backend, graph, names, b),
    ensures
        a == b,
{
    assert forall|i: int| 0 <= i < a.len() implies a[i] == b[i] by {
        assert(schema_looked_up(backend, graph, names[i], a[i]));
        assert(schema_looked_up(backend, graph, names[i], b[i]));
    }
    assert(a =~= b);
}

proof fn lemma_registered_alike<B: GeneratorBackend>(
    backend: B,
    keys: Seq<SchemaKey<B::Schema>>,
    before: B::Context,
    a: B::Context,
    b: B::Context,
)
    requires
        registers_alike(backend),
        schemas_registered(backend, keys, before, a),
        schemas_registered(backend, keys, before, b),
    ensures
        a == b,
    decreases keys.len(),
{
    if keys.len() > 0 {
        let rest = keys.drop_last();
        let x = choose|x: B::Context|
            schemas_registered(backend, rest, before, x) && #[trigger] schema_registered(
                backend,
                keys.last(),
                x,
                a,
            );
        let y = choose|y: B::Context|
            schemas_registered(backend, rest, before, y) && #[trigger] schema_registered(
                backend,
                keys.last(),
                y,
                b,
            );
        lemma_registered_alike(backend, rest, before, x, y);
        if let Some(schema) = keys.last().schema {
            let (name, answer) = choose|name: &str, answer: Result<(), B::Error>| #[trigger]
                registration_answered(backend, keys.last(), x, a, name, answer);
            let (other, reply) = choose|other: &str, reply: Result<(), B::Error>| #[trigger]
                registration_answered(backend, keys.last(), y, b, other, reply);
            let first: (B::Context, Result<(), B::Error>) = (a, answer);
            let second: (B::Context, Result<(), B::Error>) = (b, reply);
            assert(call_ensures(B::register_schema, (&backend, x, &schema, name), first));
            assert(call_ensures(B::register_schema, (&backend, x, &schema, other), second));
            assert(first == second);
        }
    }
}

proof fn lemma_converted_alike<B: GeneratorBackend>(
    backend: B,
    keys: Seq<SchemaKey<B::Schema>>,
    before: SchemaProgress<B>,
    a: SchemaProgress<B>,
    b: SchemaProgress<B>,
)
    requires
        answers_on_schemas_alike(backend),
        schemas_converted(backend, keys, before, a),
        schemas_converted(backend, keys, before, b),
    ensures
        a == b,
    decreases keys.len(),
{
    if keys.len() > 0 {
        let rest = keys.drop_last();
        let x = choose|x: SchemaProgress<B>|
            schemas_converted(backend, rest, before, x) && #[trigger] schema_converted(
                backend,
                keys.last(),
                x,
                a,
            );
        let y = choose|y: SchemaProgress<B>|
            schemas_converted(backend, rest, before, y) && #[trigger] schema_converted(
                backend,
                keys.last(),
                y,
                b,
            );
        lemma_converted_alike(backend, rest, before, x, y);
        if let Some(schema) = keys.last().schema {
            let (name, answer, outcome) = choose|
                name: &str,
                answer: Result<Vec<RustType<B::Definition>>, B::Error>,
                outcome: Result<Vec<RustType<B::Definition>>, String>,
            | #[trigger]
                schema_outcome(backend, keys.last(), x, a, name, answer, outcome);
            let (other, reply, result) = choose|
                other: &str,
                reply: Result<Vec<RustType<B::Definition>>, B::Error>,
                result: Result<Vec<RustType<B::Definition>>, String>,
            | #[trigger]
                schema_outcome(backend, keys.last(), y, b, other, reply, result);
            let first: (B::Context, Result<Vec<RustType<B::Definition>>, B::Error>) = (
                a.context,
                answer,
            );
            let second: (B::Context, Result<Vec<RustType<B::Definition>>, B::Error>) = (
                b.context,
                reply,
            );
            assert(call_ensures(
                B::convert_schema,
                (&backend, x.context, name, &schema),
                first,
            ));
            assert(call_ensures(
                B::convert_schema,
                (&backend, x.context, other, &schema),
                second,
            ));
            assert(first == second);
            assert(outcome == result);
        }
    }
}

/// Where the backend always answers alike, the schemas of a graph are converted from a context to
/// the same types, warnings and console lines, whichever of them operations reach.
pub proof fn law_schemas_are_converted_alike<B: GeneratorBackend>(
    backend: B,
    graph: B::Graph,
    before: B::Context,
    a: SchemaProgress<B>,
    b: SchemaProgress<B>,
)
    requires
        answers_on_schemas_alike(backend),
        all_schemas_converted(backend, graph, before, a),
        all_schemas_converted(backend, graph, before, b),
    ensures
        a == b,
{
    let x = choose|x: SchemaTrace<B>| #[trigger] schemas_traced(backend, graph, before, x, a);
    let y = choose|y: SchemaTrace<B>| #[trigger] schemas_traced(backend, graph, before, y, b);
    assert(call_ensures(B::keys, (&backend, &graph), x.names));
    assert(call_ensures(B::keys, (&backend, &graph), y.names));
    lemma_found_alike(backend, graph, x.names@, x.keys, y.keys);
    assert(call_ensures(B::contains, (&backend, &graph, ANNOUNCED_SCHEMA), x.held));
    assert(call_ensures(B::contains, (&backend, &graph, ANNOUNCED_SCHEMA), y.held));
    let order = conversion_order(x.keys);
    lemma_registered_alike(backend, order, before, x.known, y.known);
    let start = choose|start: SchemaProgress<B>| #[trigger]
        schemas_converted(backend, order, start, a) && schemas_converted(backend, order, start, b);
    lemma_converted_alike(backend, order, start, a, b);
}

/// Where the backend always answers alike, operations are converted from the same progress to the
/// same progress.
pub proof fn law_operations_are_converted_alike<B: GeneratorBackend>(
    backend: B,
    entries: Seq<OperationEntry>,
    before: OperationProgress<B>,
    a: OperationProgress<B>,
    b: OperationProgress<B>,
)
    requires
        converts_operations_alike(backend),
        words_alike(backend),
        operations_converted(backend, entries, before, a),
        operations_converted(backend, entries, before, b),
    ensures
        a == b,
    decreases entries.len(),
{
    if entries.len() > 0 {
        let rest = entries.drop_last();
        let entry = entries.last();
        let x = choose|x: OperationProgress<B>|
            operations_converted(backend, rest, before, x) && #[trigger] operation_converted(
                backend,
                entry,
                x,
                a,
            );
        let y = choose|y: OperationProgress<B>|
            operations_converted(backend, rest, before, y) && #[trigger] operation_converted(
                backend,
                entry,
                y,
                b,
            );
        law_operations_are_converted_alike(backend, rest, before, x, y);
        let (answer, outcome) = choose|
            answer: Result<ConvertedOperation<B::Definition, B::OperationDetail>, B::Error>,
            outcome: Result<ConvertedOperation<B::Definition, B::OperationDetail>, String>,
        | #[trigger]
            operation_outcome(backend, entry, x, a, answer, outcome);
        let (reply, result) = choose|
            reply: Result<ConvertedOperation<B::Definition, B::OperationDetail>, B::Error>,
            result: Result<ConvertedOperation<B::Definition, B::OperationDetail>, String>,
        | #[trigger]
            operation_outcome(backend, entry, y, b, reply, result);
        let first: (
            B::Context,
            B::Recorder,
            Result<ConvertedOperation<B::Definition, B::OperationDetail>, B::Error>,
        ) = (a.context, a.recorder, answer);
        let second: (
            B::Context,
            B::Recorder,
            Result<ConvertedOperation<B::Definition, B::OperationDetail>, B::Error>,
        ) = (b.context, b.recorder, reply);
        assert(call_ensures(
            B::convert_operation,
            (&backend, x.context, x.recorder, &entry),
            first,
        ));
        assert(call_ensures(
            B::convert_operation,
            (&backend, x.context, x.recorder, &entry),
            second,
        ));
        assert(first == second);
        assert(outcome == result);
    }
}

/// Whether two statistics agree in everything but what is counted of a client.
pub open spec fn same_run_counts(a: GenerationStats, b: GenerationStats) -> bool {
    &&& a.types_generated == b.types_generated
    &&& a.structs_generated == b.structs_generated
    &&& a.enums_generated == b.enums_generated
    &&& a.enums_with_helpers_generated == b.enums_with_helpers_generated
    &&& a.type_aliases_generated == b.type_aliases_generated
    &&& a.operations_converted == b.operations_converted
    &&& a.webhooks_converted == b.webhooks_converted
    &&& a.cycles_detected == b.cycles_detected
    &&& a.cycle_details == b.cycle_details
    &&& warning_views(a.warnings@) == warning_views(b.warnings@)
    &&& a.orphaned_schemas_count == b.orphaned_schemas_count
}

/// Whether two statistics agree in everything.
pub open spec fn same_counts(a: GenerationStats, b: GenerationStats) -> bool {
    &&& same_run_counts(a, b)
    &&& a.client_methods_generated == b.client_methods_generated
    &&& a.client_headers_generated == b.client_headers_generated
}

proof fn lemma_traced_alike<B: GeneratorBackend>(
    run: Orchestrator<B>,
    x: CollectionTrace<B>,
    y: CollectionTrace<B>,
)
    requires
        answers_alike(run.backend),
        run.traces(x),
        run.traces(y),
    ensures
        x.loaded == y.loaded,
        x.cycle_details == y.cycle_details,
        x.reachable == y.reachable,
        x.names == y.names,
        x.schemas == y.schemas,
        x.operations == y.operations,
        x.cached == y.cached,
{
    assert(x.loaded == y.loaded);
    assert(x.graph == y.graph);
    assert(x.cycle_details == y.cycle_details);
    if !run.include_unused_schemas {
        assert(x.reachable->0 == y.reachable->0);
    }
    assert(x.names == y.names);
    assert(same_config(x.config, y.config));
    assert(x.scanned == y.scanned);
    assert(x.precomputed == y.precomputed);
    assert(x.empty == y.empty);
    assert(x.cache == y.cache);
    assert(x.opened == y.opened);
    law_schemas_are_converted_alike(run.backend, x.graph, x.opened, x.schemas, y.schemas);
    assert(x.recorder == y.recorder);
    law_operations_are_converted_alike(
        run.backend,
        run.operation_registry.entries(),
        OperationProgress {
            context: x.schemas.context,
            recorder: x.recorder,
            types: Seq::empty(),
            infos: Seq::empty(),
            warnings: Seq::empty(),
        },
        x.operations,
        y.operations,
    );
    assert(x.filled == y.filled);
    assert(x.cached == y.cached);
}

/// Where the backend always answers alike, a run always collects the same artifacts.
pub proof fn law_artifacts_are_collected_alike<B: GeneratorBackend>(
    run: Orchestrator<B>,
    a: GenerationArtifacts<B>,
    b: GenerationArtifacts<B>,
)
    requires
        answers_alike(run.backend),
        run.collects(a),
        run.collects(b),
    ensures
        a.rust_types@ == b.rust_types@,
        a.operations_info@ == b.operations_info@,
        a.usage_recorder == b.usage_recorder,
        same_counts(a.stats, b.stats),
        text_of(a.console@) == text_of(b.console@),
{
    let x = choose|x: CollectionTrace<B>| #[trigger] run.traces(x) && x.yields(a);
    let y = choose|y: CollectionTrace<B>| #[trigger] run.traces(y) && y.yields(b);
    lemma_traced_alike(run, x, y);
}

/// Where the backend always answers alike, source code is always written from the same types,
/// operations and statistics.
pub proof fn law_runs_are_prepared_alike<B: GeneratorBackend>(
    run: Orchestrator<B>,
    a: PreparedRun<B>,
    b: PreparedRun<B>,
)
    requires
        answers_alike(run.backend),
        run.prepares(a),
        run.prepares(b),
    ensures
        a.rust_types == b.rust_types,
        a.operations_info == b.operations_info,
        same_counts(a.stats, b.stats),
        text_of(a.console@) == text_of(b.console@),
{
    let x = choose|x: GenerationArtifacts<B>|
        {
            &&& #[trigger] run.collects(x)
            &&& x.stats == a.stats
            &&& x.console == a.console
            &&& run.analyzes(x, a.rust_types, a.operations_info)
        };
    let y = choose|y: GenerationArtifacts<B>|
        {
            &&& #[trigger] run.collects(y)
            &&& y.stats == b.stats
            &&& y.console == b.console
            &&& run.analyzes(y, b.rust_types, b.operations_info)
        };
    law_artifacts_are_collected_alike(run, x, y);
    let backend = run.backend;
    let usage = choose|usage: B::UsageMap|
        {
            &&& #[trigger] call_ensures(B::into_usage_map, (&backend, x.usage_recorder), usage)
            &&& call_ensures(
                B::analyze,
                (&backend, x.rust_types, x.operations_info, usage),
                (a.rust_types, a.operations_info),
            )
        };
    let first: (Vec<RustType<B::Definition>>, Vec<OperationInfo<B::OperationDetail>>) = (
        a.rust_types,
        a.operations_info,
    );
    let second: (Vec<RustType<B::Definition>>, Vec<OperationInfo<B::OperationDetail>>) = (
        b.rust_types,
        b.operations_info,
    );
    assert(call_ensures(B::analyze, (&backend, x.rust_types, x.operations_info, usage), first));
    assert(call_ensures(B::analyze, (&backend, y.rust_types, y.operations_info, usage), second));
    assert(first == second);
}

/// Where the backend always answers alike, the statistics of a file of the client and of a client
/// module agree in everything, whatever the sources are said to come from.
pub proof fn law_client_statistics_agree<B: GeneratorBackend>(
    run: Orchestrator<B>,
    source_path: &str,
    output: (String, GenerationStats),
    other_path: &str,
    module: ClientModOutput,
)
    requires
        answers_alike(run.backend),
        run.client_generated(source_path, Ok(output)),
        run.module_generated(other_path, Ok(module)),
    ensures
        same_counts(output.1, module.stats),
{
    let a = choose|a: PreparedRun<B>| #[trigger]
        run.prepares(a) && run.client_run_ended(a, source_path, Ok(output));
    let b = choose|b: PreparedRun<B>| #[trigger]
        run.prepares(b) && run.module_run_ended(b, other_path, Ok(module));
    law_runs_are_prepared_alike(run, a, b);
}

/// Where the backend always answers alike, the statistics of a file of the types agree with those
/// of a client module in everything but what is counted of the client.
pub proof fn law_types_statistics_agree<B: GeneratorBackend>(
    run: Orchestrator<B>,
    source_path: &str,
    output: (String, GenerationStats),
    other_path: &str,
    module: ClientModOutput,
)
    requires
        answers_alike(run.backend),
        run.types_generated(source_path, Ok(output)),
        run.module_generated(other_path, Ok(module)),
    ensures
        same_run_counts(output.1, module.stats),
{
    let a = choose|a: PreparedRun<B>| #[trigger]
        run.prepares(a) && run.types_run_ended(a, source_path, Ok(output));
    let b = choose|b: PreparedRun<B>| #[trigger]
        run.prepares(b) && run.module_run_ended(b, other_path, Ok(module));
    law_runs_are_prepared_alike(run, a, b);
}

} // verus!
