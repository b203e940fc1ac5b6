//! The conversion of schemas and operations, one after another.

use crate::ast::{OperationInfo, RustType};
use crate::backend::{ConvertedOperation, GeneratorBackend, SchemaKey};
use crate::registration::OperationEntry;
use crate::report::{GenerationWarning, GenerationWarningView};
use crate::statistics::{text_of, warning_views};
use std::collections::BTreeSet;
use vstd::prelude::*;

verus! {

/// The schema whose presence in the graph is announced before schemas are converted.
pub const ANNOUNCED_SCHEMA: &'static str = "BetaJsonValue";

/// Whether a schema is found under a name and lists enum values.
pub open spec fn lists_values<S>(key: SchemaKey<S>) -> bool {
    key.schema matches Some(schema) && schema.enum_values > 0
}

/// Schemas in the order in which they are converted: those that list enum values before the
/// others, each group in the order in which it was.
pub open spec fn conversion_order<S>(keys: Seq<SchemaKey<S>>) -> Seq<SchemaKey<S>> {
    keys.filter(|key: SchemaKey<S>| lists_values(key)) + keys.filter(
        |key: SchemaKey<S>| !lists_values(key),
    )
}

/// Brings schemas into the order in which they are converted.
pub fn sort_for_conversion<S>(keys: Vec<SchemaKey<S>>) -> (order: Vec<SchemaKey<S>>)
    ensures
        order@ == conversion_order(keys@),
{
    let ghost all = keys@;
    let mut listing: Vec<SchemaKey<S>> = Vec::new();
    let mut others: Vec<SchemaKey<S>> = Vec::new();
    proof {
        reveal(Seq::filter);
    }
    for key in walk: keys
        invariant
            walk.seq() == all,
            listing@ == all.take(walk.index()).filter(|key: SchemaKey<S>| lists_values(key)),
            others@ == all.take(walk.index()).filter(|key: SchemaKey<S>| !lists_values(key)),
    {
        proof {
            reveal(Seq::filter);
            assert(all.take(walk.index() + 1).drop_last() =~= all.take(walk.index()));
        }
        let lists = match &key.schema {
            Some(schema) => schema.enum_values > 0,
            None => false,
        };
        if lists {
            listing.push(key);
        } else {
            others.push(key);
        }
    }
    assert(all.take(all.len() as int) =~= all);
    listing.append(&mut others);
    listing
}

/// Whether an outcome is an answer of the backend, its error put in words by the backend.
pub open spec fn put_in_words<B: GeneratorBackend, T>(
    backend: B,
    answer: Result<T, B::Error>,
    outcome: Result<T, String>,
) -> bool {
    match answer {
        Ok(value) => outcome == Ok::<T, String>(value),
        Err(error) => outcome matches Err(text) && call_ensures(
            B::error_text,
            (&backend, &error),
            text,
        ),
    }
}

/// Puts the error of an answer in words.
fn in_words<B: GeneratorBackend, T>(backend: &B, answer: Result<T, B::Error>) -> (outcome: Result<
    T,
    String,
>)
    ensures
        put_in_words(*backend, answer, outcome),
{
    match answer {
        Ok(value) => Ok(value),
        Err(error) => {
            let text = backend.error_text(&error);
            assert(call_ensures(B::error_text, (backend, &error), text));
            Err(text)
        },
    }
}

/// The types after a schema's conversion.
pub open spec fn schema_types<D>(
    types: Seq<RustType<D>>,
    outcome: Result<Vec<RustType<D>>, String>,
) -> Seq<RustType<D>> {
    match outcome {
        Ok(made) => types + made@,
        Err(_) => types,
    }
}

/// The warnings after a schema's conversion.
pub open spec fn schema_warnings<D>(
    warnings: Seq<GenerationWarningView>,
    schema_name: Seq<char>,
    outcome: Result<Vec<RustType<D>>, String>,
) -> Seq<GenerationWarningView> {
    match outcome {
        Ok(_) => warnings,
        Err(error) => warnings.push(
            GenerationWarningView::SchemaConversionFailed { schema_name, error: error@ },
        ),
    }
}

/// Takes in what came of a schema's conversion.
pub fn absorb_schema<D>(
    rust_types: &mut Vec<RustType<D>>,
    warnings: &mut Vec<GenerationWarning>,
    schema_name: &str,
    outcome: Result<Vec<RustType<D>>, String>,
)
    ensures
        final(rust_types)@ == schema_types(old(rust_types)@, outcome),
        warning_views(final(warnings)@) == schema_warnings(
            warning_views(old(warnings)@),
            schema_name@,
            outcome,
        ),
{
    match outcome {
        Ok(types) => {
            let mut types = types;
            rust_types.append(&mut types);
        },
        Err(error) => {
            warnings.push(
                GenerationWarning::SchemaConversionFailed {
                    schema_name: schema_name.to_owned(),
                    error,
                },
            );
            assert(warning_views(warnings@) =~= schema_warnings(
                warning_views(old(warnings)@),
                schema_name@,
                outcome,
            ));
        },
    }
}

/// The warnings that an operation's conversion gave, each under the operation's id.
pub open spec fn operation_specific<O>(info: OperationInfo<O>) -> Seq<GenerationWarningView> {
    info.warnings@.map_values(
        |message: String|
            GenerationWarningView::OperationSpecific {
                operation_id: info.operation_id@,
                message: message@,
            },
    )
}

/// The types after an operation's conversion.
pub open spec fn operation_types<D, O>(
    types: Seq<RustType<D>>,
    outcome: Result<ConvertedOperation<D, O>, String>,
) -> Seq<RustType<D>> {
    match outcome {
        Ok(converted) => types + converted.types@,
        Err(_) => types,
    }
}

/// The operations after an operation's conversion.
pub open spec fn operation_infos<D, O>(
    infos: Seq<OperationInfo<O>>,
    outcome: Result<ConvertedOperation<D, O>, String>,
) -> Seq<OperationInfo<O>> {
    match outcome {
        Ok(converted) => infos.push(converted.operation_info),
        Err(_) => infos,
    }
}

/// The warnings after an operation's conversion.
pub open spec fn operation_warnings<D, O>(
    warnings: Seq<GenerationWarningView>,
    entry: OperationEntry,
    outcome: Result<ConvertedOperation<D, O>, String>,
) -> Seq<GenerationWarningView> {
    match outcome {
        Ok(converted) => warnings + operation_specific(converted.operation_info),
        Err(error) => warnings.push(
            GenerationWarningView::OperationConversionFailed {
                method: entry.method@,
                path: entry.path@,
                error: error@,
            },
        ),
    }
}

/// Takes in what came of an operation's conversion.
pub fn absorb_operation<D, O>(
    rust_types: &mut Vec<RustType<D>>,
    operations_info: &mut Vec<OperationInfo<O>>,
    warnings: &mut Vec<GenerationWarning>,
    entry: &OperationEntry,
    outcome: Result<ConvertedOperation<D, O>, String>,
)
    ensures
        final(rust_types)@ == operation_types(old(rust_types)@, outcome),
        final(operations_info)@ == operation_infos(old(operations_info)@, outcome),
        warning_views(final(warnings)@) == operation_warnings(
            warning_views(old(warnings)@),
            *entry,
            outcome,
        ),
{
    match outcome {
        Ok(converted) => {
            let info = converted.operation_info;
            let mut i: usize = 0;
            assert(operation_specific(info).take(0) =~= Seq::empty());
            while i < info.warnings.len()
                invariant
                    i <= info.warnings.len(),
                    warning_views(warnings@) == warning_views(old(warnings)@) + operation_specific(
                        info,
                    ).take(i as int),
                decreases info.warnings.len() - i,
            {
                let ghost earlier = warnings@;
                warnings.push(
                    GenerationWarning::OperationSpecific {
                        operation_id: info.operation_id.clone(),
                        message: info.warnings[i].clone(),
                    },
                );
                proof {
                    let specific = operation_specific(info);
                    assert(warning_views(warnings@) =~= warning_views(earlier).push(
                        specific[i as int],
                    ));
                    assert(specific.take(i + 1) =~= specific.take(i as int).push(
                        specific[i as int],
                    ));
                }
                i = i + 1;
            }
            assert(operation_specific(info).take(operation_specific(info).len() as int)
                =~= operation_specific(info));
            let mut types = converted.types;
            rust_types.append(&mut types);
            operations_info.push(info);
        },
        Err(error) => {
            warnings.push(
                GenerationWarning::OperationConversionFailed {
                    method: entry.method.clone(),
                    path: entry.path.clone(),
                    error,
                },
            );
            assert(warning_views(warnings@) =~= operation_warnings(
                warning_views(old(warnings)@),
                *entry,
                outcome,
            ));
        },
    }
}

/// Whether this is what the graph holds under a name.
pub open spec fn schema_looked_up<B: GeneratorBackend>(
    backend: B,
    graph: B::Graph,
    name: String,
    key: SchemaKey<B::Schema>,
) -> bool {
    &&& key.name == name
    &&& exists|text: &str|
        text@ == name@ && #[trigger] call_ensures(B::get, (&backend, &graph, text), key.schema)
}

/// Whether this is what the graph holds under the names, in order.
pub open spec fn schemas_looked_up<B: GeneratorBackend>(
    backend: B,
    graph: B::Graph,
    names: Seq<String>,
    keys: Seq<SchemaKey<B::Schema>>,
) -> bool {
    &&& keys.len() == names.len()
    &&& forall|i: int|
        0 <= i < keys.len() ==> schema_looked_up(backend, graph, names[i], #[trigger] keys[i])
}

/// Looks the names up in the graph, in order.
fn look_up_schemas<B: GeneratorBackend>(
    backend: &B,
    graph: &B::Graph,
    names: Vec<String>,
) -> (keys: Vec<SchemaKey<B::Schema>>)
    ensures
        schemas_looked_up(*backend, *graph, names@, keys@),
{
    let ghost all = names@;
    let mut keys: Vec<SchemaKey<B::Schema>> = Vec::new();
    for name in walk: names
        invariant
            walk.seq() == all,
            schemas_looked_up(*backend, *graph, all.take(walk.index()), keys@),
    {
        let ghost at = walk.index();
        let ghost earlier = keys@;
        let text = name.as_str();
        let schema = backend.get(graph, text);
        assert(call_ensures(B::get, (backend, graph, text), schema));
        let key = SchemaKey { name, schema };
        assert(schema_looked_up(*backend, *graph, all[at], key));
        keys.push(key);
        assert forall|i: int| 0 <= i < keys@.len() implies schema_looked_up(
            *backend,
            *graph,
            all.take(at + 1)[i],
            #[trigger] keys@[i],
        ) by {
            if i < at {
                assert(keys@[i] == earlier[i]);
                assert(all.take(at + 1)[i] == all.take(at)[i]);
            }
        }
    }
    assert(all.take(all.len() as int) =~= all);
    keys
}

/// Whether the backend, asked to make a schema known, turns the context `before` into `after`
/// with this answer.
pub open spec fn registration_answered<B: GeneratorBackend>(
    backend: B,
    key: SchemaKey<B::Schema>,
    before: B::Context,
    after: B::Context,
    name: &str,
    answer: Result<(), B::Error>,
) -> bool {
    &&& name@ == key.name@
    &&& key.schema matches Some(schema) && call_ensures(
        B::register_schema,
        (&backend, before, &schema, name),
        (after, answer),
    )
}

/// Whether making one schema known turns the context `before` into `after`, be it that it
/// succeeds or fails. A name without a schema is passed over.
pub open spec fn schema_registered<B: GeneratorBackend>(
    backend: B,
    key: SchemaKey<B::Schema>,
    before: B::Context,
    after: B::Context,
) -> bool {
    if key.schema is Some {
        exists|name: &str, answer: Result<(), B::Error>| #[trigger]
            registration_answered(backend, key, before, after, name, answer)
    } else {
        after == before
    }
}

/// Whether making the schemas known in order turns the context `before` into `after`.
pub open spec fn schemas_registered<B: GeneratorBackend>(
    backend: B,
    keys: Seq<SchemaKey<B::Schema>>,
    before: B::Context,
    after: B::Context,
) -> bool
    decreases keys.len(),
{
    if keys.len() == 0 {
        after == before
    } else {
        exists|middle: B::Context|
            schemas_registered(backend, keys.drop_last(), before, middle)
                && #[trigger] schema_registered(backend, keys.last(), middle, after)
    }
}

/// The line that announces whether the graph holds [`ANNOUNCED_SCHEMA`].
pub open spec fn announcement(held: bool) -> Seq<char> {
    "has BetaJsonValue? "@ + if held {
        "true"@
    } else {
        "false"@
    }
}

/// The line that reports a name without a schema.
pub open spec fn missing_line(name: Seq<char>) -> Seq<char> {
    "Schema not found in graph: "@ + name
}

/// The line that announces whether the graph holds [`ANNOUNCED_SCHEMA`].
pub fn announce(held: bool) -> (line: String)
    ensures
        line@ == announcement(held),
{
    let mut line = "has BetaJsonValue? ".to_owned();
    if held {
        line.append("true");
    } else {
        line.append("false");
    }
    line
}

/// The line that reports a name without a schema.
pub fn report_missing(name: &str) -> (line: String)
    ensures
        line@ == missing_line(name@),
{
    let mut line = "Schema not found in graph: ".to_owned();
    line.append(name);
    line
}

/// How far the conversion of schemas has come.
pub struct SchemaProgress<B: GeneratorBackend> {
    pub context: B::Context,
    pub types: Seq<RustType<B::Definition>>,
    pub warnings: Seq<GenerationWarningView>,
    /// The lines for the console.
    pub console: Seq<Seq<char>>,
}

/// Whether converting a schema with this answer, in words this outcome, turns the progress
/// `before` into `after`.
pub open spec fn schema_outcome<B: GeneratorBackend>(
    backend: B,
    key: SchemaKey<B::Schema>,
    before: SchemaProgress<B>,
    after: SchemaProgress<B>,
    name: &str,
    answer: Result<Vec<RustType<B::Definition>>, B::Error>,
    outcome: Result<Vec<RustType<B::Definition>>, String>,
) -> bool {
    &&& name@ == key.name@
    &&& key.schema matches Some(schema) && call_ensures(
        B::convert_schema,
        (&backend, before.context, name, &schema),
        (after.context, answer),
    )
    &&& put_in_words(backend, answer, outcome)
    &&& after.types == schema_types(before.types, outcome)
    &&& after.warnings == schema_warnings(before.warnings, key.name@, outcome)
    &&& after.console == before.console
}

/// Whether converting one schema turns the progress `before` into `after`. A name without a
/// schema is reported on the console and passed over.
pub open spec fn schema_converted<B: GeneratorBackend>(
    backend: B,
    key: SchemaKey<B::Schema>,
    before: SchemaProgress<B>,
    after: SchemaProgress<B>,
) -> bool {
    if key.schema is Some {
        exists|
            name: &str,
            answer: Result<Vec<RustType<B::Definition>>, B::Error>,
            outcome: Result<Vec<RustType<B::Definition>>, String>,
        | #[trigger]
            schema_outcome(backend, key, before, after, name, answer, outcome)
    } else {
        after == SchemaProgress { console: before.console.push(missing_line(key.name@)), ..before }
    }
}

/// Whether converting the schemas in order turns the progress `before` into `after`.
pub open spec fn schemas_converted<B: GeneratorBackend>(
    backend: B,
    keys: Seq<SchemaKey<B::Schema>>,
    before: SchemaProgress<B>,
    after: SchemaProgress<B>,
) -> bool
    decreases keys.len(),
{
    if keys.len() == 0 {
        after == before
    } else {
        exists|middle: SchemaProgress<B>|
            schemas_converted(backend, keys.drop_last(), before, middle)
                && #[trigger] schema_converted(backend, keys.last(), middle, after)
    }
}

/// What the backend answers before the first schema is converted.
pub struct SchemaTrace<B: GeneratorBackend> {
    pub names: Vec<String>,
    pub keys: Seq<SchemaKey<B::Schema>>,
    pub held: bool,
    pub known: B::Context,
}

/// Whether the schemas of a graph, with these answers of the backend, are converted from the
/// context `before` to the progress `after`.
pub open spec fn schemas_traced<B: GeneratorBackend>(
    backend: B,
    graph: B::Graph,
    before: B::Context,
    trace: SchemaTrace<B>,
    after: SchemaProgress<B>,
) -> bool {
    &&& call_ensures(B::keys, (&backend, &graph), trace.names)
    &&& schemas_looked_up(backend, graph, trace.names@, trace.keys)
    &&& call_ensures(B::contains, (&backend, &graph, ANNOUNCED_SCHEMA), trace.held)
    &&& schemas_registered(backend, conversion_order(trace.keys), before, trace.known)
    &&& schemas_converted(
        backend,
        conversion_order(trace.keys),
        SchemaProgress {
            context: trace.known,
            types: Seq::empty(),
            warnings: Seq::empty(),
            console: seq![announcement(trace.held)],
        },
        after,
    )
}

/// Whether the schemas of a graph can be converted from the context `before` to the progress
/// `after`: all are looked up, all that are found are made known, and then all are converted, in
/// the order of [`conversion_order`].
pub open spec fn all_schemas_converted<B: GeneratorBackend>(
    backend: B,
    graph: B::Graph,
    before: B::Context,
    after: SchemaProgress<B>,
) -> bool {
    exists|trace: SchemaTrace<B>| #[trigger] schemas_traced(backend, graph, before, trace, after)
}

/// Makes the schemas known in order. Where that fails, the failure is ignored.
fn register_all_schemas<B: GeneratorBackend>(
    backend: &B,
    context: B::Context,
    keys: &Vec<SchemaKey<B::Schema>>,
) -> (after: B::Context)
    ensures
        schemas_registered(*backend, keys@, context, after),
{
    let ghost before = context;
    let mut context = context;
    let mut i: usize = 0;
    while i < keys.len()
        invariant
            i <= keys.len(),
            schemas_registered(*backend, keys@.take(i as int), before, context),
        decreases keys.len() - i,
    {
        let ghost middle = context;
        let key = &keys[i];
        if let Some(schema) = &key.schema {
            let name = key.name.as_str();
            let (after, answer) = backend.register_schema(context, schema, name);
            assert(call_ensures(
                B::register_schema,
                (backend, middle, schema, name),
                (after, answer),
            ));
            context = after;
            assert(registration_answered(*backend, *key, middle, context, name, answer));
        }
        proof {
            let done = keys@.take(i + 1);
            assert(done.drop_last() =~= keys@.take(i as int));
            assert(done.last() == keys@[i as int]);
            assert(schema_registered(*backend, done.last(), middle, context));
        }
        i = i + 1;
    }
    assert(keys@.take(keys@.len() as int) =~= keys@);
    context
}

/// What converting schemas gives.
pub struct ConvertedSchemas<B: GeneratorBackend> {
    pub context: B::Context,
    pub rust_types: Vec<RustType<B::Definition>>,
    pub warnings: Vec<GenerationWarning>,
    /// The lines for the console.
    pub console: Vec<String>,
}

impl<B: GeneratorBackend> ConvertedSchemas<B> {
    /// The same, as progress.
    pub open spec fn progress(self) -> SchemaProgress<B> {
        SchemaProgress {
            context: self.context,
            types: self.rust_types@,
            warnings: warning_views(self.warnings@),
            console: text_of(self.console@),
        }
    }
}

/// Converts all schemas of a graph, in the order of [`sort_for_conversion`], after making all of
/// them known in that order. Schemas that cannot be converted are reported. Schemas that no
/// operation reaches are converted too.
pub fn convert_all_schemas<B: GeneratorBackend>(
    backend: &B,
    graph: &B::Graph,
    context: B::Context,
    _operation_reachable: Option<&BTreeSet<String>>,
) -> (converted: ConvertedSchemas<B>)
    ensures
        all_schemas_converted(*backend, *graph, context, converted.progress()),
{
    let ghost before = context;
    let names = backend.keys(graph);
    let ghost listed = names;
    assert(call_ensures(B::keys, (backend, graph), listed));
    let keys = look_up_schemas(backend, graph, names);
    let ghost found = keys@;
    let keys = sort_for_conversion(keys);
    let held = backend.contains(graph, ANNOUNCED_SCHEMA);
    assert(call_ensures(B::contains, (backend, graph, ANNOUNCED_SCHEMA), held));
    let mut console: Vec<String> = Vec::new();
    console.push(announce(held));
    let context = register_all_schemas(backend, context, &keys);
    let ghost known = context;
    let mut converted: ConvertedSchemas<B> = ConvertedSchemas {
        context,
        rust_types: Vec::new(),
        warnings: Vec::new(),
        console,
    };
    let ghost start: SchemaProgress<B> = SchemaProgress {
        context: known,
        types: Seq::empty(),
        warnings: Seq::empty(),
        console: seq![announcement(held)],
    };
    assert(warning_views(converted.warnings@) =~= Seq::empty());
    assert(text_of(converted.console@) =~= seq![announcement(held)]);
    let mut i: usize = 0;
    while i < keys.len()
        invariant
            i <= keys.len(),
            schemas_converted(*backend, keys@.take(i as int), start, converted.progress()),
        decreases keys.len() - i,
    {
        let ghost middle = converted.progress();
        let key = &keys[i];
        let name = key.name.as_str();
        let mut rust_types = converted.rust_types;
        let mut warnings = converted.warnings;
        let mut console = converted.console;
        match &key.schema {
            Some(schema) => {
                let (after, answer) = backend.convert_schema(converted.context, name, schema);
                assert(call_ensures(
                    B::convert_schema,
                    (backend, middle.context, name, schema),
                    (after, answer),
                ));
                let outcome = in_words(backend, answer);
                absorb_schema(&mut rust_types, &mut warnings, name, outcome);
                converted = ConvertedSchemas { context: after, rust_types, warnings, console };
                assert(schema_outcome(
                    *backend,
                    *key,
                    middle,
                    converted.progress(),
                    name,
                    answer,
                    outcome,
                ));
            },
            None => {
                let ghost earlier = console@;
                console.push(report_missing(name));
                assert(text_of(console@) =~= text_of(earlier).push(missing_line(name@)));
                converted =
                ConvertedSchemas { context: converted.context, rust_types, warnings, console };
            },
        }
        proof {
            let done = keys@.take(i + 1);
            assert(done.drop_last() =~= keys@.take(i as int));
            assert(done.last() == keys@[i as int]);
            assert(schema_converted(*backend, done.last(), middle, converted.progress()));
        }
        i = i + 1;
    }
    assert(keys@.take(keys@.len() as int) =~= keys@);
    proof {
        let trace: SchemaTrace<B> = SchemaTrace { names: listed, keys: found, held, known };
        assert(schemas_traced(*backend, *graph, before, trace, converted.progress()));
    }
    converted
}

/// How far the conversion of operations has come.
pub struct OperationProgress<B: GeneratorBackend> {
    pub context: B::Context,
    pub recorder: B::Recorder,
    pub types: Seq<RustType<B::Definition>>,
    pub infos: Seq<OperationInfo<B::OperationDetail>>,
    pub warnings: Seq<GenerationWarningView>,
}

/// Whether converting an operation with this answer, in words this outcome, turns the progress
/// `before` into `after`.
pub open spec fn operation_outcome<B: GeneratorBackend>(
    backend: B,
    entry: OperationEntry,
    before: OperationProgress<B>,
    after: OperationProgress<B>,
    answer: Result<ConvertedOperation<B::Definition, B::OperationDetail>, B::Error>,
    outcome: Result<ConvertedOperation<B::Definition, B::OperationDetail>, String>,
) -> bool {
    &&& call_ensures(
        B::convert_operation,
        (&backend, before.context, before.recorder, &entry),
        (after.context, after.recorder, answer),
    )
    &&& put_in_words(backend, answer, outcome)
    &&& after.types == operation_types(before.types, outcome)
    &&& after.infos == operation_infos(before.infos, outcome)
    &&& after.warnings == operation_warnings(before.warnings, entry, outcome)
}

/// Whether converting one operation turns the progress `before` into `after`.
pub open spec fn operation_converted<B: GeneratorBackend>(
    backend: B,
    entry: OperationEntry,
    before: OperationProgress<B>,
    after: OperationProgress<B>,
) -> bool {
    exists|
        answer: Result<ConvertedOperation<B::Definition, B::OperationDetail>, B::Error>,
        outcome: Result<ConvertedOperation<B::Definition, B::OperationDetail>, String>,
    | #[trigger]
        operation_outcome(backend, entry, before, after, answer, outcome)
}

/// Whether converting the operations in order turns the progress `before` into `after`.
pub open spec fn operations_converted<B: GeneratorBackend>(
    backend: B,
    entries: Seq<OperationEntry>,
    before: OperationProgress<B>,
    after: OperationProgress<B>,
) -> bool
    decreases entries.len(),
{
    if entries.len() == 0 {
        after == before
    } else {
        exists|middle: OperationProgress<B>|
            operations_converted(backend, entries.drop_last(), before, middle)
                && #[trigger] operation_converted(backend, entries.last(), middle, after)
    }
}

/// What converting operations gives.
pub struct ConvertedOperations<B: GeneratorBackend> {
    pub context: B::Context,
    pub usage_recorder: B::Recorder,
    pub rust_types: Vec<RustType<B::Definition>>,
    pub operations_info: Vec<OperationInfo<B::OperationDetail>>,
    pub warnings: Vec<GenerationWarning>,
}

impl<B: GeneratorBackend> ConvertedOperations<B> {
    /// The same, as progress.
    pub open spec fn progress(self) -> OperationProgress<B> {
        OperationProgress {
            context: self.context,
            recorder: self.usage_recorder,
            types: self.rust_types@,
            infos: self.operations_info@,
            warnings: warning_views(self.warnings@),
        }
    }
}

/// Converts operations in order, with a recorder of their own. Operations that cannot be
/// converted are reported, and so is what a conversion warns of.
pub fn convert_all_operations<B: GeneratorBackend>(
    backend: &B,
    context: B::Context,
    entries: &[OperationEntry],
) -> (converted: ConvertedOperations<B>)
    ensures
        exists|recorder: B::Recorder|
            {
                &&& #[trigger] call_ensures(B::new_recorder, (backend,), recorder)
                &&& operations_converted(
                    *backend,
                    entries@,
                    (OperationProgress {
                        context,
                        recorder,
                        types: Seq::empty(),
                        infos: Seq::empty(),
                        warnings: Seq::empty(),
                    }),
                    converted.progress(),
                )
            },
{
    let usage_recorder = backend.new_recorder();
    assert(call_ensures(B::new_recorder, (backend,), usage_recorder));
    let mut converted: ConvertedOperations<B> = ConvertedOperations {
        context,
        usage_recorder,
        rust_types: Vec::new(),
        operations_info: Vec::new(),
        warnings: Vec::new(),
    };
    let ghost start: OperationProgress<B> = OperationProgress {
        context,
        recorder: usage_recorder,
        types: Seq::empty(),
        infos: Seq::empty(),
        warnings: Seq::empty(),
    };
    assert(warning_views(converted.warnings@) =~= Seq::empty());
    let mut i: usize = 0;
    while i < entries.len()
        invariant
            i <= entries.len(),
            operations_converted(*backend, entries@.take(i as int), start, converted.progress()),
        decreases entries.len() - i,
    {
        let ghost middle = converted.progress();
        let entry = &entries[i];
        let (after, recorder, answer) = backend.convert_operation(
            converted.context,
            converted.usage_recorder,
            entry,
        );
        assert(call_ensures(
            B::convert_operation,
            (backend, middle.context, middle.recorder, entry),
            (after, recorder, answer),
        ));
        let outcome = in_words(backend, answer);
        let mut rust_types = converted.rust_types;
        let mut operations_info = converted.operations_info;
        let mut warnings = converted.warnings;
        absorb_operation(&mut rust_types, &mut operations_info, &mut warnings, entry, outcome);
        converted = ConvertedOperations {
            context: after,
            usage_recorder: recorder,
            rust_types,
            operations_info,
            warnings,
        };
        proof {
            let done = entries@.take(i + 1);
            assert(done.drop_last() =~= entries@.take(i as int));
            assert(done.last() == entries@[i as int]);
            assert(operation_outcome(
                *backend,
                *entry,
                middle,
                converted.progress(),
                answer,
                outcome,
            ));
            assert(operation_converted(*backend, done.last(), middle, converted.progress()));
        }
        i = i + 1;
    }
    assert(entries@.take(entries@.len() as int) =~= entries@);
    converted
}

} // verus!
