//! In which order schemas and operations are converted, and what becomes of each.

use crate::ast::{OperationInfo, RustType};
use crate::backend::{ConvertedOperation, GeneratorBackend, ObjectSchema, SchemaKey};
use crate::conversion::{
    all_schemas_converted, announcement, conversion_order, lists_values, operation_converted,
    operation_infos, operation_outcome, operation_types, operation_warnings, operations_converted,
    put_in_words, registration_answered, schema_converted, schema_looked_up, schema_outcome,
    schema_registered, schema_types, schema_warnings, schemas_converted, schemas_registered,
    schemas_traced, ConvertedOperations, ConvertedSchemas, OperationProgress, SchemaProgress,
    SchemaTrace,
};
use crate::laws::reporting::lemma_same_filter;
use crate::registration::OperationEntry;
use crate::report::GenerationWarningView;
use vstd::prelude::*;

verus! {

/// The order of conversion has a schema that lists enum values before every schema that lists
/// none or is not found.
pub proof fn law_listing_schemas_come_first<S>(keys: Seq<SchemaKey<S>>, i: int, j: int)
    requires
        0 <= i < conversion_order(keys).len(),
        0 <= j < conversion_order(keys).len(),
        conversion_order(keys)[i].schema matches Some(schema) && schema.enum_values > 0,
        conversion_order(keys)[j].schema matches Some(schema) ==> schema.enum_values == 0,
    ensures
        i < j,
{
    super::law_enums_first(keys, i, j);
}

/// The order of conversion changes the order among the schemas that list enum values as little as
/// the order among the others, and neither drops nor adds a schema.
pub proof fn law_conversion_order_is_stable<S>(keys: Seq<SchemaKey<S>>)
    ensures
        conversion_order(keys).filter(
            |key: SchemaKey<S>| key.schema matches Some(schema) && schema.enum_values > 0,
        ) == keys.filter(
            |key: SchemaKey<S>| key.schema matches Some(schema) && schema.enum_values > 0,
        ),
        conversion_order(keys).filter(
            |key: SchemaKey<S>| !(key.schema matches Some(schema) && schema.enum_values > 0),
        ) == keys.filter(
            |key: SchemaKey<S>| !(key.schema matches Some(schema) && schema.enum_values > 0),
        ),
        conversion_order(keys).len() == keys.len(),
{
    let lists = |key: SchemaKey<S>| key.schema matches Some(schema) && schema.enum_values > 0;
    let other = |key: SchemaKey<S>| !(key.schema matches Some(schema) && schema.enum_values > 0);
    let first = keys.filter(|key: SchemaKey<S>| lists_values(key));
    let second = keys.filter(|key: SchemaKey<S>| !lists_values(key));
    lemma_same_filter(keys, |key: SchemaKey<S>| lists_values(key), lists);
    lemma_same_filter(keys, |key: SchemaKey<S>| !lists_values(key), other);
    Seq::filter_distributes_over_add(first, second, lists);
    Seq::filter_distributes_over_add(first, second, other);
    lemma_filter_twice(keys, lists, lists);
    lemma_filter_twice(keys, other, lists);
    lemma_filter_twice(keys, lists, other);
    lemma_filter_twice(keys, other, other);
    lemma_filter_parts(keys, lists, other);
    assert(first + second =~= conversion_order(keys));
    assert(conversion_order(keys).filter(lists) =~= keys.filter(lists));
    assert(conversion_order(keys).filter(other) =~= keys.filter(other));
}

proof fn lemma_filter_twice<T>(elements: Seq<T>, p: spec_fn(T) -> bool, q: spec_fn(T) -> bool)
    ensures
        (forall|element: T| #[trigger] p(element) ==> q(element)) ==> elements.filter(p).filter(q)
            == elements.filter(p),
        (forall|element: T| #[trigger] p(element) ==> !q(element)) ==> elements.filter(p).filter(
            q,
        ).len() == 0,
    decreases elements.len(),
{
    reveal(Seq::filter);
    if elements.len() > 0 {
        let rest = elements.drop_last();
        lemma_filter_twice(rest, p, q);
        if p(elements.last()) {
            assert(elements.filter(p) == rest.filter(p).push(elements.last()));
            assert(elements.filter(p).drop_last() =~= rest.filter(p));
        }
    }
}

proof fn lemma_filter_parts<T>(elements: Seq<T>, p: spec_fn(T) -> bool, q: spec_fn(T) -> bool)
    requires
        forall|element: T| #[trigger] p(element) == !q(element),
    ensures
        elements.filter(p).len() + elements.filter(q).len() == elements.len(),
    decreases elements.len(),
{
    reveal(Seq::filter);
    if elements.len() > 0 {
        lemma_filter_parts(elements.drop_last(), p, q);
    }
}

/// A schema's conversion that succeeds adds exactly its types, in order, after those that are
/// there, and no warning; one that fails adds no type, and one warning, which names the schema and
/// holds the error.
pub proof fn law_schema_outcome<D>(
    types: Seq<RustType<D>>,
    warnings: Seq<GenerationWarningView>,
    name: Seq<char>,
    outcome: Result<Vec<RustType<D>>, String>,
)
    ensures
        outcome matches Ok(made) ==> {
            &&& schema_types(types, outcome).len() == types.len() + made@.len()
            &&& forall|i: int|
                0 <= i < types.len() ==> #[trigger] schema_types(types, outcome)[i] == types[i]
            &&& forall|i: int|
                0 <= i < made@.len() ==> #[trigger] made@[i] == schema_types(types, outcome)[
                types.len() + i]
            &&& schema_warnings(warnings, name, outcome) == warnings
        },
        outcome matches Err(error) ==> {
            &&& schema_types(types, outcome) == types
            &&& schema_warnings(warnings, name, outcome).len() == warnings.len() + 1
            &&& schema_warnings(warnings, name, outcome).drop_last() == warnings
            &&& schema_warnings(warnings, name, outcome).last() is SchemaConversionFailed
            &&& schema_warnings(
                warnings,
                name,
                outcome,
            ).last()->SchemaConversionFailed_schema_name == name
            &&& schema_warnings(warnings, name, outcome).last()->SchemaConversionFailed_error
                == error@
        },
{
    if outcome is Err {
        assert(schema_warnings(warnings, name, outcome).drop_last() =~= warnings);
    }
}

/// An operation's conversion that succeeds adds exactly its types and the operation, after those
/// that are there, and each of its warnings under the operation's id; one that fails adds neither,
/// and one warning, which names the method and the path and holds the error.
pub proof fn law_operation_outcome<D, O>(
    types: Seq<RustType<D>>,
    infos: Seq<OperationInfo<O>>,
    warnings: Seq<GenerationWarningView>,
    entry: OperationEntry,
    outcome: Result<ConvertedOperation<D, O>, String>,
)
    ensures
        outcome matches Ok(converted) ==> {
            let after = operation_warnings(warnings, entry, outcome);
            &&& operation_types(types, outcome).len() == types.len() + converted.types@.len()
            &&& forall|i: int|
                0 <= i < types.len() ==> #[trigger] operation_types(types, outcome)[i] == types[i]
            &&& forall|i: int|
                0 <= i < converted.types@.len() ==> #[trigger] converted.types@[i]
                    == operation_types(types, outcome)[types.len() + i]
            &&& operation_infos(infos, outcome).len() == infos.len() + 1
            &&& operation_infos(infos, outcome).drop_last() == infos
            &&& operation_infos(infos, outcome).last() == converted.operation_info
            &&& after.len() == warnings.len() + converted.operation_info.warnings@.len()
            &&& after.take(warnings.len() as int) == warnings
            &&& forall|i: int|
                #![trigger converted.operation_info.warnings@[i]]
                0 <= i < converted.operation_info.warnings@.len() ==> {
                    &&& after[warnings.len() + i] is OperationSpecific
                    &&& after[warnings.len() + i]->operation_id
                        == converted.operation_info.operation_id@
                    &&& after[warnings.len() + i]->message
                        == converted.operation_info.warnings@[i]@
                }
        },
        outcome matches Err(error) ==> {
            let after = operation_warnings(warnings, entry, outcome);
            &&& operation_types(types, outcome) == types
            &&& operation_infos(infos, outcome) == infos
            &&& after.len() == warnings.len() + 1
            &&& after.drop_last() == warnings
            &&& after.last() is OperationConversionFailed
            &&& after.last()->method == entry.method@
            &&& after.last()->path == entry.path@
            &&& after.last()->OperationConversionFailed_error == error@
        },
{
    let after = operation_warnings(warnings, entry, outcome);
    if outcome is Ok {
        assert(operation_infos(infos, outcome).drop_last() =~= infos);
        assert(after.take(warnings.len() as int) =~= warnings);
    } else {
        assert(after.drop_last() =~= warnings);
    }
}

/// What converting schemas or operations gives is known by all that it holds.
pub proof fn law_progress_is_all<B: GeneratorBackend>(
    schemas: ConvertedSchemas<B>,
    operations: ConvertedOperations<B>,
)
    ensures
        schemas.progress().context == schemas.context,
        schemas.progress().types == schemas.rust_types@,
        schemas.progress().warnings.len() == schemas.warnings@.len(),
        forall|i: int|
            0 <= i < schemas.warnings@.len() ==> #[trigger] schemas.progress().warnings[i]
                == schemas.warnings@[i]@,
        schemas.progress().console.len() == schemas.console@.len(),
        forall|i: int|
            0 <= i < schemas.console@.len() ==> #[trigger] schemas.progress().console[i]
                == schemas.console@[i]@,
        operations.progress().context == operations.context,
        operations.progress().recorder == operations.usage_recorder,
        operations.progress().types == operations.rust_types@,
        operations.progress().infos == operations.operations_info@,
        operations.progress().warnings.len() == operations.warnings@.len(),
        forall|i: int|
            0 <= i < operations.warnings@.len() ==> #[trigger] operations.progress().warnings[i]
                == operations.warnings@[i]@,
{
}

/// Whether the backend, asked to convert the schema under the name, can give this answer and
/// context.
pub open spec fn schema_answer<B: GeneratorBackend>(
    backend: B,
    before: B::Context,
    name: Seq<char>,
    schema: ObjectSchema<B::Schema>,
    after: B::Context,
    answer: Result<Vec<RustType<B::Definition>>, B::Error>,
) -> bool {
    exists|text: &str|
        text@ == name && #[trigger] call_ensures(
            B::convert_schema,
            (&backend, before, text, &schema),
            (after, answer),
        )
}

/// Whether the backend can put the error in these words.
pub open spec fn error_words<B: GeneratorBackend>(
    backend: B,
    error: B::Error,
    words: Seq<char>,
) -> bool {
    exists|text: String|
        text@ == words && #[trigger] call_ensures(B::error_text, (&backend, &error), text)
}

/// A schema that is found is handed to the backend; all types of an answer are taken over, in
/// order, and an error becomes a warning that names the schema. A name without a schema leaves one
/// line for the console.
pub proof fn law_converting_one_schema<B: GeneratorBackend>(
    backend: B,
    key: SchemaKey<B::Schema>,
    before: SchemaProgress<B>,
    after: SchemaProgress<B>,
)
    requires
        schema_converted(backend, key, before, after),
    ensures
        key.schema matches Some(schema) ==> exists|
            answer: Result<Vec<RustType<B::Definition>>, B::Error>,
        |
            {
                &&& #[trigger] schema_answer(
                    backend,
                    before.context,
                    key.name@,
                    schema,
                    after.context,
                    answer,
                )
                &&& after.console == before.console
                &&& answer matches Ok(made) ==> {
                    &&& after.types.len() == before.types.len() + made@.len()
                    &&& forall|i: int|
                        0 <= i < before.types.len() ==> #[trigger] after.types[i]
                            == before.types[i]
                    &&& forall|i: int|
                        0 <= i < made@.len() ==> #[trigger] made@[i] == after.types[
                        before.types.len() + i]
                    &&& after.warnings == before.warnings
                }
                &&& answer matches Err(error) ==> {
                    &&& after.types == before.types
                    &&& after.warnings.len() == before.warnings.len() + 1
                    &&& after.warnings.drop_last() == before.warnings
                    &&& after.warnings.last() is SchemaConversionFailed
                    &&& after.warnings.last()->SchemaConversionFailed_schema_name == key.name@
                    &&& error_words(
                        backend,
                        error,
                        after.warnings.last()->SchemaConversionFailed_error,
                    )
                }
            },
        key.schema is None ==> {
            &&& after.context == before.context
            &&& after.types == before.types
            &&& after.warnings == before.warnings
            &&& after.console == before.console.push("Schema not found in graph: "@ + key.name@)
        },
{
    if let Some(schema) = key.schema {
        let (name, answer, outcome) = choose|
            name: &str,
            answer: Result<Vec<RustType<B::Definition>>, B::Error>,
            outcome: Result<Vec<RustType<B::Definition>>, String>,
        | #[trigger]
            schema_outcome(backend, key, before, after, name, answer, outcome);
        assert(call_ensures(
            B::convert_schema,
            (&backend, before.context, name, &schema),
            (after.context, answer),
        ));
        assert(schema_answer(
            backend,
            before.context,
            key.name@,
            schema,
            after.context,
            answer,
        ));
        law_schema_outcome(before.types, before.warnings, key.name@, outcome);
        law_words(backend, answer, outcome);
    }
}

/// Putting an answer in words keeps its value, and asks the backend for the words of its error.
pub proof fn law_words<B: GeneratorBackend, T>(
    backend: B,
    answer: Result<T, B::Error>,
    outcome: Result<T, String>,
)
    requires
        put_in_words(backend, answer, outcome),
    ensures
        answer is Ok <==> outcome is Ok,
        answer matches Ok(value) ==> outcome matches Ok(kept) && kept == value,
        answer matches Err(error) ==> outcome matches Err(text) && error_words(
            backend,
            error,
            text@,
        ),
{
    if let Err(error) = answer {
        assert(call_ensures(B::error_text, (&backend, &error), outcome->Err_0));
    }
}

/// Schemas are converted one after another, in order, each of them once.
pub proof fn law_schemas_are_converted_in_order<B: GeneratorBackend>(
    backend: B,
    keys: Seq<SchemaKey<B::Schema>>,
    before: SchemaProgress<B>,
    after: SchemaProgress<B>,
)
    requires
        schemas_converted(backend, keys, before, after),
    ensures
        exists|states: Seq<SchemaProgress<B>>|
            {
                &&& states.len() == keys.len() + 1
                &&& states[0] == before
                &&& #[trigger] states.last() == after
                &&& forall|i: int|
                    0 <= i < keys.len() ==> #[trigger] schema_converted(
                        backend,
                        keys[i],
                        states[i],
                        states[i + 1],
                    )
            },
    decreases keys.len(),
{
    if keys.len() == 0 {
        let states = seq![before];
        assert(states.last() == after);
    } else {
        let rest = keys.drop_last();
        let middle = choose|middle: SchemaProgress<B>|
            schemas_converted(backend, rest, before, middle) && #[trigger] schema_converted(
                backend,
                keys.last(),
                middle,
                after,
            );
        law_schemas_are_converted_in_order(backend, rest, before, middle);
        let earlier = choose|states: Seq<SchemaProgress<B>>|
            {
                &&& states.len() == rest.len() + 1
                &&& states[0] == before
                &&& #[trigger] states.last() == middle
                &&& forall|i: int|
                    0 <= i < rest.len() ==> #[trigger] schema_converted(
                        backend,
                        rest[i],
                        states[i],
                        states[i + 1],
                    )
            };
        let states = earlier.push(after);
        assert(states.last() == after);
        assert forall|i: int| 0 <= i < keys.len() implies #[trigger] schema_converted(
            backend,
            keys[i],
            states[i],
            states[i + 1],
        ) by {
            if i < rest.len() {
                assert(schema_converted(backend, rest[i], earlier[i], earlier[i + 1]));
            }
        }
    }
}

/// Whether the types are all that some answer of the backend gives for a schema: none where the
/// schema is not found or its conversion fails.
pub open spec fn types_of_answer<B: GeneratorBackend>(
    backend: B,
    key: SchemaKey<B::Schema>,
    made: Seq<RustType<B::Definition>>,
) -> bool {
    match key.schema {
        Some(schema) => exists|
            before: B::Context,
            after: B::Context,
            answer: Result<Vec<RustType<B::Definition>>, B::Error>,
        |
            {
                &&& #[trigger] schema_answer(backend, before, key.name@, schema, after, answer)
                &&& made == match answer {
                    Ok(types) => types@,
                    Err(_) => Seq::empty(),
                }
            },
        None => made.len() == 0,
    }
}

/// The sum of the lengths of sequences.
pub open spec fn total_len<T>(parts: Seq<Seq<T>>) -> nat
    decreases parts.len(),
{
    if parts.len() == 0 {
        0
    } else {
        total_len(parts.drop_last()) + parts.last().len()
    }
}

/// Over a whole run, the types are those of all answers, one answer after another: nothing that a
/// schema's conversion gives is dropped, and nothing else is added.
pub proof fn law_all_types_are_kept<B: GeneratorBackend>(
    backend: B,
    keys: Seq<SchemaKey<B::Schema>>,
    before: SchemaProgress<B>,
    after: SchemaProgress<B>,
)
    requires
        schemas_converted(backend, keys, before, after),
    ensures
        exists|made: Seq<Seq<RustType<B::Definition>>>|
            {
                &&& made.len() == keys.len()
                &&& forall|i: int|
                    0 <= i < keys.len() ==> types_of_answer(backend, keys[i], #[trigger] made[i])
                &&& after.types == before.types + #[trigger] made.flatten_alt()
                &&& after.types.len() == before.types.len() + total_len(made)
            },
    decreases keys.len(),
{
    if keys.len() == 0 {
        let made = Seq::<Seq<RustType<B::Definition>>>::empty();
        assert(before.types + made.flatten_alt() =~= before.types);
    } else {
        let rest = keys.drop_last();
        let key = keys.last();
        let middle = choose|middle: SchemaProgress<B>|
            schemas_converted(backend, rest, before, middle) && #[trigger] schema_converted(
                backend,
                key,
                middle,
                after,
            );
        law_all_types_are_kept(backend, rest, before, middle);
        law_converting_one_schema(backend, key, middle, after);
        let earlier = choose|made: Seq<Seq<RustType<B::Definition>>>|
            {
                &&& made.len() == rest.len()
                &&& forall|i: int|
                    0 <= i < rest.len() ==> types_of_answer(backend, rest[i], #[trigger] made[i])
                &&& middle.types == before.types + #[trigger] made.flatten_alt()
                &&& middle.types.len() == before.types.len() + total_len(made)
            };
        let added = after.types.skip(middle.types.len() as int);
        if let Some(schema) = key.schema {
            let answer = choose|answer: Result<Vec<RustType<B::Definition>>, B::Error>|
                {
                    &&& #[trigger] schema_answer(
                        backend,
                        middle.context,
                        key.name@,
                        schema,
                        after.context,
                        answer,
                    )
                    &&& answer matches Ok(made) ==> {
                        &&& after.types.len() == middle.types.len() + made@.len()
                        &&& forall|i: int|
                            0 <= i < middle.types.len() ==> #[trigger] after.types[i]
                                == middle.types[i]
                        &&& forall|i: int|
                            0 <= i < made@.len() ==> #[trigger] made@[i] == after.types[
                            middle.types.len() + i]
                    }
                    &&& answer is Err ==> after.types == middle.types
                };
            let types = match answer {
                Ok(types) => types@,
                Err(_) => Seq::empty(),
            };
            assert(added =~= types);
            assert(after.types =~= middle.types + added);
        }
        assert(after.types =~= middle.types + added);
        assert(types_of_answer(backend, key, added));
        let made = earlier.push(added);
        assert(made.drop_last() =~= earlier);
        assert(after.types =~= before.types + made.flatten_alt());
        assert forall|i: int| 0 <= i < keys.len() implies types_of_answer(
            backend,
            keys[i],
            #[trigger] made[i],
        ) by {
            if i < rest.len() {
                assert(types_of_answer(backend, rest[i], earlier[i]));
            }
        }
    }
}

/// A schema that is found is made known by the backend, whatever it answers; a name without a
/// schema is passed over.
pub proof fn law_making_one_schema_known<B: GeneratorBackend>(
    backend: B,
    key: SchemaKey<B::Schema>,
    before: B::Context,
    after: B::Context,
)
    requires
        schema_registered(backend, key, before, after),
    ensures
        key.schema matches Some(schema) ==> exists|text: &str, answer: Result<(), B::Error>|
            text@ == key.name@ && #[trigger] call_ensures(
                B::register_schema,
                (&backend, before, &schema, text),
                (after, answer),
            ),
        key.schema is None ==> after == before,
{
    if let Some(schema) = key.schema {
        let (text, answer) = choose|text: &str, answer: Result<(), B::Error>| #[trigger]
            registration_answered(backend, key, before, after, text, answer);
        assert(call_ensures(
            B::register_schema,
            (&backend, before, &schema, text),
            (after, answer),
        ));
    }
}

/// Schemas are made known one after another, in order, each of them once.
pub proof fn law_schemas_are_made_known_in_order<B: GeneratorBackend>(
    backend: B,
    keys: Seq<SchemaKey<B::Schema>>,
    before: B::Context,
    after: B::Context,
)
    requires
        schemas_registered(backend, keys, before, after),
    ensures
        exists|states: Seq<B::Context>|
            {
                &&& states.len() == keys.len() + 1
                &&& states[0] == before
                &&& #[trigger] states.last() == after
                &&& forall|i: int|
                    0 <= i < keys.len() ==> #[trigger] schema_registered(
                        backend,
                        keys[i],
                        states[i],
                        states[i + 1],
                    )
            },
    decreases keys.len(),
{
    if keys.len() == 0 {
        let states = seq![before];
        assert(states.last() == after);
    } else {
        let rest = keys.drop_last();
        let middle = choose|middle: B::Context|
            schemas_registered(backend, rest, before, middle) && #[trigger] schema_registered(
                backend,
                keys.last(),
                middle,
                after,
            );
        law_schemas_are_made_known_in_order(backend, rest, before, middle);
        let earlier = choose|states: Seq<B::Context>|
            {
                &&& states.len() == rest.len() + 1
                &&& states[0] == before
                &&& #[trigger] states.last() == middle
                &&& forall|i: int|
                    0 <= i < rest.len() ==> #[trigger] schema_registered(
                        backend,
                        rest[i],
                        states[i],
                        states[i + 1],
                    )
            };
        let states = earlier.push(after);
        assert(states.last() == after);
        assert forall|i: int| 0 <= i < keys.len() implies #[trigger] schema_registered(
            backend,
            keys[i],
            states[i],
            states[i + 1],
        ) by {
            if i < rest.len() {
                assert(schema_registered(backend, rest[i], earlier[i], earlier[i + 1]));
            }
        }
    }
}

/// All schemas of a graph: the names are those that the graph lists, each is looked up in it, all
/// are made known and only then converted, from nothing on but the line that tells whether the
/// graph holds `BetaJsonValue`.
pub proof fn law_converting_all_schemas<B: GeneratorBackend>(
    backend: B,
    graph: B::Graph,
    before: B::Context,
    after: SchemaProgress<B>,
)
    requires
        all_schemas_converted(backend, graph, before, after),
    ensures
        exists|
            names: Vec<String>,
            keys: Seq<SchemaKey<B::Schema>>,
            held: bool,
            start: SchemaProgress<B>,
        |
            {
                &&& #[trigger] schemas_listed(backend, graph, names, keys)
                &&& #[trigger] call_ensures(B::contains, (&backend, &graph, "BetaJsonValue"), held)
                &&& schemas_registered(backend, conversion_order(keys), before, start.context)
                &&& start.types.len() == 0
                &&& start.warnings.len() == 0
                &&& start.console == seq![
                    "has BetaJsonValue? "@ + (if held {
                        "true"@
                    } else {
                        "false"@
                    }),
                ]
                &&& #[trigger] schemas_converted(backend, conversion_order(keys), start, after)
            },
{
    let trace = choose|trace: SchemaTrace<B>| #[trigger]
        schemas_traced(backend, graph, before, trace, after);
    let start: SchemaProgress<B> = SchemaProgress {
        context: trace.known,
        types: Seq::empty(),
        warnings: Seq::empty(),
        console: seq![announcement(trace.held)],
    };
    let (names, keys, held) = (trace.names, trace.keys, trace.held);
    assert forall|i: int| 0 <= i < keys.len() implies (#[trigger] keys[i]).name == names@[i]
        && schema_found(backend, graph, names@[i]@, keys[i].schema) by {
        assert(schema_looked_up(backend, graph, names@[i], keys[i]));
    }
    assert(schemas_listed(backend, graph, names, keys));
    assert(call_ensures(B::contains, (&backend, &graph, "BetaJsonValue"), held));
    assert(schemas_converted(backend, conversion_order(keys), start, after));
}

/// Whether this is the backend's answer when it is asked what a graph holds under the name.
pub open spec fn schema_found<B: GeneratorBackend>(
    backend: B,
    graph: B::Graph,
    name: Seq<char>,
    schema: Option<ObjectSchema<B::Schema>>,
) -> bool {
    exists|text: &str|
        text@ == name && #[trigger] call_ensures(B::get, (&backend, &graph, text), schema)
}

/// Whether the names are those that the graph lists, and the keys hold what is found under each, in
/// order.
pub open spec fn schemas_listed<B: GeneratorBackend>(
    backend: B,
    graph: B::Graph,
    names: Vec<String>,
    keys: Seq<SchemaKey<B::Schema>>,
) -> bool {
    &&& call_ensures(B::keys, (&backend, &graph), names)
    &&& keys.len() == names@.len()
    &&& forall|i: int|
        0 <= i < keys.len() ==> (#[trigger] keys[i]).name == names@[i] && schema_found(
            backend,
            graph,
            names@[i]@,
            keys[i].schema,
        )
}

/// An operation is handed to the backend with the context and the recorder that the earlier ones
/// left; all types of an answer are taken over, in order, with the operation and its warnings, and
/// an error becomes a warning that names the method and the path.
pub proof fn law_converting_one_operation<B: GeneratorBackend>(
    backend: B,
    entry: OperationEntry,
    before: OperationProgress<B>,
    after: OperationProgress<B>,
)
    requires
        operation_converted(backend, entry, before, after),
    ensures
        exists|answer: Result<ConvertedOperation<B::Definition, B::OperationDetail>, B::Error>|
            {
                &&& #[trigger] operation_answer(backend, entry, before, after, answer)
                &&& answer matches Ok(converted) ==> {
                    let info = converted.operation_info;
                    &&& after.types == before.types + converted.types@
                    &&& after.infos == before.infos.push(info)
                    &&& after.warnings.len() == before.warnings.len() + info.warnings@.len()
                    &&& after.warnings.take(before.warnings.len() as int) == before.warnings
                    &&& forall|i: int|
                        #![trigger info.warnings@[i]]
                        0 <= i < info.warnings@.len() ==> {
                            let warning = after.warnings[before.warnings.len() + i];
                            &&& warning is OperationSpecific
                            &&& warning->operation_id == info.operation_id@
                            &&& warning->message == info.warnings@[i]@
                        }
                }
                &&& answer matches Err(error) ==> {
                    &&& after.types == before.types
                    &&& after.infos == before.infos
                    &&& after.warnings.len() == before.warnings.len() + 1
                    &&& after.warnings.drop_last() == before.warnings
                    &&& after.warnings.last() is OperationConversionFailed
                    &&& after.warnings.last()->method == entry.method@
                    &&& after.warnings.last()->path == entry.path@
                    &&& error_words(
                        backend,
                        error,
                        after.warnings.last()->OperationConversionFailed_error,
                    )
                }
            },
{
    let (answer, outcome) = choose|
        answer: Result<ConvertedOperation<B::Definition, B::OperationDetail>, B::Error>,
        outcome: Result<ConvertedOperation<B::Definition, B::OperationDetail>, String>,
    | #[trigger]
        operation_outcome(backend, entry, before, after, answer, outcome);
    assert(operation_answer(backend, entry, before, after, answer));
    law_operation_outcome(before.types, before.infos, before.warnings, entry, outcome);
    law_words(backend, answer, outcome);
    if let Ok(converted) = answer {
        assert(after.types =~= before.types + converted.types@);
        assert(after.infos =~= before.infos.push(converted.operation_info));
    }
}

/// Whether the backend, asked to convert the operation, can give this answer, context and
/// recorder.
pub open spec fn operation_answer<B: GeneratorBackend>(
    backend: B,
    entry: OperationEntry,
    before: OperationProgress<B>,
    after: OperationProgress<B>,
    answer: Result<ConvertedOperation<B::Definition, B::OperationDetail>, B::Error>,
) -> bool {
    call_ensures(
        B::convert_operation,
        (&backend, before.context, before.recorder, &entry),
        (after.context, after.recorder, answer),
    )
}

/// Operations are converted one after another, in order, each of them once.
pub proof fn law_operations_are_converted_in_order<B: GeneratorBackend>(
    backend: B,
    entries: Seq<OperationEntry>,
    before: OperationProgress<B>,
    after: OperationProgress<B>,
)
    requires
        operations_converted(backend, entries, before, after),
    ensures
        exists|states: Seq<OperationProgress<B>>|
            {
                &&& states.len() == entries.len() + 1
                &&& states[0] == before
                &&& #[trigger] states.last() == after
                &&& forall|i: int|
                    0 <= i < entries.len() ==> #[trigger] operation_converted(
                        backend,
                        entries[i],
                        states[i],
                        states[i + 1],
                    )
            },
    decreases entries.len(),
{
    if entries.len() == 0 {
        let states = seq![before];
        assert(states.last() == after);
    } else {
        let rest = entries.drop_last();
        let middle = choose|middle: OperationProgress<B>|
            operations_converted(backend, rest, before, middle) && #[trigger] operation_converted(
                backend,
                entries.last(),
                middle,
                after,
            );
        law_operations_are_converted_in_order(backend, rest, before, middle);
        let earlier = choose|states: Seq<OperationProgress<B>>|
            {
                &&& states.len() == rest.len() + 1
                &&& states[0] == before
                &&& #[trigger] states.last() == middle
                &&& forall|i: int|
                    0 <= i < rest.len() ==> #[trigger] operation_converted(
                        backend,
                        rest[i],
                        states[i],
                        states[i + 1],
                    )
            };
        let states = earlier.push(after);
        assert(states.last() == after);
        assert forall|i: int| 0 <= i < entries.len() implies #[trigger] operation_converted(
            backend,
            entries[i],
            states[i],
            states[i + 1],
        ) by {
            if i < rest.len() {
                assert(operation_converted(backend, rest[i], earlier[i], earlier[i + 1]));
            }
        }
    }
}

} // verus!
