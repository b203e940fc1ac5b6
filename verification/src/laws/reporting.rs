//! What the counts, the warnings and their texts say.

use crate::ast::{OperationInfo, OperationKind, ParameterLocation, RustType};
use crate::report::{GenerationStats, GenerationWarning, GenerationWarningView};
use crate::statistics::{
    ascii_lowercase, client_counted, count_of, header_name, header_names, is_enum,
    is_enum_with_helpers, is_struct, is_type_alias, is_webhook, names_header, orphaned_count,
    stats_describe, text_of, warning_views, TypeCounts,
};
use vstd::prelude::*;

verus! {

/// A warning is known by its variant and by the text of each of its fields.
pub proof fn law_warning_content(warning: GenerationWarning)
    ensures
        match warning {
            GenerationWarning::SchemaConversionFailed { schema_name, error } => {
                &&& warning@ is SchemaConversionFailed
                &&& warning@->SchemaConversionFailed_schema_name == schema_name@
                &&& warning@->SchemaConversionFailed_error == error@
            },
            GenerationWarning::OperationConversionFailed { method, path, error } => {
                &&& warning@ is OperationConversionFailed
                &&& warning@->method == method@
                &&& warning@->path == path@
                &&& warning@->OperationConversionFailed_error == error@
            },
            GenerationWarning::OperationSpecific { operation_id, message } => {
                &&& warning@ is OperationSpecific
                &&& warning@->operation_id == operation_id@
                &&& warning@->message == message@
            },
        },
{
}

/// Every warning but one that a conversion gives reports that something was left out.
pub proof fn law_skipped_items(warning: GenerationWarning)
    ensures
        warning@.is_skipped_item() <==> !(warning is OperationSpecific),
{
}

/// What a warning says in words, from its fields alone.
pub proof fn law_warning_words(warning: GenerationWarning)
    ensures
        warning matches GenerationWarning::SchemaConversionFailed { schema_name, error }
            ==> warning@.text() == "Failed to convert schema '"@ + schema_name@ + "': "@ + error@,
        warning matches GenerationWarning::OperationConversionFailed { method, path, error }
            ==> warning@.text() == "Failed to convert operation '"@ + method@ + " "@ + path@
            + "': "@ + error@,
        warning matches GenerationWarning::OperationSpecific { operation_id, message }
            ==> warning@.text() == "["@ + operation_id@ + "] "@ + message@,
{
}

/// Lists of warnings and of strings are known element by element.
pub proof fn law_lists_are_known_in_order(warnings: Seq<GenerationWarning>, strings: Seq<String>)
    ensures
        warning_views(warnings).len() == warnings.len(),
        forall|i: int|
            0 <= i < warnings.len() ==> #[trigger] warning_views(warnings)[i] == warnings[i]@,
        text_of(strings).len() == strings.len(),
        forall|i: int| 0 <= i < strings.len() ==> #[trigger] text_of(strings)[i] == strings[i]@,
{
}

/// Counting starts at nothing, and each element adds one exactly where it has the property.
pub proof fn law_counting<T>(elements: Seq<T>, element: T, property: spec_fn(T) -> bool)
    ensures
        count_of(Seq::<T>::empty(), property) == 0,
        property(element) ==> count_of(elements.push(element), property) == count_of(
            elements,
            property,
        ) + 1,
        !property(element) ==> count_of(elements.push(element), property) == count_of(
            elements,
            property,
        ),
{
    reveal(Seq::filter);
    assert(elements.push(element).drop_last() =~= elements);
}

/// One item more raises the count of its own sort by one, and no other: plain, discriminated and
/// response enums all count as enums, and a plain enum has helpers where it has methods.
pub proof fn law_type_counts<D>(
    items: Seq<RustType<D>>,
    item: RustType<D>,
    before: TypeCounts,
    after: TypeCounts,
)
    requires
        before.counts(items),
        after.counts(items.push(item)),
    ensures
        after.structs == before.structs + (if item is Struct {
            1int
        } else {
            0int
        }),
        after.enums == before.enums + (if item is Enum || item is DiscriminatedEnum
            || item is ResponseEnum {
            1int
        } else {
            0int
        }),
        after.enums_with_helpers == before.enums_with_helpers + (match item {
            RustType::Enum(def) => if def.methods@.len() > 0 {
                1int
            } else {
                0int
            },
            _ => 0int,
        }),
        after.type_aliases == before.type_aliases + (if item is TypeAlias {
            1int
        } else {
            0int
        }),
{
    reveal(Seq::filter);
    assert(items.push(item).drop_last() =~= items);
}

/// Nothing is counted where there are no items.
pub proof fn law_no_types_no_counts<D>(counts: TypeCounts)
    requires
        counts.counts(Seq::<RustType<D>>::empty()),
    ensures
        counts.structs == 0,
        counts.enums == 0,
        counts.enums_with_helpers == 0,
        counts.type_aliases == 0,
{
    reveal(Seq::filter);
}

/// What the statistics of a run say of the types, operations, cycles and warnings that they
/// describe.
pub proof fn law_statistics_say_what_there_is<D, O>(
    stats: GenerationStats,
    rust_types: Seq<RustType<D>>,
    operations: Seq<OperationInfo<O>>,
    cycle_details: Vec<Vec<String>>,
    warnings: Seq<GenerationWarningView>,
    orphaned_schemas: nat,
)
    requires
        stats_describe(
            stats,
            rust_types,
            operations,
            cycle_details,
            warnings,
            orphaned_schemas,
        ),
    ensures
        stats.types_generated == rust_types.len(),
        stats.structs_generated == rust_types.filter(|item: RustType<D>| item is Struct).len(),
        stats.enums_generated == rust_types.filter(
            |item: RustType<D>|
                item is Enum || item is DiscriminatedEnum || item is ResponseEnum,
        ).len(),
        stats.enums_with_helpers_generated == rust_types.filter(
            |item: RustType<D>| item matches RustType::Enum(def) && def.methods@.len() > 0,
        ).len(),
        stats.type_aliases_generated == rust_types.filter(
            |item: RustType<D>| item is TypeAlias,
        ).len(),
        stats.operations_converted == operations.len(),
        stats.webhooks_converted == operations.filter(
            |operation: OperationInfo<O>| operation.kind == OperationKind::Webhook,
        ).len(),
        stats.cycles_detected == cycle_details@.len(),
        stats.cycle_details == cycle_details,
        stats.warnings@.len() == warnings.len(),
        forall|i: int| 0 <= i < warnings.len() ==> (#[trigger] stats.warnings@[i])@ == warnings[i],
        stats.orphaned_schemas_count == orphaned_schemas,
        stats.client_methods_generated is None,
        stats.client_headers_generated is None,
{
    let views = warning_views(stats.warnings@);
    assert(views.len() == stats.warnings@.len());
    assert forall|i: int| 0 <= i < warnings.len() implies (#[trigger] stats.warnings@[i])@
        == warnings[i] by {
        assert(views[i] == stats.warnings@[i]@);
    }
    lemma_same_filter(
        rust_types,
        |item: RustType<D>| is_struct(item),
        |item: RustType<D>| item is Struct,
    );
    lemma_same_filter(
        rust_types,
        |item: RustType<D>| is_enum(item),
        |item: RustType<D>| item is Enum || item is DiscriminatedEnum || item is ResponseEnum,
    );
    lemma_same_filter(
        rust_types,
        |item: RustType<D>| is_enum_with_helpers(item),
        |item: RustType<D>| item matches RustType::Enum(def) && def.methods@.len() > 0,
    );
    lemma_same_filter(
        rust_types,
        |item: RustType<D>| is_type_alias(item),
        |item: RustType<D>| item is TypeAlias,
    );
    lemma_same_filter(
        operations,
        |operation: OperationInfo<O>| is_webhook(operation),
        |operation: OperationInfo<O>| operation.kind == OperationKind::Webhook,
    );
}

/// Properties that agree on every element pick the same elements.
pub(crate) proof fn lemma_same_filter<T>(
    elements: Seq<T>,
    p: spec_fn(T) -> bool,
    q: spec_fn(T) -> bool,
)
    requires
        forall|element: T| #[trigger] p(element) == q(element),
    ensures
        elements.filter(p) == elements.filter(q),
    decreases elements.len(),
{
    reveal(Seq::filter);
    if elements.len() > 0 {
        lemma_same_filter(elements.drop_last(), p, q);
    }
}

/// As many schemas are orphaned as there are beyond those that are reached, and none where
/// reachability is not asked for.
pub proof fn law_orphaned_count(total: nat, reached: nat)
    ensures
        reached <= total ==> orphaned_count(total, Some(reached)) == total - reached,
        reached > total ==> orphaned_count(total, Some(reached)) == 0,
        orphaned_count(total, None) == 0,
{
}

/// Lower case keeps the length, turns `A` to `Z` into `a` to `z`, and leaves every other
/// character alone.
pub proof fn law_lower_case(text: Seq<char>, i: int)
    requires
        0 <= i < text.len(),
    ensures
        ascii_lowercase(text).len() == text.len(),
        'A' <= text[i] <= 'Z' ==> ascii_lowercase(text)[i] as int == text[i] as int + 32,
        !('A' <= text[i] <= 'Z') ==> ascii_lowercase(text)[i] == text[i],
{
}

/// Lower case is in lower case already.
pub proof fn law_lower_case_once(text: Seq<char>)
    ensures
        ascii_lowercase(ascii_lowercase(text)) == ascii_lowercase(text),
{
    assert(ascii_lowercase(ascii_lowercase(text)) =~= ascii_lowercase(text));
}

/// Exactly the named parameters of operations that stand in headers are headers, each under its
/// name in lower case.
pub proof fn law_headers<O>(operations: Seq<OperationInfo<O>>, name: Seq<char>)
    ensures
        header_names(operations).contains(name) <==> exists|i: int, j: int, original: String|
            {
                &&& 0 <= i < operations.len()
                &&& 0 <= j < operations[i].parameters@.len()
                &&& (#[trigger] operations[i].parameters@[j]).parameter_location == Some(
                    ParameterLocation::Header,
                )
                &&& operations[i].parameters@[j].original_name == Some(original)
                &&& name == ascii_lowercase(#[trigger] original@)
            },
{
    if header_names(operations).contains(name) {
        let i = choose|i: int|
            0 <= i < operations.len() && names_header(
                (#[trigger] operations[i]).parameters@,
                name,
            );
        let parameters = operations[i].parameters@;
        let j = choose|j: int|
            0 <= j < parameters.len() && header_name(#[trigger] parameters[j])
                == Some(name);
        let original = parameters[j].original_name->0;
        assert(operations[i].parameters@[j].parameter_location == Some(ParameterLocation::Header));
        assert(name == ascii_lowercase(original@));
    }
    if exists|i: int, j: int, original: String|
        {
            &&& 0 <= i < operations.len()
            &&& 0 <= j < operations[i].parameters@.len()
            &&& (#[trigger] operations[i].parameters@[j]).parameter_location == Some(
                ParameterLocation::Header,
            )
            &&& operations[i].parameters@[j].original_name == Some(original)
            &&& name == ascii_lowercase(#[trigger] original@)
        } {
        let (i, j, original) = choose|i: int, j: int, original: String|
            {
                &&& 0 <= i < operations.len()
                &&& 0 <= j < operations[i].parameters@.len()
                &&& (#[trigger] operations[i].parameters@[j]).parameter_location == Some(
                    ParameterLocation::Header,
                )
                &&& operations[i].parameters@[j].original_name == Some(original)
                &&& name == ascii_lowercase(#[trigger] original@)
            };
        let parameters = operations[i].parameters@;
        assert(header_name(parameters[j]) == Some(name));
        assert(names_header(operations[i].parameters@, name));
    }
}

/// A client has one method for each operation, and as many headers as different names in lower
/// case stand among the header parameters of its operations.
pub proof fn law_client_counts<O>(
    stats: GenerationStats,
    operations: Seq<OperationInfo<O>>,
    counted: GenerationStats,
    headers: Set<Seq<char>>,
)
    requires
        client_counted(stats, operations, counted),
        forall|name: Seq<char>| #[trigger]
            headers.contains(name) <==> exists|i: int, j: int, original: String|
                {
                    &&& 0 <= i < operations.len()
                    &&& 0 <= j < operations[i].parameters@.len()
                    &&& (#[trigger] operations[i].parameters@[j]).parameter_location == Some(
                        ParameterLocation::Header,
                    )
                    &&& operations[i].parameters@[j].original_name == Some(original)
                    &&& name == ascii_lowercase(#[trigger] original@)
                },
    ensures
        counted.client_methods_generated matches Some(methods) && methods == operations.len(),
        counted.client_headers_generated matches Some(count) && count == headers.len(),
{
    assert forall|name: Seq<char>| headers.contains(name) <==> header_names(
        operations,
    ).contains(name) by {
        law_headers(operations, name);
    }
    assert(headers =~= header_names(operations));
}

} // verus!
