//! What is counted of a generation run.

use crate::ast::{OperationInfo, OperationKind, OperationParameter, ParameterLocation, RustType};
use crate::report::{GenerationStats, GenerationWarning, GenerationWarningView};
use vstd::prelude::*;

verus! {

/// How many elements of a sequence have a property.
pub open spec fn count_of<T>(elements: Seq<T>, property: spec_fn(T) -> bool) -> nat {
    elements.filter(property).len()
}

/// Whether an item is a struct.
pub open spec fn is_struct<D>(item: RustType<D>) -> bool {
    item is Struct
}

/// Whether an item is an enum of any sort.
pub open spec fn is_enum<D>(item: RustType<D>) -> bool {
    item is Enum || item is DiscriminatedEnum || item is ResponseEnum
}

/// Whether an item is a plain enum with helper methods.
pub open spec fn is_enum_with_helpers<D>(item: RustType<D>) -> bool {
    item matches RustType::Enum(def) && def.methods@.len() > 0
}

/// Whether an item is a type alias.
pub open spec fn is_type_alias<D>(item: RustType<D>) -> bool {
    item is TypeAlias
}

/// Whether an operation is a webhook.
pub open spec fn is_webhook<O>(operation: OperationInfo<O>) -> bool {
    operation.kind == OperationKind::Webhook
}

/// Counting one element more.
pub(crate) proof fn lemma_count_next<T>(elements: Seq<T>, at: int, property: spec_fn(T) -> bool)
    requires
        0 <= at < elements.len(),
    ensures
        count_of(elements.take(at + 1), property) == count_of(elements.take(at), property) + (if
        property(elements[at]) {
            1nat
        } else {
            0nat
        }),
        count_of(elements.take(at), property) <= at,
{
    reveal(Seq::filter);
    assert(elements.take(at + 1).drop_last() =~= elements.take(at));
    lemma_count_bounded(elements.take(at), property);
}

/// No more elements have a property than there are.
pub(crate) proof fn lemma_count_bounded<T>(elements: Seq<T>, property: spec_fn(T) -> bool)
    ensures
        count_of(elements, property) <= elements.len(),
    decreases elements.len(),
{
    reveal(Seq::filter);
    if elements.len() > 0 {
        lemma_count_bounded(elements.drop_last(), property);
    }
}

/// How many items of each sort there are.
#[derive(Debug, Clone, Copy)]
pub struct TypeCounts {
    pub structs: usize,
    pub enums: usize,
    pub enums_with_helpers: usize,
    pub type_aliases: usize,
}

impl TypeCounts {
    /// Whether these are the counts of the given items.
    pub open spec fn counts<D>(self, items: Seq<RustType<D>>) -> bool {
        &&& self.structs == count_of(items, |item: RustType<D>| is_struct(item))
        &&& self.enums == count_of(items, |item: RustType<D>| is_enum(item))
        &&& self.enums_with_helpers == count_of(
            items,
            |item: RustType<D>| is_enum_with_helpers(item),
        )
        &&& self.type_aliases == count_of(items, |item: RustType<D>| is_type_alias(item))
    }
}

/// Counts the items of each sort.
pub fn count_types<D>(rust_types: &Vec<RustType<D>>) -> (counts: TypeCounts)
    ensures
        counts.counts(rust_types@),
        counts.structs + counts.enums + counts.type_aliases == rust_types@.len(),
        counts.enums_with_helpers <= counts.enums,
{
    let mut counts = TypeCounts { structs: 0, enums: 0, enums_with_helpers: 0, type_aliases: 0 };
    let ghost items = rust_types@;
    proof {
        reveal(Seq::filter);
    }
    let mut i: usize = 0;
    while i < rust_types.len()
        invariant
            items == rust_types@,
            i <= rust_types.len(),
            counts.counts(items.take(i as int)),
            counts.structs + counts.enums + counts.type_aliases == i,
            counts.enums_with_helpers <= counts.enums,
        decreases rust_types.len() - i,
    {
        proof {
            lemma_count_next(items, i as int, |item: RustType<D>| is_struct(item));
            lemma_count_next(items, i as int, |item: RustType<D>| is_enum(item));
            lemma_count_next(items, i as int, |item: RustType<D>| is_enum_with_helpers(item));
            lemma_count_next(items, i as int, |item: RustType<D>| is_type_alias(item));
        }
        match &rust_types[i] {
            RustType::Struct(_) => {
                counts.structs = counts.structs + 1;
            },
            RustType::Enum(def) => {
                counts.enums = counts.enums + 1;
                if !def.methods.is_empty() {
                    counts.enums_with_helpers = counts.enums_with_helpers + 1;
                }
            },
            RustType::DiscriminatedEnum(_) | RustType::ResponseEnum(_) => {
                counts.enums = counts.enums + 1;
            },
            RustType::TypeAlias(_) => {
                counts.type_aliases = counts.type_aliases + 1;
            },
        }
        i = i + 1;
    }
    assert(items.take(items.len() as int) =~= items);
    counts
}

/// Counts the operations that are webhooks.
pub fn count_webhooks<O>(operations: &Vec<OperationInfo<O>>) -> (count: usize)
    ensures
        count == count_of(operations@, |operation: OperationInfo<O>| is_webhook(operation)),
        count <= operations@.len(),
{
    let ghost listed = operations@;
    proof {
        reveal(Seq::filter);
    }
    let mut count: usize = 0;
    let mut i: usize = 0;
    while i < operations.len()
        invariant
            listed == operations@,
            i <= operations.len(),
            count <= i,
            count == count_of(
                listed.take(i as int),
                |operation: OperationInfo<O>| is_webhook(operation),
            ),
        decreases operations.len() - i,
    {
        proof {
            lemma_count_next(
                listed,
                i as int,
                |operation: OperationInfo<O>| is_webhook(operation),
            );
        }
        if matches!(operations[i].kind, OperationKind::Webhook) {
            count = count + 1;
        }
        i = i + 1;
    }
    assert(listed.take(listed.len() as int) =~= listed);
    count
}

/// How many schemas no operation reaches; where reachability was not asked for, none count.
pub open spec fn orphaned_count(total: nat, reachable: Option<nat>) -> nat {
    match reachable {
        Some(reached) => if reached <= total {
            (total - reached) as nat
        } else {
            0
        },
        None => 0,
    }
}

/// How many schemas no operation reaches; where reachability was not asked for, none count.
pub fn count_orphaned(total_schemas: usize, reachable: Option<usize>) -> (count: usize)
    ensures
        count == orphaned_count(
            total_schemas as nat,
            match reachable {
                Some(reached) => Some(reached as nat),
                None => None,
            },
        ),
{
    match reachable {
        Some(reached) => total_schemas.saturating_sub(reached),
        None => 0,
    }
}

/// The lower-case form of an ASCII letter; other characters are unchanged.
pub open spec fn ascii_lower(c: char) -> char {
    if 'A' <= c && c <= 'Z' {
        ((c as u32) + 32) as char
    } else {
        c
    }
}

/// Text with its ASCII letters in lower case.
pub open spec fn ascii_lowercase(text: Seq<char>) -> Seq<char> {
    text.map_values(|c: char| ascii_lower(c))
}

/// `str::to_ascii_lowercase` maps the ASCII letters `A` to `Z` to `a` to `z` and leaves every
/// other character unchanged.
#[verifier::external_body]
fn to_ascii_lowercase(text: &str) -> (lower: String)
    ensures
        lower@ == ascii_lowercase(text@),
{
    text.to_ascii_lowercase()
}

/// The name of the header that a parameter stands for, in lower case.
pub open spec fn header_name(parameter: OperationParameter) -> Option<Seq<char>> {
    match (parameter.parameter_location, parameter.original_name) {
        (Some(ParameterLocation::Header), Some(name)) => Some(ascii_lowercase(name@)),
        _ => None,
    }
}

/// Whether one of the parameters stands for the header.
pub open spec fn names_header(parameters: Seq<OperationParameter>, name: Seq<char>) -> bool {
    exists|i: int|
        0 <= i < parameters.len() && header_name(#[trigger] parameters[i]) == Some(name)
}

/// The headers that the operations' parameters stand for, in lower case.
pub open spec fn header_names<O>(operations: Seq<OperationInfo<O>>) -> Set<Seq<char>> {
    Set::new(
        |name: Seq<char>|
            exists|i: int|
                0 <= i < operations.len() && names_header(
                    (#[trigger] operations[i]).parameters@,
                    name,
                ),
    )
}

/// Adds a name to names without duplicates, unless it is among them.
fn add_name(names: &mut Vec<String>, name: String)
    requires
        text_of(old(names)@).no_duplicates(),
    ensures
        text_of(final(names)@).no_duplicates(),
        text_of(final(names)@).to_set() == text_of(old(names)@).to_set().insert(name@),
{
    let ghost known = text_of(names@);
    let mut i: usize = 0;
    while i < names.len()
        invariant
            i <= names.len(),
            names@ == old(names)@,
            known == text_of(names@),
            known.no_duplicates(),
            forall|j: int| 0 <= j < i ==> known[j] != name@,
        decreases names.len() - i,
    {
        if names[i] == name {
            assert(known[i as int] == name@);
            assert(known.to_set().insert(name@) =~= known.to_set());
            return;
        }
        i = i + 1;
    }
    names.push(name);
    assert(text_of(names@) =~= known.push(name@));
    assert(known.push(name@).to_set() =~= known.to_set().insert(name@)) by {
        assert(known.push(name@)[known.len() as int] == name@);
        assert forall|other: Seq<char>| known.contains(other) implies known.push(name@).contains(
            other,
        ) by {
            let at = choose|at: int| 0 <= at < known.len() && known[at] == other;
            assert(known.push(name@)[at] == other);
        }
    }
}

/// The strings as text.
pub open spec fn text_of(strings: Seq<String>) -> Seq<Seq<char>> {
    strings.map_values(|string: String| string@)
}

/// The headers that the parameters stand for, in lower case.
spec fn parameter_headers(parameters: Seq<OperationParameter>) -> Set<Seq<char>> {
    Set::new(|name: Seq<char>| names_header(parameters, name))
}

/// Counts the headers that the operations' parameters stand for; names that differ in the case
/// of ASCII letters alone are one header.
pub fn count_unique_headers<O>(operations: &[OperationInfo<O>]) -> (count: usize)
    ensures
        header_names(operations@).finite(),
        count == header_names(operations@).len(),
{
    let ghost listed = operations@;
    let mut names: Vec<String> = Vec::new();
    assert(text_of(names@).to_set() =~= header_names(listed.take(0)));
    let mut i: usize = 0;
    while i < operations.len()
        invariant
            listed == operations@,
            i <= operations.len(),
            text_of(names@).no_duplicates(),
            text_of(names@).to_set() == header_names(listed.take(i as int)),
        decreases operations.len() - i,
    {
        let parameters = &operations[i].parameters;
        let ghost earlier = header_names(listed.take(i as int));
        assert(earlier.union(parameter_headers(parameters@.take(0))) =~= earlier);
        let mut j: usize = 0;
        while j < parameters.len()
            invariant
                j <= parameters.len(),
                text_of(names@).no_duplicates(),
                text_of(names@).to_set() == earlier.union(
                    parameter_headers(parameters@.take(j as int)),
                ),
            decreases parameters.len() - j,
        {
            let parameter = &parameters[j];
            let ghost before = parameter_headers(parameters@.take(j as int));
            let ghost after = parameter_headers(parameters@.take(j + 1));
            proof {
                lemma_next_parameter(parameters@, j as int);
            }
            if let Some(ParameterLocation::Header) = parameter.parameter_location {
                if let Some(name) = &parameter.original_name {
                    add_name(&mut names, to_ascii_lowercase(name.as_str()));
                    assert(earlier.union(before).insert(ascii_lowercase(name@)) =~= earlier.union(
                        after,
                    ));
                }
            }
            j = j + 1;
        }
        proof {
            assert(parameters@.take(parameters@.len() as int) =~= parameters@);
            lemma_next_operation(listed, i as int);
        }
        i = i + 1;
    }
    proof {
        assert(listed.take(listed.len() as int) =~= listed);
        text_of(names@).unique_seq_to_set();
        vstd::seq_lib::seq_to_set_is_finite(text_of(names@));
    }
    names.len()
}

proof fn lemma_next_parameter(parameters: Seq<OperationParameter>, at: int)
    requires
        0 <= at < parameters.len(),
    ensures
        parameter_headers(parameters.take(at + 1)) == match header_name(parameters[at]) {
            Some(name) => parameter_headers(parameters.take(at)).insert(name),
            None => parameter_headers(parameters.take(at)),
        },
{
    let before = parameters.take(at);
    let after = parameters.take(at + 1);
    assert forall|name: Seq<char>| names_header(after, name) <==> names_header(before, name)
        || header_name(parameters[at]) == Some(name) by {
        if names_header(before, name) {
            let i = choose|i: int|
                0 <= i < before.len() && header_name(#[trigger] before[i]) == Some(name);
            assert(after[i] == before[i]);
        }
        if header_name(parameters[at]) == Some(name) {
            assert(header_name(after[at]) == Some(name));
        }
        if names_header(after, name) {
            let i = choose|i: int|
                0 <= i < after.len() && header_name(#[trigger] after[i]) == Some(name);
            if i < at {
                assert(header_name(before[i]) == Some(name));
            }
        }
    }
    assert(parameter_headers(after) =~= match header_name(parameters[at]) {
        Some(name) => parameter_headers(before).insert(name),
        None => parameter_headers(before),
    });
}

proof fn lemma_next_operation<O>(operations: Seq<OperationInfo<O>>, at: int)
    requires
        0 <= at < operations.len(),
    ensures
        header_names(operations.take(at + 1)) == header_names(operations.take(at)).union(
            parameter_headers(operations[at].parameters@),
        ),
{
    let before = operations.take(at);
    let after = operations.take(at + 1);
    assert forall|name: Seq<char>| header_names(after).contains(name) <==> header_names(
        before,
    ).contains(name) || names_header(operations[at].parameters@, name) by {
        if header_names(before).contains(name) {
            let i = choose|i: int|
                0 <= i < before.len() && names_header((#[trigger] before[i]).parameters@, name);
            assert(after[i] == before[i]);
        }
        if names_header(operations[at].parameters@, name) {
            assert(names_header(after[at].parameters@, name));
        }
        if header_names(after).contains(name) {
            let i = choose|i: int|
                0 <= i < after.len() && names_header((#[trigger] after[i]).parameters@, name);
            if i < at {
                assert(names_header(before[i].parameters@, name));
            }
        }
    }
    assert(header_names(after) =~= header_names(before).union(
        parameter_headers(operations[at].parameters@),
    ));
}

/// The contents of warnings, in order.
pub open spec fn warning_views(warnings: Seq<GenerationWarning>) -> Seq<GenerationWarningView> {
    warnings.map_values(|warning: GenerationWarning| warning@)
}

/// Whether the statistics describe a run that made these types and operations, before a client
/// was generated.
pub open spec fn stats_describe<D, O>(
    stats: GenerationStats,
    rust_types: Seq<RustType<D>>,
    operations: Seq<OperationInfo<O>>,
    cycle_details: Vec<Vec<String>>,
    warnings: Seq<GenerationWarningView>,
    orphaned_schemas: nat,
) -> bool {
    &&& stats.types_generated == rust_types.len()
    &&& stats.structs_generated == count_of(rust_types, |item: RustType<D>| is_struct(item))
    &&& stats.enums_generated == count_of(rust_types, |item: RustType<D>| is_enum(item))
    &&& stats.enums_with_helpers_generated == count_of(
        rust_types,
        |item: RustType<D>| is_enum_with_helpers(item),
    )
    &&& stats.type_aliases_generated == count_of(
        rust_types,
        |item: RustType<D>| is_type_alias(item),
    )
    &&& stats.operations_converted == operations.len()
    &&& stats.webhooks_converted == count_of(
        operations,
        |operation: OperationInfo<O>| is_webhook(operation),
    )
    &&& stats.cycles_detected == cycle_details@.len()
    &&& stats.cycle_details == cycle_details
    &&& warning_views(stats.warnings@) == warnings
    &&& stats.orphaned_schemas_count == orphaned_schemas
    &&& stats.client_methods_generated is None
    &&& stats.client_headers_generated is None
}

/// The statistics of a run, before a client is generated.
pub fn collect_stats<D, O>(
    rust_types: &Vec<RustType<D>>,
    operations: &Vec<OperationInfo<O>>,
    cycle_details: Vec<Vec<String>>,
    warnings: Vec<GenerationWarning>,
    orphaned_schemas_count: usize,
) -> (stats: GenerationStats)
    ensures
        stats_describe(
            stats,
            rust_types@,
            operations@,
            cycle_details,
            warning_views(warnings@),
            orphaned_schemas_count as nat,
        ),
        stats.types_generated == stats.structs_generated + stats.enums_generated
            + stats.type_aliases_generated,
        stats.enums_with_helpers_generated <= stats.enums_generated,
        stats.webhooks_converted <= stats.operations_converted,
{
    let counts = count_types(rust_types);
    assert(counts.structs + counts.enums + counts.type_aliases == rust_types.len());
    let webhooks_converted = count_webhooks(operations);
    GenerationStats {
        types_generated: counts.structs + counts.enums + counts.type_aliases,
        structs_generated: counts.structs,
        enums_generated: counts.enums,
        enums_with_helpers_generated: counts.enums_with_helpers,
        type_aliases_generated: counts.type_aliases,
        operations_converted: operations.len(),
        webhooks_converted,
        cycles_detected: cycle_details.len(),
        cycle_details,
        warnings,
        orphaned_schemas_count,
        client_methods_generated: None,
        client_headers_generated: None,
    }
}

/// Whether the statistics are those of `stats` with the client's methods and headers counted.
pub open spec fn client_counted<O>(
    stats: GenerationStats,
    operations: Seq<OperationInfo<O>>,
    counted: GenerationStats,
) -> bool {
    &&& counted.client_methods_generated matches Some(methods) && methods == operations.len()
    &&& counted.client_headers_generated matches Some(headers) && headers == header_names(
        operations,
    ).len()
    &&& counted == GenerationStats {
        client_methods_generated: counted.client_methods_generated,
        client_headers_generated: counted.client_headers_generated,
        ..stats
    }
}

/// The statistics with the client's methods and headers counted.
pub fn count_client<O>(stats: GenerationStats, operations: &Vec<OperationInfo<O>>) -> (counted:
    GenerationStats)
    ensures
        client_counted(stats, operations@, counted),
{
    let mut counted = stats;
    counted.client_methods_generated = Some(operations.len());
    counted.client_headers_generated = Some(count_unique_headers(operations.as_slice()));
    counted
}

} // verus!
