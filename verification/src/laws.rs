//! What holds of registrations, conversions and reports beyond single functions.

pub mod converting;
pub mod registering;
pub mod reporting;
pub mod running;

use crate::ast::{
    OperationInfo, OperationKind, OperationParameter, ParameterLocation, RustType,
};
use crate::backend::{ConvertedOperation, GeneratorBackend, SchemaKey};
use crate::conversion::{
    conversion_order, lists_values, operation_converted, operation_outcome, operation_specific,
    operations_converted, schema_converted, schemas_converted, OperationProgress, SchemaProgress,
};
use crate::document::PathOperationView;
use crate::operation_filter::OperationFilterView;
use crate::operation_registry::registry_built;
use crate::operation_source::{all_webhook_offers, webhook_offers, webhook_path};
use crate::orchestrator::{GenerationArtifacts, Orchestrator, PreparedRun};
use crate::registration::{
    entries_rekeyed, entry_ids, entry_registered, entry_renamed, has_id, id_position, id_set,
    ids_distinct, ids_trimmed, offer_ingested, offers_ingested, shorter, stable_id_given,
    unique_id_given, OfferView, OperationEntry, OperationEntryView, OperationNaming,
};
use crate::report::{GenerationStats, GenerationWarningView};
use crate::statistics::{
    ascii_lowercase, client_counted, count_of, header_name, header_names, is_enum,
    is_enum_with_helpers, is_struct, is_type_alias, is_webhook, lemma_count_bounded,
    names_header, orphaned_count, stats_describe, warning_views,
};
use vstd::prelude::*;

verus! {

/// An excluded id is rejected, even where it is asked for.
pub proof fn law_exclusion_wins(filter: OperationFilterView, id: Seq<char>)
    requires
        filter.excluded matches Some(excluded) && excluded.contains(id),
    ensures
        !filter.accepts(id),
{
}

/// Without sets of ids, every operation is accepted.
pub proof fn law_no_sets_accept_all(filter: OperationFilterView, id: Seq<char>)
    requires
        filter.only is None,
        filter.excluded is None,
    ensures
        filter.accepts(id),
{
}

/// A registration keeps ids distinct, makes the entry known under its id, and leaves every
/// entry with another id where it stands.
pub proof fn law_registration(entries: Seq<OperationEntryView>, entry: OperationEntryView)
    requires
        ids_distinct(entries),
    ensures
        ids_distinct(entry_registered(entries, entry)),
        entry_registered(entries, entry).contains(entry),
        has_id(entry_registered(entries, entry), entry.stable_id),
        entries.len() <= entry_registered(entries, entry).len() <= entries.len() + 1,
        forall|i: int|
            0 <= i < entries.len() && (#[trigger] entries[i]).stable_id != entry.stable_id
                ==> entry_registered(entries, entry)[i] == entries[i],
{
    let after = entry_registered(entries, entry);
    if has_id(entries, entry.stable_id) {
        let at = id_position(entries, entry.stable_id);
        assert(entries[at].stable_id == entry.stable_id);
        assert(after[at] == entry);
    } else {
        assert(after[entries.len() as int] == entry);
    }
}

/// Registering an entry twice is registering it once.
pub proof fn law_registration_idempotent(
    entries: Seq<OperationEntryView>,
    entry: OperationEntryView,
)
    requires
        ids_distinct(entries),
    ensures
        entry_registered(entry_registered(entries, entry), entry) == entry_registered(
            entries,
            entry,
        ),
{
    law_registration(entries, entry);
    let once = entry_registered(entries, entry);
    let at = id_position(once, entry.stable_id);
    assert(0 <= at < once.len() && once[at].stable_id == entry.stable_id);
    let i = choose|i: int| 0 <= i < once.len() && once[i] == entry;
    assert(i == at);
    assert(entry_registered(once, entry) =~= once);
}

/// Renaming leaves no two entries with one id, and makes none.
pub proof fn law_rekeyed_ids_distinct(
    entries: Seq<OperationEntryView>,
    ids: Seq<Seq<char>>,
    count: nat,
)
    requires
        count <= entries.len(),
        count <= ids.len(),
    ensures
        ids_distinct(entries_rekeyed(entries, ids, count)),
        entries_rekeyed(entries, ids, count).len() <= count,
    decreases count,
{
    if count > 0 {
        let last = count - 1;
        law_rekeyed_ids_distinct(entries, ids, last as nat);
        law_registration(
            entries_rekeyed(entries, ids, last as nat),
            entry_renamed(entries[last], ids[last]),
        );
    }
}

/// Where the new ids are distinct, renaming keeps every entry, in order, and changes nothing of
/// it but its id.
pub proof fn law_distinct_ids_keep_every_entry(
    entries: Seq<OperationEntryView>,
    ids: Seq<Seq<char>>,
    count: nat,
)
    requires
        count <= entries.len(),
        count <= ids.len(),
        ids.no_duplicates(),
    ensures
        entries_rekeyed(entries, ids, count) == Seq::new(
            count,
            |i: int| entry_renamed(entries[i], ids[i]),
        ),
    decreases count,
{
    if count > 0 {
        let last = count - 1;
        law_distinct_ids_keep_every_entry(entries, ids, last as nat);
        let before = entries_rekeyed(entries, ids, last as nat);
        assert forall|i: int| 0 <= i < before.len() implies (#[trigger] before[i]).stable_id
            != ids[last] by {
            assert(before[i] == entry_renamed(entries[i], ids[i]));
        }
        assert(!has_id(before, ids[last]));
    }
    assert(entries_rekeyed(entries, ids, count) =~= Seq::new(
        count,
        |i: int| entry_renamed(entries[i], ids[i]),
    ));
}

proof fn lemma_distinct_ids(entries: Seq<OperationEntryView>)
    requires
        ids_distinct(entries),
    ensures
        entry_ids(entries).no_duplicates(),
{
    let ids = entry_ids(entries);
    assert forall|i: int, j: int| 0 <= i < ids.len() && 0 <= j < ids.len() && i != j implies ids[i]
        != ids[j] by {
        if i < j {
            assert(entries[i].stable_id != entries[j].stable_id);
        } else {
            assert(entries[j].stable_id != entries[i].stable_id);
        }
    }
}

/// Renaming entries to the ids that they have changes nothing.
pub proof fn law_own_ids_change_nothing(entries: Seq<OperationEntryView>)
    requires
        ids_distinct(entries),
    ensures
        entries_rekeyed(entries, entry_ids(entries), entries.len()) == entries,
{
    let ids = entry_ids(entries);
    lemma_distinct_ids(entries);
    law_distinct_ids_keep_every_entry(entries, ids, entries.len());
    assert(entries_rekeyed(entries, ids, entries.len()) =~= entries);
}

/// Offering operations keeps ids distinct, never removes an entry, and adds at most one entry
/// for each operation.
pub proof fn law_ingestion_keeps_ids_distinct<N: OperationNaming>(
    naming: N,
    filter: OperationFilterView,
    offers: Seq<OfferView>,
    before: Seq<OperationEntryView>,
    after: Seq<OperationEntryView>,
)
    requires
        ids_distinct(before),
        offers_ingested(naming, filter, offers, before, after),
    ensures
        ids_distinct(after),
        before.len() <= after.len() <= before.len() + offers.len(),
    decreases offers.len(),
{
    if offers.len() > 0 {
        let middle = choose|middle: Seq<OperationEntryView>|
            offers_ingested(naming, filter, offers.drop_last(), before, middle)
                && #[trigger] offer_ingested(naming, filter, offers.last(), middle, after);
        law_ingestion_keeps_ids_distinct(naming, filter, offers.drop_last(), before, middle);
        let base_id = choose|base_id: Seq<char>| #[trigger]
            stable_id_given(naming, offers.last(), base_id) && if filter.accepts(base_id) {
                exists|id: Seq<char>| #[trigger]
                    unique_id_given(naming, base_id, id_set(middle), id) && after
                        == entry_registered(middle, offers.last().entry(id))
            } else {
                after == middle
            };
        if filter.accepts(base_id) {
            let id = choose|id: Seq<char>| #[trigger]
                unique_id_given(naming, base_id, id_set(middle), id) && after == entry_registered(
                    middle,
                    offers.last().entry(id),
                );
            law_registration(middle, offers.last().entry(id));
        }
    }
}

/// Whether an entry stands for one of the operations, under an id that the filter accepts for
/// it.
pub open spec fn accepted_offer<N: OperationNaming>(
    naming: N,
    filter: OperationFilterView,
    offers: Seq<OfferView>,
    entry: OperationEntryView,
) -> bool {
    exists|i: int, base_id: Seq<char>|
        {
            &&& 0 <= i < offers.len()
            &&& #[trigger] stable_id_given(naming, offers[i], base_id)
            &&& filter.accepts(base_id)
            &&& entry == offers[i].entry(entry.stable_id)
        }
}

/// Every entry that offering operations adds stands for an operation whose id the filter
/// accepts.
pub proof fn law_only_accepted_operations_are_added<N: OperationNaming>(
    naming: N,
    filter: OperationFilterView,
    offers: Seq<OfferView>,
    before: Seq<OperationEntryView>,
    after: Seq<OperationEntryView>,
)
    requires
        offers_ingested(naming, filter, offers, before, after),
    ensures
        forall|entry: OperationEntryView| #[trigger]
            after.contains(entry) ==> before.contains(entry) || accepted_offer(
                naming,
                filter,
                offers,
                entry,
            ),
    decreases offers.len(),
{
    if offers.len() > 0 {
        let last = offers.len() - 1;
        let middle = choose|middle: Seq<OperationEntryView>|
            offers_ingested(naming, filter, offers.drop_last(), before, middle)
                && #[trigger] offer_ingested(naming, filter, offers.last(), middle, after);
        law_only_accepted_operations_are_added(naming, filter, offers.drop_last(), before, middle);
        let base_id = choose|base_id: Seq<char>| #[trigger]
            stable_id_given(naming, offers.last(), base_id) && if filter.accepts(base_id) {
                exists|id: Seq<char>| #[trigger]
                    unique_id_given(naming, base_id, id_set(middle), id) && after
                        == entry_registered(middle, offers.last().entry(id))
            } else {
                after == middle
            };
        assert forall|entry: OperationEntryView| #[trigger] after.contains(entry) implies
            before.contains(entry) || accepted_offer(naming, filter, offers, entry) by {
            if middle.contains(entry) {
                if !before.contains(entry) {
                    let (i, given) = choose|i: int, given: Seq<char>|
                        {
                            &&& 0 <= i < offers.drop_last().len()
                            &&& #[trigger] stable_id_given(naming, offers.drop_last()[i], given)
                            &&& filter.accepts(given)
                            &&& entry == offers.drop_last()[i].entry(entry.stable_id)
                        };
                    assert(stable_id_given(naming, offers[i], given));
                }
            } else {
                assert(filter.accepts(base_id));
                let id = choose|id: Seq<char>| #[trigger]
                    unique_id_given(naming, base_id, id_set(middle), id) && after
                        == entry_registered(middle, offers.last().entry(id));
                let at = choose|at: int| 0 <= at < after.len() && after[at] == entry;
                if at < middle.len() && after[at] == middle[at] {
                    assert(middle.contains(entry));
                }
                assert(entry == offers.last().entry(id));
                assert(stable_id_given(naming, offers[last], base_id));
            }
        }
    }
}

proof fn lemma_rekeyed_origin(
    entries: Seq<OperationEntryView>,
    ids: Seq<Seq<char>>,
    count: nat,
)
    requires
        count <= entries.len(),
    ensures
        forall|entry: OperationEntryView| #[trigger]
            entries_rekeyed(entries, ids, count).contains(entry) ==> exists|i: int|
                0 <= i < entries.len() && entry == entry_renamed(
                    #[trigger] entries[i],
                    entry.stable_id,
                ),
    decreases count,
{
    if count > 0 {
        let last = count - 1;
        let before = entries_rekeyed(entries, ids, last as nat);
        let after = entries_rekeyed(entries, ids, count);
        let added = entry_renamed(entries[last], ids[last]);
        lemma_rekeyed_origin(entries, ids, last as nat);
        assert forall|entry: OperationEntryView| #[trigger] after.contains(entry) implies exists|
            i: int,
        |
            0 <= i < entries.len() && entry == entry_renamed(
                #[trigger] entries[i],
                entry.stable_id,
            ) by {
            let at = choose|at: int| 0 <= at < after.len() && after[at] == entry;
            if at < before.len() && after[at] == before[at] {
                assert(before.contains(entry));
            } else {
                assert(entry == added);
                assert(entry == entry_renamed(entries[last], entry.stable_id));
            }
        }
    }
}

/// Every entry of a registry stands for an operation that a source offers and whose id the
/// filter accepts.
pub proof fn law_registry_holds_accepted_operations<N: OperationNaming>(
    naming: N,
    filter: OperationFilterView,
    offers: Seq<OfferView>,
    entries: Seq<OperationEntryView>,
)
    requires
        registry_built(naming, filter, offers, entries),
    ensures
        forall|entry: OperationEntryView| #[trigger]
            entries.contains(entry) ==> accepted_offer(naming, filter, offers, entry),
        entries.len() <= offers.len(),
{
    let (registered, trimmed) = choose|
        registered: Seq<OperationEntryView>,
        trimmed: Seq<Seq<char>>,
    |
        {
            &&& #[trigger] offers_ingested(naming, filter, offers, Seq::empty(), registered)
            &&& #[trigger] ids_trimmed(naming, entry_ids(registered), trimmed)
            &&& entries == entries_rekeyed(
                registered,
                trimmed,
                shorter(registered.len(), trimmed.len()),
            )
        };
    let count = shorter(registered.len(), trimmed.len());
    law_only_accepted_operations_are_added(naming, filter, offers, Seq::empty(), registered);
    law_ingestion_keeps_ids_distinct(naming, filter, offers, Seq::empty(), registered);
    law_rekeyed_ids_distinct(registered, trimmed, count);
    lemma_rekeyed_origin(registered, trimmed, count);
    assert forall|entry: OperationEntryView| #[trigger] entries.contains(entry) implies
        accepted_offer(naming, filter, offers, entry) by {
        let from = choose|from: int|
            0 <= from < registered.len() && entry == entry_renamed(
                #[trigger] registered[from],
                entry.stable_id,
            );
        assert(registered.contains(registered[from]));
        let (i, base_id) = choose|i: int, base_id: Seq<char>|
            {
                &&& 0 <= i < offers.len()
                &&& #[trigger] stable_id_given(naming, offers[i], base_id)
                &&& filter.accepts(base_id)
                &&& registered[from] == offers[i].entry(registered[from].stable_id)
            };
        assert(stable_id_given(naming, offers[i], base_id));
        assert(entry == offers[i].entry(entry.stable_id));
    }
}

/// What is offered under webhooks is marked as such, and its path names the webhook.
pub proof fn law_webhook_offers_are_marked(
    webhooks: Seq<(Seq<char>, Seq<PathOperationView>)>,
    i: int,
)
    requires
        0 <= i < all_webhook_offers(webhooks).len(),
    ensures
        all_webhook_offers(webhooks)[i].kind == OperationKind::Webhook,
        exists|j: int|
            0 <= j < webhooks.len() && all_webhook_offers(webhooks)[i].path == webhook_path(
                (#[trigger] webhooks[j]).0,
            ) && webhooks[j].1.contains(all_webhook_offers(webhooks)[i].found),
    decreases webhooks.len(),
{
    let rest = webhooks.drop_last();
    let earlier = all_webhook_offers(rest);
    if i < earlier.len() {
        law_webhook_offers_are_marked(rest, i);
        let j = choose|j: int|
            0 <= j < rest.len() && earlier[i].path == webhook_path((#[trigger] rest[j]).0)
                && rest[j].1.contains(earlier[i].found);
        assert(webhooks[j] == rest[j]);
    } else {
        let last = webhooks.len() - 1;
        let offer = webhook_offers(webhooks[last])[i - earlier.len()];
        assert(all_webhook_offers(webhooks)[i] == offer);
        assert(webhooks[last].1[i - earlier.len()] == offer.found);
    }
}

/// Whether the ids that are made for operations are never ids that others have.
pub open spec fn makes_fresh_ids<N: OperationNaming>(naming: N) -> bool {
    forall|base_id: Seq<char>, taken: Set<Seq<char>>, id: Seq<char>| #[trigger]
        unique_id_given(naming, base_id, taken, id) ==> !taken.contains(id)
}

/// Where ids are made fresh, offering operations leaves every earlier entry as it is, and what
/// it adds comes after.
pub proof fn law_fresh_ids_keep_earlier_entries<N: OperationNaming>(
    naming: N,
    filter: OperationFilterView,
    offers: Seq<OfferView>,
    before: Seq<OperationEntryView>,
    after: Seq<OperationEntryView>,
)
    requires
        makes_fresh_ids(naming),
        offers_ingested(naming, filter, offers, before, after),
    ensures
        before.len() <= after.len(),
        after.take(before.len() as int) == before,
    decreases offers.len(),
{
    if offers.len() > 0 {
        let middle = choose|middle: Seq<OperationEntryView>|
            offers_ingested(naming, filter, offers.drop_last(), before, middle)
                && #[trigger] offer_ingested(naming, filter, offers.last(), middle, after);
        law_fresh_ids_keep_earlier_entries(naming, filter, offers.drop_last(), before, middle);
        assert(after == middle || exists|entry: OperationEntryView| after == #[trigger] middle.push(
            entry,
        ));
    }
    assert(after.take(before.len() as int) =~= before);
}

/// Whether the filter accepts an operation, whichever id is computed for it.
pub open spec fn always_accepted<N: OperationNaming>(
    naming: N,
    filter: OperationFilterView,
    offer: OfferView,
) -> bool {
    forall|base_id: Seq<char>| #[trigger]
        stable_id_given(naming, offer, base_id) ==> filter.accepts(base_id)
}

/// Whether some entry stands for the operation.
pub open spec fn has_offer(entries: Seq<OperationEntryView>, offer: OfferView) -> bool {
    exists|i: int|
        0 <= i < entries.len() && (#[trigger] entries[i]) == offer.entry(entries[i].stable_id)
}

/// Where ids are made fresh, every offered operation that the filter accepts is registered.
pub proof fn law_accepted_operations_are_added<N: OperationNaming>(
    naming: N,
    filter: OperationFilterView,
    offers: Seq<OfferView>,
    before: Seq<OperationEntryView>,
    after: Seq<OperationEntryView>,
    i: int,
)
    requires
        makes_fresh_ids(naming),
        offers_ingested(naming, filter, offers, before, after),
        0 <= i < offers.len(),
        always_accepted(naming, filter, offers[i]),
    ensures
        has_offer(after, offers[i]),
    decreases offers.len(),
{
    let last = offers.len() - 1;
    let middle = choose|middle: Seq<OperationEntryView>|
        offers_ingested(naming, filter, offers.drop_last(), before, middle)
            && #[trigger] offer_ingested(naming, filter, offers.last(), middle, after);
    if i < last {
        law_accepted_operations_are_added(naming, filter, offers.drop_last(), before, middle, i);
        let at = choose|at: int|
            0 <= at < middle.len() && (#[trigger] middle[at]) == offers[i].entry(
                middle[at].stable_id,
            );
        assert(after == middle || exists|entry: OperationEntryView| after == #[trigger] middle.push(
            entry,
        ));
        assert(after[at] == middle[at]);
    } else {
        let id = choose|id: Seq<char>| after == middle.push(#[trigger] offers.last().entry(id));
        assert(after[middle.len() as int] == offers.last().entry(id));
    }
}

/// Whether distinct ids are trimmed to as many ids, which are distinct too.
pub open spec fn trims_distinctly<N: OperationNaming>(naming: N) -> bool {
    forall|ids: Seq<Seq<char>>, trimmed: Seq<Seq<char>>| #[trigger]
        ids_trimmed(naming, ids, trimmed) && ids.no_duplicates() ==> trimmed.len() == ids.len()
            && trimmed.no_duplicates()
}

/// Where ids are made fresh and stay distinct when they are trimmed, a registry misses no
/// operation that a source offers and the filter accepts.
pub proof fn law_registry_misses_no_accepted_operation<N: OperationNaming>(
    naming: N,
    filter: OperationFilterView,
    offers: Seq<OfferView>,
    entries: Seq<OperationEntryView>,
    i: int,
)
    requires
        makes_fresh_ids(naming),
        trims_distinctly(naming),
        registry_built(naming, filter, offers, entries),
        0 <= i < offers.len(),
        always_accepted(naming, filter, offers[i]),
    ensures
        has_offer(entries, offers[i]),
{
    let (registered, trimmed) = choose|
        registered: Seq<OperationEntryView>,
        trimmed: Seq<Seq<char>>,
    |
        {
            &&& #[trigger] offers_ingested(naming, filter, offers, Seq::empty(), registered)
            &&& #[trigger] ids_trimmed(naming, entry_ids(registered), trimmed)
            &&& entries == entries_rekeyed(
                registered,
                trimmed,
                shorter(registered.len(), trimmed.len()),
            )
        };
    law_ingestion_keeps_ids_distinct(naming, filter, offers, Seq::empty(), registered);
    lemma_distinct_ids(registered);
    law_accepted_operations_are_added(naming, filter, offers, Seq::empty(), registered, i);
    law_distinct_ids_keep_every_entry(registered, trimmed, registered.len());
    let at = choose|at: int|
        0 <= at < registered.len() && (#[trigger] registered[at]) == offers[i].entry(
            registered[at].stable_id,
        );
    assert(entries[at] == entry_renamed(registered[at], trimmed[at]));
}

/// Schemas that list enum values are converted before the others.
pub proof fn law_enums_first<S>(keys: Seq<SchemaKey<S>>, i: int, j: int)
    requires
        0 <= i < conversion_order(keys).len(),
        0 <= j < conversion_order(keys).len(),
        lists_values(conversion_order(keys)[i]),
        !lists_values(conversion_order(keys)[j]),
    ensures
        i < j,
{
    broadcast use vstd::seq_lib::group_filter_ensures;

    let listing = keys.filter(|key: SchemaKey<S>| lists_values(key));
    if i >= listing.len() {
        let others = keys.filter(|key: SchemaKey<S>| !lists_values(key));
        assert(!lists_values(others[i - listing.len()]));
    }
    if j < listing.len() {
        assert(lists_values(listing[j]));
    }
}

/// Every schema is in the order of conversion as often as it is listed.
pub proof fn law_conversion_order_keeps_schemas<S>(keys: Seq<SchemaKey<S>>)
    ensures
        conversion_order(keys).to_multiset() == keys.to_multiset(),
    decreases keys.len(),
{
    broadcast use vstd::seq_lib::group_to_multiset_ensures;

    let lists = |key: SchemaKey<S>| lists_values(key);
    let other = |key: SchemaKey<S>| !lists_values(key);
    reveal(Seq::filter);
    if keys.len() > 0 {
        let rest = keys.drop_last();
        let last = keys.last();
        law_conversion_order_keeps_schemas(rest);
        assert(keys =~= rest.push(last));
        vstd::seq_lib::lemma_multiset_commutative(rest.filter(lists), rest.filter(other));
        vstd::seq_lib::lemma_multiset_commutative(keys.filter(lists), keys.filter(other));
        assert(conversion_order(keys).to_multiset() =~= keys.to_multiset());
    } else {
        assert(conversion_order(keys) =~= keys);
    }
}

/// How many warnings report that something was left out.
pub open spec fn skipped_count(warnings: Seq<GenerationWarningView>) -> nat {
    count_of(warnings, |warning: GenerationWarningView| warning.is_skipped_item())
}

/// Whether a schema was found under a name.
pub open spec fn is_found<S>(key: SchemaKey<S>) -> bool {
    key.schema is Some
}

proof fn lemma_skipped_push(
    warnings: Seq<GenerationWarningView>,
    warning: GenerationWarningView,
)
    ensures
        skipped_count(warnings.push(warning)) == skipped_count(warnings)
            + if warning.is_skipped_item() {
            1nat
        } else {
            0nat
        },
{
    reveal(Seq::filter);
    assert(warnings.push(warning).drop_last() =~= warnings);
}

proof fn lemma_skipped_specific<O>(
    warnings: Seq<GenerationWarningView>,
    info: OperationInfo<O>,
    count: int,
)
    requires
        0 <= count <= info.warnings@.len(),
    ensures
        skipped_count(warnings + operation_specific(info).take(count)) == skipped_count(warnings),
    decreases count,
{
    let specific = operation_specific(info);
    if count == 0 {
        assert(warnings + specific.take(0) =~= warnings);
    } else {
        lemma_skipped_specific(warnings, info, count - 1);
        assert(warnings + specific.take(count) =~= (warnings + specific.take(count - 1)).push(
            specific[count - 1],
        ));
        lemma_skipped_push(warnings + specific.take(count - 1), specific[count - 1]);
    }
}

/// Every registered operation is either converted or reported as left out.
pub proof fn law_operations_are_accounted_for<B: GeneratorBackend>(
    backend: B,
    entries: Seq<OperationEntry>,
    before: OperationProgress<B>,
    after: OperationProgress<B>,
)
    requires
        operations_converted(backend, entries, before, after),
    ensures
        (after.infos.len() - before.infos.len()) + (skipped_count(after.warnings) - skipped_count(
            before.warnings,
        )) == entries.len(),
    decreases entries.len(),
{
    if entries.len() > 0 {
        let middle = choose|middle: OperationProgress<B>|
            operations_converted(backend, entries.drop_last(), before, middle)
                && #[trigger] operation_converted(backend, entries.last(), middle, after);
        law_operations_are_accounted_for(backend, entries.drop_last(), before, middle);
        let (answer, outcome) = choose|
            answer: Result<ConvertedOperation<B::Definition, B::OperationDetail>, B::Error>,
            outcome: Result<ConvertedOperation<B::Definition, B::OperationDetail>, String>,
        | #[trigger]
            operation_outcome(backend, entries.last(), middle, after, answer, outcome);
        match outcome {
            Ok(converted) => {
                let info = converted.operation_info;
                let specific = operation_specific(info);
                lemma_skipped_specific(middle.warnings, info, info.warnings@.len() as int);
                assert(specific.take(specific.len() as int) =~= specific);
            },
            Err(error) => {
                lemma_skipped_push(
                    middle.warnings,
                    GenerationWarningView::OperationConversionFailed {
                        method: entries.last().method@,
                        path: entries.last().path@,
                        error: error@,
                    },
                );
            },
        }
    }
}

/// What was converted and warned of before stays, in front of what converting more operations
/// adds.
pub proof fn law_operation_results_grow<B: GeneratorBackend>(
    backend: B,
    entries: Seq<OperationEntry>,
    before: OperationProgress<B>,
    after: OperationProgress<B>,
)
    requires
        operations_converted(backend, entries, before, after),
    ensures
        before.types.is_prefix_of(after.types),
        before.infos.is_prefix_of(after.infos),
        before.warnings.is_prefix_of(after.warnings),
    decreases entries.len(),
{
    if entries.len() > 0 {
        let middle = choose|middle: OperationProgress<B>|
            operations_converted(backend, entries.drop_last(), before, middle)
                && #[trigger] operation_converted(backend, entries.last(), middle, after);
        law_operation_results_grow(backend, entries.drop_last(), before, middle);
        assert(middle.types.is_prefix_of(after.types));
        assert(middle.infos.is_prefix_of(after.infos));
        assert(middle.warnings.is_prefix_of(after.warnings));
    }
}

/// Converting schemas warns of nothing but schemas that it leaves out, at most once for each
/// schema that is found.
pub proof fn law_schema_warnings_are_skipped_schemas<B: GeneratorBackend>(
    backend: B,
    keys: Seq<SchemaKey<B::Schema>>,
    before: SchemaProgress<B>,
    after: SchemaProgress<B>,
)
    requires
        schemas_converted(backend, keys, before, after),
    ensures
        before.types.is_prefix_of(after.types),
        before.warnings.is_prefix_of(after.warnings),
        forall|i: int|
            before.warnings.len() <= i < after.warnings.len() ==> (
            #[trigger] after.warnings[i]) is SchemaConversionFailed,
        after.warnings.len() - before.warnings.len() <= count_of(
            keys,
            |key: SchemaKey<B::Schema>| is_found(key),
        ),
    decreases keys.len(),
{
    reveal(Seq::filter);
    if keys.len() > 0 {
        let middle = choose|middle: SchemaProgress<B>|
            schemas_converted(backend, keys.drop_last(), before, middle)
                && #[trigger] schema_converted(backend, keys.last(), middle, after);
        law_schema_warnings_are_skipped_schemas(backend, keys.drop_last(), before, middle);
        if is_found(keys.last()) {
            assert(middle.types.is_prefix_of(after.types));
            assert(middle.warnings.is_prefix_of(after.warnings));
        }
    }
}

/// Every generated type is a struct, an enum or a type alias, and is counted as one of them.
pub proof fn law_types_are_counted_once<D>(items: Seq<RustType<D>>)
    ensures
        count_of(items, |item: RustType<D>| is_struct(item)) + count_of(
            items,
            |item: RustType<D>| is_enum(item),
        ) + count_of(items, |item: RustType<D>| is_type_alias(item)) == items.len(),
        count_of(items, |item: RustType<D>| is_enum_with_helpers(item)) <= count_of(
            items,
            |item: RustType<D>| is_enum(item),
        ),
    decreases items.len(),
{
    reveal(Seq::filter);
    if items.len() > 0 {
        law_types_are_counted_once(items.drop_last());
    }
}

/// The counts in the statistics of a run agree with each other.
pub proof fn law_stats_agree<D, O>(
    stats: GenerationStats,
    rust_types: Seq<RustType<D>>,
    operations: Seq<OperationInfo<O>>,
    cycle_details: Vec<Vec<String>>,
    warnings: Seq<GenerationWarningView>,
    orphaned_schemas: nat,
)
    requires
        stats_describe(
            stats,
            rust_types,
            operations,
            cycle_details,
            warnings,
            orphaned_schemas,
        ),
    ensures
        stats.types_generated == stats.structs_generated + stats.enums_generated
            + stats.type_aliases_generated,
        stats.enums_with_helpers_generated <= stats.enums_generated,
        stats.webhooks_converted <= stats.operations_converted,
        stats.cycles_detected == stats.cycle_details@.len(),
{
    law_types_are_counted_once(rust_types);
    lemma_count_bounded(operations, |operation: OperationInfo<O>| is_webhook(operation));
}

/// Counting a client changes nothing else in the statistics.
pub proof fn law_client_counts_add_only_counts<O>(
    stats: GenerationStats,
    operations: Seq<OperationInfo<O>>,
    counted: GenerationStats,
)
    requires
        client_counted(stats, operations, counted),
    ensures
        counted.types_generated == stats.types_generated,
        counted.structs_generated == stats.structs_generated,
        counted.enums_generated == stats.enums_generated,
        counted.enums_with_helpers_generated == stats.enums_with_helpers_generated,
        counted.type_aliases_generated == stats.type_aliases_generated,
        counted.operations_converted == stats.operations_converted,
        counted.webhooks_converted == stats.webhooks_converted,
        counted.cycles_detected == stats.cycles_detected,
        counted.cycle_details == stats.cycle_details,
        counted.warnings == stats.warnings,
        counted.orphaned_schemas_count == stats.orphaned_schemas_count,
{
}

/// Where reachability is asked for, every schema is either reached or orphaned, unless more are
/// reached than there are.
pub proof fn law_schemas_reached_or_orphaned(total: nat, reached: nat)
    requires
        reached <= total,
    ensures
        orphaned_count(total, Some(reached)) + reached == total,
{
}

/// Parameters whose names differ in the case of ASCII letters alone stand for one header.
pub proof fn law_header_case_is_ignored(a: OperationParameter, b: OperationParameter)
    requires
        a.parameter_location == Some(ParameterLocation::Header),
        b.parameter_location == Some(ParameterLocation::Header),
        a.original_name matches Some(name) && b.original_name matches Some(other)
            && ascii_lowercase(name@) == ascii_lowercase(other@),
    ensures
        header_name(a) == header_name(b),
        header_name(a) is Some,
{
}

/// More operations never stand for fewer headers.
pub proof fn law_headers_grow<O>(
    operations: Seq<OperationInfo<O>>,
    more: Seq<OperationInfo<O>>,
)
    ensures
        header_names(operations).subset_of(header_names(operations + more)),
{
    assert forall|name: Seq<char>| header_names(operations).contains(name) implies header_names(
        operations + more,
    ).contains(name) by {
        let i = choose|i: int|
            0 <= i < operations.len() && names_header(
                (#[trigger] operations[i]).parameters@,
                name,
            );
        assert((operations + more)[i] == operations[i]);
    }
}

/// A run without registered operations converts none.
pub proof fn law_no_operations_none_converted<B: GeneratorBackend>(
    run: Orchestrator<B>,
    artifacts: GenerationArtifacts<B>,
)
    requires
        run.operation_registry@ == Seq::<OperationEntryView>::empty(),
        run.collects(artifacts),
    ensures
        artifacts.operations_info@.len() == 0,
        artifacts.stats.operations_converted == 0,
        artifacts.stats.webhooks_converted == 0,
{
    let trace = choose|trace| #[trigger] run.traces(trace) && trace.yields(artifacts);
    assert(run.operation_registry.entries().len() == run.operation_registry@.len());
    lemma_count_bounded(
        artifacts.operations_info@,
        |operation: OperationInfo<B::OperationDetail>| is_webhook(operation),
    );
}

/// No registered operation is lost in a run: those that are not converted are reported.
pub proof fn law_run_accounts_for_operations<B: GeneratorBackend>(
    run: Orchestrator<B>,
    artifacts: GenerationArtifacts<B>,
)
    requires
        run.collects(artifacts),
    ensures
        artifacts.stats.operations_converted + skipped_count(
            warning_views(artifacts.stats.warnings@),
        ) >= run.operation_registry@.len(),
{
    let trace = choose|trace| #[trigger] run.traces(trace) && trace.yields(artifacts);
    let skipped = |warning: GenerationWarningView| warning.is_skipped_item();
    let earlier = warning_views(trace.loaded.warnings@) + trace.schemas.warnings;
    let start: OperationProgress<B> = OperationProgress {
        context: trace.schemas.context,
        recorder: trace.recorder,
        types: Seq::empty(),
        infos: Seq::empty(),
        warnings: Seq::empty(),
    };
    law_operations_are_accounted_for(
        run.backend,
        run.operation_registry.entries(),
        start,
        trace.operations,
    );
    lemma_count_bounded(start.warnings, skipped);
    Seq::filter_distributes_over_add(earlier, trace.operations.warnings, skipped);
}

/// What is counted of a client is counted only once a client is generated.
pub proof fn law_client_is_not_counted_early<B: GeneratorBackend>(
    run: Orchestrator<B>,
    prepared: PreparedRun<B>,
)
    requires
        run.prepares(prepared),
    ensures
        prepared.stats.client_methods_generated is None,
        prepared.stats.client_headers_generated is None,
{
    let artifacts = choose|artifacts: GenerationArtifacts<B>| #[trigger]
        run.collects(artifacts) && artifacts.stats == prepared.stats;
    let trace = choose|trace| #[trigger] run.traces(trace) && trace.yields(artifacts);
}

/// A run that keeps unused schemas reports none as orphaned.
pub proof fn law_unused_schemas_are_not_orphaned<B: GeneratorBackend>(
    run: Orchestrator<B>,
    artifacts: GenerationArtifacts<B>,
)
    requires
        run.include_unused_schemas,
        run.collects(artifacts),
    ensures
        artifacts.stats.orphaned_schemas_count == 0,
{
    let trace = choose|trace| #[trigger] run.traces(trace) && trace.yields(artifacts);
}

} // verus!
