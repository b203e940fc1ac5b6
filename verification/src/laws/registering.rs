//! Which operations are registered, under which ids and in which order.

use crate::ast::OperationKind;
use crate::document::{PathOperation, PathOperationView};
use crate::id_set::ids_of;
use crate::operation_filter::{borrowed_ids, OperationFilterView};
use crate::operation_registry::{registry_built, OperationRegistry};
use crate::operation_source::{
    all_offers, all_webhook_offers, http_offers, webhook_offers, OperationSource,
};
use crate::registration::{
    entries_rekeyed, entry_ids, entry_registered, has_id, id_position, id_set, ids_distinct,
    ids_trimmed, offer_ingested, offers_ingested, shorter, stable_id_given, unique_id_given,
    OfferView, OperationEntry, OperationEntryView, OperationNaming, TakenIds,
};
use std::collections::HashSet;
use vstd::prelude::*;

verus! {

/// An entry, a found operation and a registry are known by all that they hold.
pub proof fn law_content(entry: OperationEntry, found: PathOperation, registry: OperationRegistry)
    ensures
        entry@.stable_id == entry.stable_id@,
        entry@.method == entry.method@,
        entry@.path == entry.path@,
        entry@.operation == *entry.operation,
        entry@.kind == entry.kind,
        found@.method == found.method@,
        found.operation_id matches Some(id) ==> found@.operation_id == Some(id@),
        found.operation_id is None ==> found@.operation_id is None,
        found@.operation == *found.operation,
        registry@.len() == registry.entries().len(),
        forall|i: int|
            0 <= i < registry@.len() ==> #[trigger] registry@[i] == registry.entries()[i]@,
{
}

/// Given sets of strings decide what a filter accepts: an id must stand in the first set, where
/// there is one, and must not stand in the second, where there is one.
pub proof fn law_filter_decides(
    only: Option<&HashSet<String>>,
    excluded: Option<&HashSet<String>>,
    filter: OperationFilterView,
    id: Seq<char>,
)
    requires
        filter.only == borrowed_ids(only),
        filter.excluded == borrowed_ids(excluded),
    ensures
        filter.accepts(id) <==> (only matches Some(set) ==> exists|text: String| #[trigger]
            set@.contains(text) && text@ == id) && (excluded matches Some(set)
            ==> !exists|text: String| #[trigger] set@.contains(text) && text@ == id),
{
    if let Some(set) = only {
        law_ids_of_a_set(*set, id);
    }
    if let Some(set) = excluded {
        law_ids_of_a_set(*set, id);
    }
}

/// The ids in a set are the texts of its strings.
pub proof fn law_ids_of_a_set(set: HashSet<String>, id: Seq<char>)
    ensures
        ids_of(set).contains(id) <==> exists|text: String| #[trigger]
            set@.contains(text) && text@ == id,
{
    if exists|text: String| #[trigger] set@.contains(text) && text@ == id {
        let text = choose|text: String| #[trigger] set@.contains(text) && text@ == id;
        let read = |text: String| text@;
        assert(read(text) == id);
        assert(set@.map(read).contains(id));
    }
}

/// An id is known exactly where some entry has it.
pub proof fn law_known_ids(entries: Seq<OperationEntryView>, id: Seq<char>)
    ensures
        has_id(entries, id) <==> exists|i: int|
            0 <= i < entries.len() && (#[trigger] entries[i]).stable_id == id,
        id_set(entries).contains(id) <==> exists|i: int|
            0 <= i < entries.len() && (#[trigger] entries[i]).stable_id == id,
{
}

/// Ids are listed in the order of the entries, and are distinct where no two entries share one.
pub proof fn law_listed_ids(entries: Seq<OperationEntryView>)
    ensures
        entry_ids(entries).len() == entries.len(),
        forall|i: int|
            0 <= i < entries.len() ==> #[trigger] entry_ids(entries)[i] == entries[i].stable_id,
        ids_distinct(entries) <==> forall|i: int, j: int|
            0 <= i < entries.len() && 0 <= j < entries.len() && i != j ==> (
            #[trigger] entries[i]).stable_id != (#[trigger] entries[j]).stable_id,
{
    if ids_distinct(entries) {
        assert forall|i: int, j: int|
            0 <= i < entries.len() && 0 <= j < entries.len() && i != j implies (
        #[trigger] entries[i]).stable_id != (#[trigger] entries[j]).stable_id by {
            if i < j {
                assert(entries[i].stable_id != entries[j].stable_id);
            } else {
                assert(entries[j].stable_id != entries[i].stable_id);
            }
        }
    }
}

/// An entry takes the place of the one that has its id, or comes last where none has it.
pub proof fn law_registration_in_place(
    entries: Seq<OperationEntryView>,
    entry: OperationEntryView,
    i: int,
)
    requires
        forall|a: int, b: int|
            0 <= a < b < entries.len() ==> (#[trigger] entries[a]).stable_id != (
            #[trigger] entries[b]).stable_id,
    ensures
        0 <= i < entries.len() && entries[i].stable_id == entry.stable_id ==> entry_registered(
            entries,
            entry,
        ) == entries.update(i, entry),
        (forall|a: int|
            0 <= a < entries.len() ==> (#[trigger] entries[a]).stable_id != entry.stable_id)
            ==> entry_registered(entries, entry) == entries.push(entry),
{
    if 0 <= i < entries.len() && entries[i].stable_id == entry.stable_id {
        let at = id_position(entries, entry.stable_id);
        assert(0 <= at < entries.len() && entries[at].stable_id == entry.stable_id);
        assert(at == i);
    }
}

/// The shorter of two lengths is one of them and exceeds neither.
pub proof fn law_shorter(a: nat, b: nat)
    ensures
        shorter(a, b) <= a,
        shorter(a, b) <= b,
        shorter(a, b) == a || shorter(a, b) == b,
{
}

/// Whether an entry is the operation at `j` under its new id, and no later operation is to have
/// that id.
pub open spec fn is_last_with_its_id(
    entries: Seq<OperationEntryView>,
    ids: Seq<Seq<char>>,
    count: nat,
    entry: OperationEntryView,
    j: int,
) -> bool {
    &&& 0 <= j < count
    &&& entry.stable_id == ids[j]
    &&& entry.method == entries[j].method
    &&& entry.path == entries[j].path
    &&& entry.operation == entries[j].operation
    &&& entry.kind == entries[j].kind
    &&& forall|l: int| j < l < count ==> #[trigger] ids[l] != ids[j]
}

/// Whether `a` stands at `j` among the first `count` ids, before `b` stands anywhere.
pub open spec fn stands_before(
    ids: Seq<Seq<char>>,
    count: nat,
    a: Seq<char>,
    b: Seq<char>,
    j: int,
) -> bool {
    &&& 0 <= j < count
    &&& ids[j] == a
    &&& forall|l: int| 0 <= l < count && #[trigger] ids[l] == b ==> j < l
}

/// Renaming gives an id to the last operation that is to have it, and changes nothing else of that
/// operation.
pub proof fn law_last_operation_gets_the_id(
    entries: Seq<OperationEntryView>,
    ids: Seq<Seq<char>>,
    count: nat,
    k: int,
)
    requires
        count <= entries.len(),
        count <= ids.len(),
        0 <= k < entries_rekeyed(entries, ids, count).len(),
    ensures
        exists|j: int| #[trigger]
            is_last_with_its_id(entries, ids, count, entries_rekeyed(entries, ids, count)[k], j),
    decreases count,
{
    let last = count - 1;
    let fewer = last as nat;
    let before = entries_rekeyed(entries, ids, fewer);
    let after = entries_rekeyed(entries, ids, count);
    super::law_rekeyed_ids_distinct(entries, ids, count);
    super::law_rekeyed_ids_distinct(entries, ids, fewer);
    let at = id_position(before, ids[last]);
    if has_id(before, ids[last]) {
        assert(0 <= at < before.len() && before[at].stable_id == ids[last]);
    }
    if after[k].stable_id == ids[last] {
        if k < before.len() {
            assert(after[k] == before[k] ==> before[k].stable_id == ids[last]);
            assert(k != at ==> before[k].stable_id != before[at].stable_id);
        }
        assert(is_last_with_its_id(entries, ids, count, after[k], last));
    } else {
        assert(after[k] == before[k]);
        law_last_operation_gets_the_id(entries, ids, fewer, k);
        let j = choose|j: int| #[trigger]
            is_last_with_its_id(entries, ids, fewer, before[k], j);
        assert(is_last_with_its_id(entries, ids, count, after[k], j));
    }
}

/// Renaming loses none of the new ids, and gives none twice.
pub proof fn law_every_new_id_is_given_once(
    entries: Seq<OperationEntryView>,
    ids: Seq<Seq<char>>,
    count: nat,
    j: int,
)
    requires
        count <= entries.len(),
        count <= ids.len(),
        0 <= j < count,
    ensures
        exists|k: int|
            {
                &&& 0 <= k < entries_rekeyed(entries, ids, count).len()
                &&& (#[trigger] entries_rekeyed(entries, ids, count)[k]).stable_id == ids[j]
                &&& forall|m: int|
                    0 <= m < entries_rekeyed(entries, ids, count).len() && m != k ==> (
                    #[trigger] entries_rekeyed(entries, ids, count)[m]).stable_id != ids[j]
            },
    decreases count,
{
    let last = count - 1;
    let fewer = last as nat;
    let before = entries_rekeyed(entries, ids, fewer);
    let after = entries_rekeyed(entries, ids, count);
    super::law_rekeyed_ids_distinct(entries, ids, count);
    let at = id_position(before, ids[last]);
    if has_id(before, ids[last]) {
        assert(0 <= at < before.len() && before[at].stable_id == ids[last]);
    }
    let k = if ids[j] == ids[last] {
        if has_id(before, ids[last]) {
            at
        } else {
            before.len() as int
        }
    } else {
        law_every_new_id_is_given_once(entries, ids, fewer, j);
        let found = choose|found: int|
            0 <= found < before.len() && (#[trigger] before[found]).stable_id == ids[j];
        assert(before[found].stable_id == ids[j]);
        assert(after[found] == before[found]);
        found
    };
    assert(after[k].stable_id == ids[j]);
    assert forall|m: int| 0 <= m < after.len() && m != k implies (#[trigger] after[m]).stable_id
        != ids[j] by {
        if m < k {
            assert(after[m].stable_id != after[k].stable_id);
        } else {
            assert(after[k].stable_id != after[m].stable_id);
        }
    }
}

/// After renaming, ids come in the order in which they first stand among the new ids.
pub proof fn law_new_ids_come_in_order(
    entries: Seq<OperationEntryView>,
    ids: Seq<Seq<char>>,
    count: nat,
    k: int,
    m: int,
)
    requires
        count <= entries.len(),
        count <= ids.len(),
        0 <= k < m < entries_rekeyed(entries, ids, count).len(),
    ensures
        exists|j: int| #[trigger]
            stands_before(
                ids,
                count,
                entries_rekeyed(entries, ids, count)[k].stable_id,
                entries_rekeyed(entries, ids, count)[m].stable_id,
                j,
            ),
    decreases count,
{
    let last = count - 1;
    let fewer = last as nat;
    let before = entries_rekeyed(entries, ids, fewer);
    let after = entries_rekeyed(entries, ids, count);
    super::law_rekeyed_ids_distinct(entries, ids, count);
    assert(after[k].stable_id != after[m].stable_id);
    let at = id_position(before, ids[last]);
    if has_id(before, ids[last]) {
        assert(0 <= at < before.len() && before[at].stable_id == ids[last]);
    }
    assert(after[k].stable_id == before[k].stable_id);
    if m < before.len() {
        assert(after[m].stable_id == before[m].stable_id);
        law_new_ids_come_in_order(entries, ids, fewer, k, m);
        let j = choose|j: int| #[trigger]
            stands_before(ids, fewer, before[k].stable_id, before[m].stable_id, j);
        assert(stands_before(ids, count, after[k].stable_id, after[m].stable_id, j));
    } else {
        law_last_operation_gets_the_id(entries, ids, fewer, k);
        let j = choose|j: int| #[trigger]
            is_last_with_its_id(entries, ids, fewer, before[k], j);
        assert forall|l: int| 0 <= l < count && #[trigger] ids[l]
            == after[m].stable_id implies j < l by {
            if l < last {
                law_every_new_id_is_given_once(entries, ids, fewer, l);
                let x = choose|x: int|
                    0 <= x < before.len() && (#[trigger] before[x]).stable_id == ids[l];
                assert(has_id(before, ids[last]));
            }
        }
        assert(stands_before(ids, count, after[k].stable_id, after[m].stable_id, j));
    }
}

/// What is offered under a document's paths: every operation, under its own path, as a request.
pub proof fn law_http_offers(operations: Seq<(Seq<char>, PathOperationView)>)
    ensures
        http_offers(operations).len() == operations.len(),
        forall|i: int|
            #![trigger http_offers(operations)[i]]
            0 <= i < operations.len() ==> {
                &&& http_offers(operations)[i].path == operations[i].0
                &&& http_offers(operations)[i].found == operations[i].1
                &&& http_offers(operations)[i].kind == OperationKind::Http
            },
{
}

/// A document without webhooks offers nothing under them; one webhook more offers each of its
/// operations after the others, under a path that is made of its name, as a webhook.
pub proof fn law_webhook_offers(
    webhooks: Seq<(Seq<char>, Seq<PathOperationView>)>,
    name: Seq<char>,
    operations: Seq<PathOperationView>,
)
    ensures
        all_webhook_offers(Seq::empty()).len() == 0,
        all_webhook_offers(webhooks.push((name, operations))) == all_webhook_offers(webhooks)
            + Seq::new(
            operations.len(),
            |i: int|
                OfferView {
                    path: "webhooks/"@ + name,
                    found: operations[i],
                    kind: OperationKind::Webhook,
                },
        ),
{
    assert(webhooks.push((name, operations)).drop_last() =~= webhooks);
    assert(webhook_offers((name, operations)) =~= Seq::new(
        operations.len(),
        |i: int|
            OfferView {
                path: "webhooks/"@ + name,
                found: operations[i],
                kind: OperationKind::Webhook,
            },
    ));
}

/// Sources offer their operations one source after another.
pub proof fn law_all_offers(sources: Seq<OperationSource>, source: OperationSource)
    ensures
        all_offers(Seq::empty()).len() == 0,
        source matches OperationSource::Http(http) ==> all_offers(sources.push(source))
            == all_offers(sources) + http.offers(),
        source matches OperationSource::Webhook(webhook) ==> all_offers(sources.push(source))
            == all_offers(sources) + webhook.offers(),
{
    assert(sources.push(source).drop_last() =~= sources);
}

/// The entry under which an offered operation is registered holds all of it.
pub proof fn law_offer_entry(offer: OfferView, id: Seq<char>)
    ensures
        offer.entry(id).stable_id == id,
        offer.entry(id).method == offer.found.method,
        offer.entry(id).path == offer.path,
        offer.entry(id).operation == offer.found.operation,
        offer.entry(id).kind == offer.kind,
{
}

/// Offering one operation asks the naming for an id, from the method, the path and the id that the
/// document gives; where the filter rejects that id nothing changes, and otherwise the naming is
/// asked for an id beside the ids of all entries, under which the operation is registered: in
/// place of the entry that has it, or last.
pub proof fn law_offering_one_operation<N: OperationNaming>(
    naming: N,
    filter: OperationFilterView,
    offer: OfferView,
    before: Seq<OperationEntryView>,
    after: Seq<OperationEntryView>,
)
    requires
        offer_ingested(naming, filter, offer, before, after),
        forall|a: int, b: int|
            0 <= a < b < before.len() ==> (#[trigger] before[a]).stable_id != (
            #[trigger] before[b]).stable_id,
    ensures
        exists|method: &str, path: &str, operation_id: Option<&str>, base_id: String|
            {
                &&& method@ == offer.found.method
                &&& path@ == offer.path
                &&& operation_id is Some <==> offer.found.operation_id is Some
                &&& operation_id matches Some(text) ==> offer.found.operation_id == Some(text@)
                &&& #[trigger] call_ensures(
                    N::compute_stable_id,
                    (&naming, method, path, operation_id),
                    base_id,
                )
                &&& (filter.only matches Some(only) && !only.contains(base_id@)) || (
                filter.excluded matches Some(excluded) && excluded.contains(base_id@))
                    ==> after == before
                &&& (filter.only matches Some(only) ==> only.contains(base_id@)) && (
                filter.excluded matches Some(excluded) ==> !excluded.contains(base_id@))
                    ==> exists|base: &str, taken: TakenIds<'_>, id: String|
                    {
                        &&& base@ == base_id@
                        &&& taken.wf()
                        &&& forall|text: Seq<char>| #[trigger]
                            taken@.contains(text) <==> exists|i: int|
                                0 <= i < before.len() && (#[trigger] before[i]).stable_id == text
                        &&& #[trigger] call_ensures(
                            N::ensure_unique_snake_case_id,
                            (&naming, base, &taken),
                            id,
                        )
                        &&& registered_as(before, after, offer, id@)
                    }
            },
{
    let base_text = choose|base_id: Seq<char>| #[trigger]
        stable_id_given(naming, offer, base_id) && if filter.accepts(base_id) {
            exists|id: Seq<char>| #[trigger]
                unique_id_given(naming, base_id, id_set(before), id) && after
                    == entry_registered(before, offer.entry(id))
        } else {
            after == before
        };
    let (method, path, operation_id, base_id) = choose|
        method: &str,
        path: &str,
        operation_id: Option<&str>,
        given: String,
    |
        {
            &&& method@ == offer.found.method
            &&& path@ == offer.path
            &&& match operation_id {
                Some(text) => offer.found.operation_id == Some(text@),
                None => offer.found.operation_id is None,
            }
            &&& given@ == base_text
            &&& #[trigger] call_ensures(
                N::compute_stable_id,
                (&naming, method, path, operation_id),
                given,
            )
        };
    assert(call_ensures(N::compute_stable_id, (&naming, method, path, operation_id), base_id));
    if filter.accepts(base_text) {
        let id_text = choose|id: Seq<char>| #[trigger]
            unique_id_given(naming, base_text, id_set(before), id) && after == entry_registered(
                before,
                offer.entry(id),
            );
        let (base, taken, id) = choose|base: &str, ids: TakenIds<'_>, given: String|
            {
                &&& base@ == base_text
                &&& ids.wf()
                &&& ids@ == id_set(before)
                &&& given@ == id_text
                &&& #[trigger] call_ensures(
                    N::ensure_unique_snake_case_id,
                    (&naming, base, &ids),
                    given,
                )
            };
        assert(call_ensures(N::ensure_unique_snake_case_id, (&naming, base, &taken), id));
        assert forall|text: Seq<char>| #[trigger] taken@.contains(text) <==> exists|i: int|
            0 <= i < before.len() && (#[trigger] before[i]).stable_id == text by {
            law_known_ids(before, text);
        }
        assert forall|i: int| 0 <= i < before.len() && (#[trigger] before[i]).stable_id
            == id@ implies after == before.update(i, offer.entry(id@)) by {
            law_registration_in_place(before, offer.entry(id@), i);
        }
        law_registration_in_place(before, offer.entry(id@), -1);
        assert(registered_as(before, after, offer, id@));
    }
}

/// Whether `after` are the entries `before` with the offered operation under the id, in place of
/// the entry that has it or last.
pub open spec fn registered_as(
    before: Seq<OperationEntryView>,
    after: Seq<OperationEntryView>,
    offer: OfferView,
    id: Seq<char>,
) -> bool {
    let entry = OperationEntryView {
        stable_id: id,
        method: offer.found.method,
        path: offer.path,
        operation: offer.found.operation,
        kind: offer.kind,
    };
    &&& forall|i: int|
        0 <= i < before.len() && (#[trigger] before[i]).stable_id == id ==> after == before.update(
            i,
            entry,
        )
    &&& (forall|i: int| 0 <= i < before.len() ==> (#[trigger] before[i]).stable_id != id)
        ==> after == before.push(entry)
}

/// Operations are offered one after another, in order, each of them once.
pub proof fn law_operations_are_offered_in_order<N: OperationNaming>(
    naming: N,
    filter: OperationFilterView,
    offers: Seq<OfferView>,
    before: Seq<OperationEntryView>,
    after: Seq<OperationEntryView>,
)
    requires
        offers_ingested(naming, filter, offers, before, after),
    ensures
        exists|states: Seq<Seq<OperationEntryView>>|
            {
                &&& states.len() == offers.len() + 1
                &&& states[0] == before
                &&& #[trigger] states.last() == after
                &&& forall|i: int|
                    0 <= i < offers.len() ==> #[trigger] offer_ingested(
                        naming,
                        filter,
                        offers[i],
                        states[i],
                        states[i + 1],
                    )
            },
    decreases offers.len(),
{
    if offers.len() == 0 {
        let states = seq![before];
        assert(states.last() == after);
    } else {
        let rest = offers.drop_last();
        let middle = choose|middle: Seq<OperationEntryView>|
            offers_ingested(naming, filter, rest, before, middle) && #[trigger] offer_ingested(
                naming,
                filter,
                offers.last(),
                middle,
                after,
            );
        law_operations_are_offered_in_order(naming, filter, rest, before, middle);
        let earlier = choose|states: Seq<Seq<OperationEntryView>>|
            {
                &&& states.len() == rest.len() + 1
                &&& states[0] == before
                &&& #[trigger] states.last() == middle
                &&& forall|i: int|
                    0 <= i < rest.len() ==> #[trigger] offer_ingested(
                        naming,
                        filter,
                        rest[i],
                        states[i],
                        states[i + 1],
                    )
            };
        let states = earlier.push(after);
        assert(states.last() == after);
        assert forall|i: int| 0 <= i < offers.len() implies #[trigger] offer_ingested(
            naming,
            filter,
            offers[i],
            states[i],
            states[i + 1],
        ) by {
            if i < rest.len() {
                assert(offer_ingested(naming, filter, rest[i], earlier[i], earlier[i + 1]));
            }
        }
    }
}

/// A registry holds what is registered of the offered operations from nothing on, renamed, from
/// the first on, to the ids that the naming makes of all their ids; operations for which it makes
/// none are dropped.
pub proof fn law_registry_is_trimmed<N: OperationNaming>(
    naming: N,
    filter: OperationFilterView,
    offers: Seq<OfferView>,
    entries: Seq<OperationEntryView>,
)
    requires
        registry_built(naming, filter, offers, entries),
    ensures
        exists|registered: Seq<OperationEntryView>, given: Vec<String>, made: Vec<String>|
            {
                &&& #[trigger] offers_ingested(naming, filter, offers, Seq::empty(), registered)
                &&& given@.len() == registered.len()
                &&& forall|i: int|
                    0 <= i < registered.len() ==> (#[trigger] given@[i])@
                        == registered[i].stable_id
                &&& #[trigger] call_ensures(N::trim_common_affixes, (&naming, &given), made)
                &&& entries == entries_rekeyed(
                    registered,
                    Seq::new(made@.len(), |i: int| made@[i]@),
                    if registered.len() <= made@.len() {
                        registered.len()
                    } else {
                        made@.len()
                    },
                )
            },
{
    let (registered, trimmed) = choose|
        registered: Seq<OperationEntryView>,
        trimmed: Seq<Seq<char>>,
    |
        {
            &&& #[trigger] offers_ingested(naming, filter, offers, Seq::empty(), registered)
            &&& #[trigger] ids_trimmed(naming, entry_ids(registered), trimmed)
            &&& entries == entries_rekeyed(
                registered,
                trimmed,
                shorter(registered.len(), trimmed.len()),
            )
        };
    let (given, made) = choose|given: Vec<String>, made: Vec<String>|
        {
            &&& given@.map_values(|id: String| id@) == entry_ids(registered)
            &&& made@.map_values(|id: String| id@) == trimmed
            &&& #[trigger] call_ensures(N::trim_common_affixes, (&naming, &given), made)
        };
    assert(given@.map_values(|id: String| id@).len() == given@.len());
    assert forall|i: int| 0 <= i < registered.len() implies (#[trigger] given@[i])@
        == registered[i].stable_id by {
        assert(given@.map_values(|id: String| id@)[i] == given@[i]@);
    }
    assert(trimmed =~= Seq::new(made@.len(), |i: int| made@[i]@));
    assert(call_ensures(N::trim_common_affixes, (&naming, &given), made));
}

} // verus!
