//! Registration of operations under ids.

use crate::ast::OperationKind;
use crate::document::{PathOperation, PathOperationView};
use crate::entry_map::{
    has_key, key_position, keys_distinct, lemma_key_position, lemma_pair_inserted,
    lemma_pair_swap_removed, map_contains_key, map_default, map_insert, map_into_values, map_keys,
    map_pairs, map_swap_remove, pair_inserted,
};
use crate::operation_filter::{OperationFilter, OperationFilterView};
use indexmap::IndexMap;
use oas3::spec::Operation;
use std::rc::Rc;
use vstd::prelude::*;

verus! {

/// An operation that is generated.
#[derive(Debug, Clone)]
pub struct OperationEntry {
    /// The id under which the operation is generated.
    pub stable_id: String,
    pub method: String,
    pub path: String,
    pub operation: Rc<Operation>,
    pub kind: OperationKind,
}

/// The content of an [`OperationEntry`].
pub struct OperationEntryView {
    pub stable_id: Seq<char>,
    pub method: Seq<char>,
    pub path: Seq<char>,
    pub operation: Operation,
    pub kind: OperationKind,
}

impl View for OperationEntry {
    type V = OperationEntryView;

    open spec fn view(&self) -> OperationEntryView {
        OperationEntryView {
            stable_id: self.stable_id@,
            method: self.method@,
            path: self.path@,
            operation: *self.operation,
            kind: self.kind,
        }
    }
}

/// Whether some entry has the given id.
pub open spec fn has_id(entries: Seq<OperationEntryView>, id: Seq<char>) -> bool {
    exists|i: int| 0 <= i < entries.len() && (#[trigger] entries[i]).stable_id == id
}

/// The ids of the entries.
pub open spec fn id_set(entries: Seq<OperationEntryView>) -> Set<Seq<char>> {
    Set::new(|id: Seq<char>| has_id(entries, id))
}

/// Where the entry with the given id stands.
pub open spec fn id_position(entries: Seq<OperationEntryView>, id: Seq<char>) -> int {
    choose|i: int| 0 <= i < entries.len() && (#[trigger] entries[i]).stable_id == id
}

/// Whether no two entries have the same id.
pub open spec fn ids_distinct(entries: Seq<OperationEntryView>) -> bool {
    forall|i: int, j: int|
        0 <= i < j < entries.len() ==> (#[trigger] entries[i]).stable_id != (
        #[trigger] entries[j]).stable_id
}

/// The ids of the entries, in order.
pub open spec fn entry_ids(entries: Seq<OperationEntryView>) -> Seq<Seq<char>> {
    entries.map_values(|entry: OperationEntryView| entry.stable_id)
}

/// The entries after a registration: an entry with a known id takes the place of the one that
/// has it, an entry with a new id comes last.
pub open spec fn entry_registered(
    entries: Seq<OperationEntryView>,
    entry: OperationEntryView,
) -> Seq<OperationEntryView> {
    if has_id(entries, entry.stable_id) {
        entries.update(id_position(entries, entry.stable_id), entry)
    } else {
        entries.push(entry)
    }
}

/// The entry under another id.
pub open spec fn entry_renamed(entry: OperationEntryView, id: Seq<char>) -> OperationEntryView {
    OperationEntryView { stable_id: id, ..entry }
}

/// The first `count` entries, each registered under the id that stands at its place in `ids`.
pub open spec fn entries_rekeyed(
    entries: Seq<OperationEntryView>,
    ids: Seq<Seq<char>>,
    count: nat,
) -> Seq<OperationEntryView>
    decreases count,
{
    if count == 0 {
        Seq::empty()
    } else {
        let last = count - 1;
        entry_registered(
            entries_rekeyed(entries, ids, last as nat),
            entry_renamed(entries[last], ids[last]),
        )
    }
}

/// The smaller of two lengths.
pub open spec fn shorter(a: nat, b: nat) -> nat {
    if a <= b {
        a
    } else {
        b
    }
}

/// The pairs in which a map holds entries under their ids.
spec fn paired(entries: Seq<OperationEntryView>) -> Seq<(Seq<char>, OperationEntryView)> {
    entries.map_values(|entry: OperationEntryView| (entry.stable_id, entry))
}

proof fn lemma_paired_inserted(entries: Seq<OperationEntryView>, entry: OperationEntryView)
    requires
        ids_distinct(entries),
    ensures
        has_key(paired(entries), entry.stable_id) == has_id(entries, entry.stable_id),
        pair_inserted(paired(entries), entry.stable_id, entry) == paired(
            entry_registered(entries, entry),
        ),
        ids_distinct(entry_registered(entries, entry)),
{
    let pairs = paired(entries);
    let id = entry.stable_id;
    assert(keys_distinct(pairs));
    lemma_pair_inserted(pairs, id, entry);
    lemma_paired_has_key(entries, id);
    if has_id(entries, id) {
        let at = id_position(entries, id);
        assert(entries[at].stable_id == id);
        assert(pairs[at].0 == id);
        lemma_key_position(pairs, at);
    }
    assert(pair_inserted(pairs, id, entry) =~= paired(entry_registered(entries, entry)));
    let after = entry_registered(entries, entry);
    assert forall|i: int, j: int| 0 <= i < j < after.len() implies (#[trigger] after[i]).stable_id
        != (#[trigger] after[j]).stable_id by {
        assert(paired(after)[i].0 != paired(after)[j].0);
    }
}

proof fn lemma_paired_has_key(entries: Seq<OperationEntryView>, id: Seq<char>)
    ensures
        has_key(paired(entries), id) == has_id(entries, id),
{
    let pairs = paired(entries);
    if has_key(pairs, id) {
        let at = key_position(pairs, id);
        assert(pairs[at].0 == id);
        assert(entries[at].stable_id == id);
    }
    if has_id(entries, id) {
        let at = id_position(entries, id);
        assert(entries[at].stable_id == id);
        assert(pairs[at].0 == id);
    }
}

/// How operations and the client are named.
pub trait OperationNaming {
    /// The id of an operation, before others are looked at.
    fn compute_stable_id(&self, method: &str, path: &str, operation_id: Option<&str>) -> String;

    /// An id made from `base_id` for an operation that is registered next, where `taken` are the
    /// ids of the others.
    fn ensure_unique_snake_case_id(&self, base_id: &str, taken: &TakenIds<'_>) -> String
        requires
            taken.wf(),
    ;

    /// Shorter ids for the operations that have the given ids, in the same order.
    fn trim_common_affixes(&self, ids: &Vec<String>) -> Vec<String>;

    /// The name of a Rust type that is named after the given text.
    fn to_rust_type_name(&self, name: &str) -> String;
}

/// An operation that a source offers for registration.
pub struct OfferView {
    pub path: Seq<char>,
    pub found: PathOperationView,
    pub kind: OperationKind,
}

impl OfferView {
    /// The entry under which the operation is registered with the given id.
    pub open spec fn entry(self, id: Seq<char>) -> OperationEntryView {
        OperationEntryView {
            stable_id: id,
            method: self.found.method,
            path: self.path,
            operation: self.found.operation,
            kind: self.kind,
        }
    }
}

/// Whether `compute_stable_id` gives the offered operation this id.
pub open spec fn stable_id_given<N: OperationNaming>(
    naming: N,
    offer: OfferView,
    id: Seq<char>,
) -> bool {
    exists|method: &str, path: &str, operation_id: Option<&str>, given: String|
        {
            &&& method@ == offer.found.method
            &&& path@ == offer.path
            &&& match operation_id {
                Some(text) => offer.found.operation_id == Some(text@),
                None => offer.found.operation_id is None,
            }
            &&& given@ == id
            &&& #[trigger] call_ensures(
                N::compute_stable_id,
                (&naming, method, path, operation_id),
                given,
            )
        }
}

/// Whether `ensure_unique_snake_case_id` makes this id from `base_id` where the ids `taken` are
/// those of others.
pub open spec fn unique_id_given<N: OperationNaming>(
    naming: N,
    base_id: Seq<char>,
    taken: Set<Seq<char>>,
    id: Seq<char>,
) -> bool {
    exists|base: &str, ids: TakenIds<'_>, given: String|
        {
            &&& base@ == base_id
            &&& ids.wf()
            &&& ids@ == taken
            &&& given@ == id
            &&& #[trigger] call_ensures(
                N::ensure_unique_snake_case_id,
                (&naming, base, &ids),
                given,
            )
        }
}

/// Whether `trim_common_affixes` makes `trimmed` from `ids`.
pub open spec fn ids_trimmed<N: OperationNaming>(
    naming: N,
    ids: Seq<Seq<char>>,
    trimmed: Seq<Seq<char>>,
) -> bool {
    exists|given: Vec<String>, made: Vec<String>|
        {
            &&& given@.map_values(|id: String| id@) == ids
            &&& made@.map_values(|id: String| id@) == trimmed
            &&& #[trigger] call_ensures(N::trim_common_affixes, (&naming, &given), made)
        }
}

/// Whether offering one operation turns the entries `before` into `after`: an operation whose
/// id the filter rejects changes nothing, another is registered under an id made unique.
pub open spec fn offer_ingested<N: OperationNaming>(
    naming: N,
    filter: OperationFilterView,
    offer: OfferView,
    before: Seq<OperationEntryView>,
    after: Seq<OperationEntryView>,
) -> bool {
    exists|base_id: Seq<char>| #[trigger]
        stable_id_given(naming, offer, base_id) && if filter.accepts(base_id) {
            exists|id: Seq<char>| #[trigger]
                unique_id_given(naming, base_id, id_set(before), id) && after == entry_registered(
                    before,
                    offer.entry(id),
                )
        } else {
            after == before
        }
}

/// Whether offering the operations in order turns the entries `before` into `after`.
pub open spec fn offers_ingested<N: OperationNaming>(
    naming: N,
    filter: OperationFilterView,
    offers: Seq<OfferView>,
    before: Seq<OperationEntryView>,
    after: Seq<OperationEntryView>,
) -> bool
    decreases offers.len(),
{
    if offers.len() == 0 {
        after == before
    } else {
        exists|middle: Seq<OperationEntryView>|
            offers_ingested(naming, filter, offers.drop_last(), before, middle)
                && #[trigger] offer_ingested(naming, filter, offers.last(), middle, after)
    }
}

/// Offering one more operation.
pub(crate) proof fn lemma_next_ingested<N: OperationNaming>(
    naming: N,
    filter: OperationFilterView,
    offers: Seq<OfferView>,
    at: int,
    before: Seq<OperationEntryView>,
    middle: Seq<OperationEntryView>,
    after: Seq<OperationEntryView>,
)
    requires
        0 <= at < offers.len(),
        offers_ingested(naming, filter, offers.take(at), before, middle),
        offer_ingested(naming, filter, offers[at], middle, after),
    ensures
        offers_ingested(naming, filter, offers.take(at + 1), before, after),
{
    let done = offers.take(at + 1);
    assert(done.drop_last() =~= offers.take(at));
    assert(done.last() == offers[at]);
}

/// Offering one list of operations after another is offering both lists together.
pub proof fn lemma_ingested_in_turn<N: OperationNaming>(
    naming: N,
    filter: OperationFilterView,
    first: Seq<OfferView>,
    second: Seq<OfferView>,
    before: Seq<OperationEntryView>,
    middle: Seq<OperationEntryView>,
    after: Seq<OperationEntryView>,
)
    requires
        offers_ingested(naming, filter, first, before, middle),
        offers_ingested(naming, filter, second, middle, after),
    ensures
        offers_ingested(naming, filter, first + second, before, after),
    decreases second.len(),
{
    if second.len() == 0 {
        assert(first + second =~= first);
    } else {
        let next = choose|next: Seq<OperationEntryView>|
            offers_ingested(naming, filter, second.drop_last(), middle, next)
                && #[trigger] offer_ingested(naming, filter, second.last(), next, after);
        lemma_ingested_in_turn(naming, filter, first, second.drop_last(), before, middle, next);
        assert((first + second).drop_last() =~= first + second.drop_last());
        assert((first + second).last() == second.last());
    }
}

/// Tells which ids are taken.
#[derive(Debug)]
pub struct TakenIds<'a> {
    context: &'a RegistrationContext,
}

impl View for TakenIds<'_> {
    type V = Set<Seq<char>>;

    closed spec fn view(&self) -> Set<Seq<char>> {
        id_set(self.context@)
    }
}

impl TakenIds<'_> {
    /// The ids are those of a valid context.
    pub closed spec fn wf(&self) -> bool {
        self.context.wf()
    }

    /// Whether the id is taken.
    pub fn contains(&self, id: &str) -> (found: bool)
        requires
            self.wf(),
        ensures
            found == self@.contains(id@),
    {
        self.context.contains_id(id)
    }
}

/// The operations registered so far, in the order in which their ids were first registered.
#[derive(Debug)]
pub struct RegistrationContext {
    entries: IndexMap<String, OperationEntry>,
}

impl View for RegistrationContext {
    type V = Seq<OperationEntryView>;

    closed spec fn view(&self) -> Seq<OperationEntryView> {
        map_pairs(self.entries).map_values(|pair: (Seq<char>, OperationEntryView)| pair.1)
    }
}

impl Default for RegistrationContext {
    /// A context without operations.
    fn default() -> (context: Self)
        ensures
            context.wf(),
            context@ == Seq::<OperationEntryView>::empty(),
    {
        let context = RegistrationContext { entries: map_default() };
        assert(map_pairs(context.entries) =~= paired(context@));
        assert(context@ =~= Seq::<OperationEntryView>::empty());
        context
    }
}

impl RegistrationContext {
    /// Every operation stands under its own id, and no two share one.
    pub closed spec fn wf(&self) -> bool {
        &&& map_pairs(self.entries) == paired(self@)
        &&& ids_distinct(self@)
    }

    /// Valid contexts hold no id twice.
    pub proof fn lemma_ids_distinct(&self)
        requires
            self.wf(),
        ensures
            ids_distinct(self@),
    {
    }

    /// Registers an operation under its id.
    pub fn register(&mut self, entry: OperationEntry)
        requires
            old(self).wf(),
        ensures
            final(self).wf(),
            final(self)@ == entry_registered(old(self)@, entry@),
    {
        proof {
            lemma_paired_inserted(self@, entry@);
        }
        let id = entry.stable_id.clone();
        map_insert(&mut self.entries, id, entry);
        assert(self@ =~= entry_registered(old(self)@, entry@));
    }

    /// Whether an operation is registered under the given id.
    pub fn contains_id(&self, id: &str) -> (found: bool)
        requires
            self.wf(),
        ensures
            found == has_id(self@, id@),
    {
        proof {
            lemma_paired_has_key(self@, id@);
        }
        map_contains_key(&self.entries, id)
    }

    /// The ids under which operations are registered, in order.
    pub fn ids(&self) -> (ids: Vec<String>)
        requires
            self.wf(),
        ensures
            ids@.map_values(|id: String| id@) == entry_ids(self@),
    {
        let ids = map_keys(&self.entries);
        assert(map_pairs(self.entries).map_values(
            |pair: (Seq<char>, OperationEntryView)| pair.0,
        ) =~= entry_ids(self@));
        ids
    }

    /// Registers every operation anew, under the id that stands at its place in
    /// `simplified_keys`; operations beyond the end of `simplified_keys` are dropped.
    pub fn rekey(&mut self, simplified_keys: Vec<String>)
        requires
            old(self).wf(),
        ensures
            final(self).wf(),
            final(self)@ == entries_rekeyed(
                old(self)@,
                simplified_keys@.map_values(|id: String| id@),
                shorter(old(self)@.len(), simplified_keys@.len()),
            ),
    {
        let original_keys = self.ids();
        let mut remapped = RegistrationContext::default();
        let ghost before = self@;
        let ghost ids = simplified_keys@.map_values(|id: String| id@);
        assert(original_keys@.map_values(|id: String| id@).len() == before.len());
        let mut i: usize = 0;
        while i < original_keys.len() && i < simplified_keys.len()
            invariant
                before == old(self)@,
                ids_distinct(before),
                original_keys@.map_values(|id: String| id@) == entry_ids(before),
                original_keys.len() == before.len(),
                ids == simplified_keys@.map_values(|id: String| id@),
                i <= original_keys.len(),
                i <= simplified_keys.len(),
                keys_distinct(map_pairs(self.entries)),
                forall|j: int| i <= j < before.len() ==> map_pairs(self.entries).contains(
                    (before[j].stable_id, #[trigger] before[j]),
                ),
                remapped.wf(),
                remapped@ == entries_rekeyed(before, ids, i as nat),
            decreases original_keys.len() - i,
        {
            let ghost pairs = map_pairs(self.entries);
            assert(original_keys@.map_values(|id: String| id@)[i as int]
                == before[i as int].stable_id);
            let removed = map_swap_remove(&mut self.entries, original_keys[i].as_str());
            proof {
                let id = before[i as int].stable_id;
                let at = choose|at: int|
                    0 <= at < pairs.len() && pairs[at] == (id, before[i as int]);
                assert(pairs.contains((id, before[i as int])));
                lemma_key_position(pairs, at);
                lemma_pair_swap_removed(pairs, id);
                assert forall|j: int| i + 1 <= j < before.len() implies map_pairs(
                    self.entries,
                ).contains((before[j].stable_id, #[trigger] before[j])) by {
                    assert(before[i as int].stable_id != before[j].stable_id);
                    assert(pairs.contains((before[j].stable_id, before[j])));
                }
            }
            if let Some(mut entry) = removed {
                assert(entry@ == before[i as int]);
                entry.stable_id = simplified_keys[i].clone();
                assert(ids[i as int] == simplified_keys[i as int]@);
                assert(entry@ == entry_renamed(before[i as int], ids[i as int]));
                remapped.register(entry);
            }
            i = i + 1;
        }
        assert(i as nat == shorter(before.len(), simplified_keys@.len()));
        self.entries = remapped.entries;
        assert(self@ == remapped@);
    }

    /// Registers every operation anew, under the id that `naming` trims its id to.
    pub fn simplify_keys<N: OperationNaming>(&mut self, naming: &N)
        requires
            old(self).wf(),
        ensures
            final(self).wf(),
            exists|trimmed: Seq<Seq<char>>| #[trigger]
                ids_trimmed(*naming, entry_ids(old(self)@), trimmed) && final(self)@
                    == entries_rekeyed(
                    old(self)@,
                    trimmed,
                    shorter(old(self)@.len(), trimmed.len()),
                ),
    {
        let original_keys = self.ids();
        let simplified_keys = naming.trim_common_affixes(&original_keys);
        let ghost trimmed = simplified_keys@.map_values(|id: String| id@);
        assert(call_ensures(N::trim_common_affixes, (naming, &original_keys), simplified_keys));
        assert(ids_trimmed(*naming, entry_ids(old(self)@), trimmed));
        self.rekey(simplified_keys);
    }

    /// Registers an offered operation, unless the filter rejects its id.
    pub(crate) fn ingest<N: OperationNaming>(
        &mut self,
        filter: &OperationFilter,
        naming: &N,
        path: String,
        found: PathOperation,
        kind: OperationKind,
    )
        requires
            old(self).wf(),
        ensures
            final(self).wf(),
            offer_ingested(
                *naming,
                filter@,
                (OfferView { path: path@, found: found@, kind }),
                old(self)@,
                final(self)@,
            ),
    {
        let ghost offer = OfferView { path: path@, found: found@, kind };
        let operation_id: Option<&str> = match &found.operation_id {
            Some(id) => Some(id.as_str()),
            None => None,
        };
        let method = found.method.as_str();
        let place = path.as_str();
        let base_id = naming.compute_stable_id(method, place, operation_id);
        assert(call_ensures(N::compute_stable_id, (naming, method, place, operation_id), base_id));
        assert(stable_id_given(*naming, offer, base_id@));
        let base = base_id.as_str();
        if !filter.accepts(base) {
            return;
        }
        let taken = TakenIds { context: &*self };
        let stable_id = naming.ensure_unique_snake_case_id(base, &taken);
        assert(call_ensures(N::ensure_unique_snake_case_id, (naming, base, &taken), stable_id));
        assert(unique_id_given(*naming, base_id@, id_set(self@), stable_id@));
        let entry = OperationEntry {
            stable_id,
            method: found.method,
            path,
            operation: found.operation,
            kind,
        };
        assert(entry@ == offer.entry(stable_id@));
        self.register(entry);
    }

    /// The registered operations, in order.
    pub fn into_entries(self) -> (entries: Vec<OperationEntry>)
        requires
            self.wf(),
        ensures
            entries@.map_values(|entry: OperationEntry| entry@) == self@,
    {
        map_into_values(self.entries)
    }
}

} // verus!
