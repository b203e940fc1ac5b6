//! The operations of a document that are generated, and the ids under which they are.

pub use crate::operation_filter::OperationFilter;
pub use crate::registration::OperationEntry;

use crate::operation_filter::OperationFilterView;
use crate::operation_source::{all_offers, OperationSource};
use crate::registration::{
    entries_rekeyed, entry_ids, ids_distinct, ids_trimmed, lemma_ingested_in_turn,
    offers_ingested, shorter, OfferView, OperationEntryView, OperationNaming,
    RegistrationContext,
};
use oas3::Spec;
use std::collections::HashSet;
use vstd::prelude::*;

verus! {

/// Whether `entries` are what is registered of the offered operations and then renamed.
pub open spec fn registry_built<N: OperationNaming>(
    naming: N,
    filter: OperationFilterView,
    offers: Seq<OfferView>,
    entries: Seq<OperationEntryView>,
) -> bool {
    exists|registered: Seq<OperationEntryView>, trimmed: Seq<Seq<char>>|
        {
            &&& #[trigger] offers_ingested(naming, filter, offers, Seq::empty(), registered)
            &&& #[trigger] ids_trimmed(naming, entry_ids(registered), trimmed)
            &&& entries == entries_rekeyed(
                registered,
                trimmed,
                shorter(registered.len(), trimmed.len()),
            )
        }
}

/// Collects the sources and the filter of a registry.
#[derive(Debug)]
pub struct OperationRegistryBuilder {
    sources: Vec<OperationSource>,
    filter: OperationFilter,
}

impl OperationRegistryBuilder {
    /// The sources, in the order in which they were added.
    pub closed spec fn sources(&self) -> Seq<OperationSource> {
        self.sources@
    }

    /// The filter.
    pub closed spec fn filter(&self) -> OperationFilterView {
        self.filter@
    }

    /// A builder without sources whose filter accepts every operation.
    pub fn new() -> (builder: Self)
        ensures
            builder.sources() == Seq::<OperationSource>::empty(),
            builder.filter().only is None,
            builder.filter().excluded is None,
    {
        OperationRegistryBuilder { sources: Vec::new(), filter: OperationFilter::default() }
    }

    /// The builder with another filter.
    pub fn with_filter(self, filter: OperationFilter) -> (builder: Self)
        ensures
            builder.sources() == self.sources(),
            builder.filter() == filter@,
    {
        OperationRegistryBuilder { sources: self.sources, filter }
    }

    /// The builder with one more source.
    pub fn with_source(self, source: OperationSource) -> (builder: Self)
        ensures
            builder.sources() == self.sources().push(source),
            builder.filter() == self.filter(),
    {
        let mut sources = self.sources;
        sources.push(source);
        OperationRegistryBuilder { sources, filter: self.filter }
    }

    /// Registers what the sources offer and the filter accepts, and trims the ids.
    pub fn build<N: OperationNaming>(self, naming: &N) -> (registry: OperationRegistry)
        ensures
            ids_distinct(registry@),
            registry_built(*naming, self.filter(), all_offers(self.sources()), registry@),
    {
        let mut context = RegistrationContext::default();
        let ghost sources = self.sources@;
        assert(sources.take(0) =~= Seq::empty());
        let mut i: usize = 0;
        while i < self.sources.len()
            invariant
                i <= self.sources.len(),
                sources == self.sources@,
                context.wf(),
                offers_ingested(
                    *naming,
                    self.filter@,
                    all_offers(sources.take(i as int)),
                    Seq::empty(),
                    context@,
                ),
            decreases self.sources.len() - i,
        {
            let ghost middle = context@;
            self.sources[i].ingest(&mut context, &self.filter, naming);
            proof {
                let done = sources.take(i + 1);
                assert(done.drop_last() =~= sources.take(i as int));
                lemma_ingested_in_turn(
                    *naming,
                    self.filter@,
                    all_offers(sources.take(i as int)),
                    sources[i as int].offers(),
                    Seq::empty(),
                    middle,
                    context@,
                );
            }
            i = i + 1;
        }
        assert(sources.take(sources.len() as int) =~= sources);
        context.simplify_keys(naming);
        proof {
            context.lemma_ids_distinct();
        }
        OperationRegistry { entries: context.into_entries() }
    }
}

/// The operations of a document that are generated.
#[derive(Debug)]
pub struct OperationRegistry {
    entries: Vec<OperationEntry>,
}

impl View for OperationRegistry {
    type V = Seq<OperationEntryView>;

    open spec fn view(&self) -> Seq<OperationEntryView> {
        self.entries().map_values(|entry: OperationEntry| entry@)
    }
}

impl OperationRegistry {
    /// The operations, in order.
    pub closed spec fn entries(&self) -> Seq<OperationEntry> {
        self.entries@
    }

    /// The registry of a document, unfiltered. See [`OperationRegistry::with_filters`].
    #[must_use]
    pub fn new<N: OperationNaming>(spec: &Spec, naming: &N) -> (registry: Self)
        ensures
            registry@ == Seq::<OperationEntryView>::empty(),
    {
        OperationRegistry::with_filters(spec, None, None, naming)
    }

    /// The registry of a document under the given filters. No source is attached to it: it has
    /// no operations, whatever the document holds.
    #[must_use]
    pub fn with_filters<N: OperationNaming>(
        _spec: &Spec,
        only_operations: Option<&HashSet<String>>,
        excluded_operations: Option<&HashSet<String>>,
        naming: &N,
    ) -> (registry: Self)
        ensures
            registry@ == Seq::<OperationEntryView>::empty(),
    {
        let registry = OperationRegistryBuilder::new()
            .with_filter(OperationFilter::new(only_operations, excluded_operations))
            .build(naming);
        assert(registry@ =~= Seq::<OperationEntryView>::empty());
        registry
    }

    /// The operations, in order.
    pub fn operations(&self) -> (operations: &[OperationEntry])
        ensures
            operations@ == self.entries(),
    {
        self.entries.as_slice()
    }

    /// The number of operations.
    #[must_use]
    pub fn len(&self) -> (len: usize)
        ensures
            len == self@.len(),
    {
        self.entries.len()
    }

    /// Whether there are no operations.
    #[must_use]
    pub fn is_empty(&self) -> (empty: bool)
        ensures
            empty == (self@.len() == 0),
    {
        self.entries.is_empty()
    }
}

} // verus!
