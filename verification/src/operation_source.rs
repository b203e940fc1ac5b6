//! The parts of a document that offer operations for registration.

use crate::ast::OperationKind;
use crate::document::{
    item_operations, path_item_methods, path_operations, spec_operations, spec_webhooks,
    webhook_items, PathOperation, PathOperationView,
};
use crate::operation_filter::OperationFilter;
use crate::registration::{
    lemma_next_ingested, offers_ingested, OfferView, OperationNaming, RegistrationContext,
};
use oas3::spec::PathItem;
use oas3::Spec;
use std::rc::Rc;
use vstd::prelude::*;

verus! {

/// What a document offers under its paths.
pub open spec fn http_offers(operations: Seq<(Seq<char>, PathOperationView)>) -> Seq<OfferView> {
    operations.map_values(
        |operation: (Seq<char>, PathOperationView)|
            OfferView { path: operation.0, found: operation.1, kind: OperationKind::Http },
    )
}

/// The path under which the operations of a webhook are registered.
pub open spec fn webhook_path(name: Seq<char>) -> Seq<char> {
    "webhooks/"@ + name
}

/// What a document offers under one webhook.
pub open spec fn webhook_offers(webhook: (Seq<char>, Seq<PathOperationView>)) -> Seq<OfferView> {
    webhook.1.map_values(
        |found: PathOperationView|
            OfferView { path: webhook_path(webhook.0), found, kind: OperationKind::Webhook },
    )
}

/// What a document offers under its webhooks, one webhook after another.
pub open spec fn all_webhook_offers(
    webhooks: Seq<(Seq<char>, Seq<PathOperationView>)>,
) -> Seq<OfferView>
    decreases webhooks.len(),
{
    if webhooks.len() == 0 {
        Seq::empty()
    } else {
        all_webhook_offers(webhooks.drop_last()) + webhook_offers(webhooks.last())
    }
}

/// Offers the operations under a document's paths.
#[derive(Debug)]
pub struct HttpOperationSource {
    spec: Rc<Spec>,
}

impl HttpOperationSource {
    /// The operations that are offered, in order.
    pub closed spec fn offers(&self) -> Seq<OfferView> {
        http_offers(path_operations(*self.spec))
    }

    /// A source over a copy of the document.
    pub fn new(spec: &Spec) -> (source: Self)
        ensures
            source.offers() == http_offers(path_operations(*spec)),
    {
        HttpOperationSource { spec: Rc::new(spec.clone()) }
    }

    /// Offers the operations in order.
    pub fn ingest<N: OperationNaming>(
        &self,
        context: &mut RegistrationContext,
        filter: &OperationFilter,
        naming: &N,
    )
        requires
            old(context).wf(),
        ensures
            final(context).wf(),
            offers_ingested(*naming, filter@, self.offers(), old(context)@, final(context)@),
    {
        let operations = spec_operations(&self.spec);
        let ghost offers = self.offers();
        let ghost found = operations@;
        assert(found.map_values(|o: (String, PathOperation)| (o.0@, o.1@)) == path_operations(
            *self.spec,
        ));
        assert(offers.len() == found.len());
        for operation in walk: operations
            invariant
                context.wf(),
                walk.seq() == found,
                offers.len() == found.len(),
                offers == http_offers(found.map_values(|o: (String, PathOperation)| (o.0@, o.1@))),
                offers_ingested(
                    *naming,
                    filter@,
                    offers.take(walk.index()),
                    old(context)@,
                    context@,
                ),
        {
            let ghost at = walk.index();
            let ghost middle = context@;
            let (path, found_operation) = operation;
            context.ingest(filter, naming, path, found_operation, OperationKind::Http);
            proof {
                assert(offers[at] == OfferView {
                    path: path@,
                    found: found_operation@,
                    kind: OperationKind::Http,
                });
                lemma_next_ingested(*naming, filter@, offers, at, old(context)@, middle, context@);
            }
        }
        assert(offers.take(offers.len() as int) =~= offers);
    }
}

/// Offers the operations under a document's webhooks.
#[derive(Debug)]
pub struct WebhookOperationSource {
    spec: Rc<Spec>,
}

impl WebhookOperationSource {
    /// The operations that are offered, in order.
    pub closed spec fn offers(&self) -> Seq<OfferView> {
        all_webhook_offers(self.items())
    }

    spec fn items(&self) -> Seq<(Seq<char>, Seq<PathOperationView>)> {
        webhook_items(*self.spec)
    }

    /// A source over a copy of the document.
    pub fn new(spec: &Spec) -> (source: Self)
        ensures
            source.offers() == all_webhook_offers(webhook_items(*spec)),
    {
        WebhookOperationSource { spec: Rc::new(spec.clone()) }
    }

    /// Offers the operations in order, webhook by webhook.
    pub fn ingest<N: OperationNaming>(
        &self,
        context: &mut RegistrationContext,
        filter: &OperationFilter,
        naming: &N,
    )
        requires
            old(context).wf(),
        ensures
            final(context).wf(),
            offers_ingested(*naming, filter@, self.offers(), old(context)@, final(context)@),
    {
        let webhooks = spec_webhooks(&self.spec);
        let ghost items = self.items();
        let ghost listed = webhooks@;
        assert(listed.map_values(|w: (String, PathItem)| (w.0@, item_operations(w.1))) == items);
        assert(listed.len() == items.len());
        assert(items.take(0) =~= Seq::empty());
        for webhook in walk: webhooks
            invariant
                context.wf(),
                walk.seq() == listed,
                listed.len() == items.len(),
                items == listed.map_values(|w: (String, PathItem)| (w.0@, item_operations(w.1))),
                offers_ingested(
                    *naming,
                    filter@,
                    all_webhook_offers(items.take(walk.index())),
                    old(context)@,
                    context@,
                ),
        {
            let ghost at = walk.index();
            let (name, item) = webhook;
            let ghost earlier = all_webhook_offers(items.take(at));
            let ghost offers = webhook_offers(items[at]);
            let operations = path_item_methods(&item);
            let ghost found = operations@;
            assert(items[at] == (name@, item_operations(item)));
            assert(found.map_values(|o: PathOperation| o@) == items[at].1);
            assert(offers.len() == found.len());
            assert((earlier + offers).take(earlier.len() as int) =~= earlier);
            for operation in inner: operations
                invariant
                    context.wf(),
                    inner.seq() == found,
                    offers.len() == found.len(),
                    offers == webhook_offers((name@, found.map_values(|o: PathOperation| o@))),
                    offers_ingested(
                        *naming,
                        filter@,
                        (earlier + offers).take(earlier.len() + inner.index()),
                        old(context)@,
                        context@,
                    ),
            {
                let ghost middle = context@;
                let ghost position = inner.index();
                let mut display_path = "webhooks/".to_owned();
                display_path.append(name.as_str());
                context.ingest(filter, naming, display_path, operation, OperationKind::Webhook);
                proof {
                    assert((earlier + offers)[earlier.len() + position] == offers[position]);
                    assert(offers[position] == OfferView {
                        path: display_path@,
                        found: operation@,
                        kind: OperationKind::Webhook,
                    });
                    lemma_next_ingested(
                        *naming,
                        filter@,
                        earlier + offers,
                        earlier.len() + position,
                        old(context)@,
                        middle,
                        context@,
                    );
                }
            }
            proof {
                assert((earlier + offers).take((earlier + offers).len() as int) =~= earlier
                    + offers);
                let done = items.take(at + 1);
                assert(done.drop_last() =~= items.take(at));
                assert(done.last() == items[at]);
            }
        }
        assert(items.take(items.len() as int) =~= items);
    }
}

/// A part of a document that offers operations for registration.
#[derive(Debug)]
pub enum OperationSource {
    Http(HttpOperationSource),
    Webhook(WebhookOperationSource),
}

impl OperationSource {
    /// The operations that are offered, in order.
    pub open spec fn offers(&self) -> Seq<OfferView> {
        match self {
            OperationSource::Http(source) => source.offers(),
            OperationSource::Webhook(source) => source.offers(),
        }
    }

    /// Offers the operations in order.
    pub fn ingest<N: OperationNaming>(
        &self,
        context: &mut RegistrationContext,
        filter: &OperationFilter,
        naming: &N,
    )
        requires
            old(context).wf(),
        ensures
            final(context).wf(),
            offers_ingested(*naming, filter@, self.offers(), old(context)@, final(context)@),
    {
        match self {
            OperationSource::Http(source) => source.ingest(context, filter, naming),
            OperationSource::Webhook(source) => source.ingest(context, filter, naming),
        }
    }
}

/// What the sources offer, one source after another.
pub open spec fn all_offers(sources: Seq<OperationSource>) -> Seq<OfferView>
    decreases sources.len(),
{
    if sources.len() == 0 {
        Seq::empty()
    } else {
        all_offers(sources.drop_last()) + sources.last().offers()
    }
}

} // verus!
