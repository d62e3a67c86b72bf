//! Laws of the HTTP interface: how what is served relates to what is stored,
//! and the routes to each other.

use crate::api::Reply;
use crate::catalog::{CatalogView, DataServiceView, DatasetView};
use crate::dsp::{DspCatalogView, DspDataset};
use crate::memory::InMemoryCatalogCache;
use crate::store::CatalogCache;
use vstd::prelude::*;

verus! {

/// Once the sample catalog has been seeded, asking for its node serves
/// exactly it.
pub proof fn seeded_sample_is_served(
    graphs: Map<Seq<char>, CatalogView>,
    in_order: spec_fn(Seq<CatalogView>) -> bool,
    found: Seq<CatalogView>,
)
    requires
        crate::store::answers(
            found,
            graphs.insert(crate::api::sample().origin_node, crate::api::sample()),
            crate::api::requested(Some(crate::api::sample().origin_node)),
            in_order,
        ),
    ensures
        found == seq![crate::api::sample()],
{
    crate::properties::cache::stored_catalog_is_found(
        graphs,
        crate::api::sample(),
        in_order,
        found,
    );
}

/// A dataset is in the flattened view exactly if some listed catalog
/// advertises it.
pub proof fn flattened_datasets_are_advertised(listing: Seq<CatalogView>, dataset: DatasetView)
    ensures
        crate::api::all_datasets(listing).contains(dataset) <==> exists|i: int|
            0 <= i < listing.len() && (#[trigger] listing[i]).datasets.contains(dataset),
    decreases listing.len(),
{
    if listing.len() > 0 {
        let shorter = listing.drop_last();
        let before = crate::api::all_datasets(shorter);
        let last = listing.last().datasets;
        let all = crate::api::all_datasets(listing);
        flattened_datasets_are_advertised(shorter, dataset);
        if all.contains(dataset) {
            let k = choose|k: int| 0 <= k < all.len() && all[k] == dataset;
            if k < before.len() {
                assert(before[k] == dataset);
                let i = choose|i: int|
                    0 <= i < shorter.len() && (#[trigger] shorter[i]).datasets.contains(dataset);
                assert(listing[i].datasets.contains(dataset));
            } else {
                assert(last[k - before.len()] == dataset);
                assert(listing[listing.len() - 1].datasets.contains(dataset));
            }
        }
        if exists|i: int|
            0 <= i < listing.len() && (#[trigger] listing[i]).datasets.contains(dataset) {
            let i = choose|i: int|
                0 <= i < listing.len() && (#[trigger] listing[i]).datasets.contains(dataset);
            if i < shorter.len() {
                assert(shorter[i].datasets.contains(dataset));
                let k = choose|k: int| 0 <= k < before.len() && before[k] == dataset;
                assert(all[k] == dataset);
            } else {
                let k = choose|k: int| 0 <= k < last.len() && last[k] == dataset;
                assert(all[before.len() + k] == dataset);
            }
        }
    }
}

/// A data service is in the flattened view exactly if some listed catalog
/// advertises it.
pub proof fn flattened_services_are_advertised(
    listing: Seq<CatalogView>,
    service: DataServiceView,
)
    ensures
        crate::api::all_data_services(listing).contains(service) <==> exists|i: int|
            0 <= i < listing.len() && (#[trigger] listing[i]).data_services.contains(service),
    decreases listing.len(),
{
    if listing.len() > 0 {
        let shorter = listing.drop_last();
        let before = crate::api::all_data_services(shorter);
        let last = listing.last().data_services;
        let all = crate::api::all_data_services(listing);
        flattened_services_are_advertised(shorter, service);
        if all.contains(service) {
            let k = choose|k: int| 0 <= k < all.len() && all[k] == service;
            if k < before.len() {
                assert(before[k] == service);
                let i = choose|i: int|
                    0 <= i < shorter.len() && (#[trigger] shorter[i]).data_services.contains(
                        service,
                    );
                assert(listing[i].data_services.contains(service));
            } else {
                assert(last[k - before.len()] == service);
                assert(listing[listing.len() - 1].data_services.contains(service));
            }
        }
        if exists|i: int|
            0 <= i < listing.len() && (#[trigger] listing[i]).data_services.contains(service) {
            let i = choose|i: int|
                0 <= i < listing.len() && (#[trigger] listing[i]).data_services.contains(service);
            if i < shorter.len() {
                assert(shorter[i].data_services.contains(service));
                let k = choose|k: int| 0 <= k < before.len() && before[k] == service;
                assert(all[k] == service);
            } else {
                let k = choose|k: int| 0 <= k < last.len() && last[k] == service;
                assert(all[before.len() + k] == service);
            }
        }
    }
}

/// An empty cache is served as a catalog document without datasets and
/// services, and no dataset is found in it.
pub proof fn empty_cache_is_served_empty(
    listing: Seq<CatalogView>,
    document: DspCatalogView,
    reply: Reply<DspDataset>,
    id: Seq<char>,
)
    requires
        crate::store::lists(listing, Map::empty(), None),
        crate::api::federated_catalog(
            document,
            crate::api::all_datasets(listing),
            crate::api::all_data_services(listing),
        ),
        crate::api::serves_dataset(reply, crate::api::all_datasets(listing), id),
    ensures
        document.dataset.len() == 0,
        document.service.len() == 0,
        reply is NotFound,
{
    if listing.len() > 0 {
        assert(listing.contains(listing[0]));
    }
}

/// Every dataset of the flattened view is served, in order, under exactly one
/// offer, which permits use; only the root of the document is framed.
pub proof fn every_dataset_is_offered(
    document: DspCatalogView,
    datasets: Seq<DatasetView>,
    services: Seq<DataServiceView>,
)
    requires
        crate::api::federated_catalog(document, datasets, services),
    ensures
        document.context == seq![crate::dsp::DSP_CONTEXT_URL@],
        document.participant_id == crate::dsp::CONNECTOR_PARTICIPANT_ID@,
        document.dataset.len() == datasets.len(),
        forall|i: int|
            0 <= i < datasets.len() ==> {
                &&& (#[trigger] document.dataset[i]).id == datasets[i].id
                &&& document.dataset[i].context is None
                &&& document.dataset[i].has_policy.len() == 1
                &&& document.dataset[i].has_policy[0] == crate::dsp::use_offer(
                    document.dataset[i].has_policy[0].id,
                )
            },
        document.service.len() == services.len(),
        forall|i: int|
            0 <= i < services.len() ==> (#[trigger] document.service[i]).id == services[i].id
                && document.service[i].endpoint_url == services[i].endpoint_url,
{
}

/// Where the first dataset with an id stands.
proof fn lemma_first_dataset(datasets: Seq<DatasetView>, id: Seq<char>)
    ensures
        match crate::api::first_dataset(datasets, id) {
            Some(dataset) => exists|i: int|
                {
                    &&& 0 <= i < datasets.len()
                    &&& #[trigger] datasets[i] == dataset
                    &&& dataset.id == id
                    &&& forall|j: int| 0 <= j < i ==> (#[trigger] datasets[j]).id != id
                },
            None => forall|i: int| 0 <= i < datasets.len() ==> (#[trigger] datasets[i]).id != id,
        },
    decreases datasets.len(),
{
    if datasets.len() > 0 && datasets[0].id != id {
        let rest = datasets.skip(1);
        lemma_first_dataset(rest, id);
        match crate::api::first_dataset(rest, id) {
            Some(dataset) => {
                let i = choose|i: int|
                    {
                        &&& 0 <= i < rest.len()
                        &&& #[trigger] rest[i] == dataset
                        &&& dataset.id == id
                        &&& forall|j: int| 0 <= j < i ==> (#[trigger] rest[j]).id != id
                    };
                assert forall|j: int| 0 <= j < i + 1 implies (#[trigger] datasets[j]).id != id by {
                    if j > 0 {
                        assert(rest[j - 1] == datasets[j]);
                    }
                }
                assert(datasets[i + 1] == dataset);
            },
            None => {
                assert forall|i: int| 0 <= i < datasets.len() implies (
                #[trigger] datasets[i]).id != id by {
                    if i > 0 {
                        assert(rest[i - 1] == datasets[i]);
                    }
                }
            },
        }
    } else if datasets.len() > 0 {
        assert(datasets[0].id == id);
    }
}

/// The two DSP routes agree on one flattened view: a dataset is found under
/// an id exactly if the catalog document lists it, and what is served then is
/// the first entry with that id, framed as a document, under an offer of its
/// own.
pub proof fn lookup_agrees_with_catalog(
    datasets: Seq<DatasetView>,
    services: Seq<DataServiceView>,
    document: DspCatalogView,
    reply: Reply<DspDataset>,
    id: Seq<char>,
)
    requires
        crate::api::federated_catalog(document, datasets, services),
        crate::api::serves_dataset(reply, datasets, id),
    ensures
        reply is Success <==> exists|i: int|
            0 <= i < document.dataset.len() && (#[trigger] document.dataset[i]).id == id,
        reply is NotFound <==> !(reply is Success),
        reply matches Reply::Success(body) ==> exists|i: int|
            {
                &&& 0 <= i < document.dataset.len()
                &&& (#[trigger] document.dataset[i]).id == id
                &&& forall|j: int| 0 <= j < i ==> (#[trigger] document.dataset[j]).id != id
                &&& body@.context == Some(seq![crate::dsp::DSP_CONTEXT_URL@])
                &&& body@.id == id
                &&& body@.ld_type == document.dataset[i].ld_type
                &&& body@.distribution == document.dataset[i].distribution
                &&& body@.has_policy == seq![crate::dsp::use_offer(body@.has_policy[0].id)]
            },
{
    every_dataset_is_offered(document, datasets, services);
    lemma_first_dataset(datasets, id);
    match crate::api::first_dataset(datasets, id) {
        Some(dataset) => {
            let i = choose|i: int|
                {
                    &&& 0 <= i < datasets.len()
                    &&& #[trigger] datasets[i] == dataset
                    &&& dataset.id == id
                    &&& forall|j: int| 0 <= j < i ==> (#[trigger] datasets[j]).id != id
                };
            assert(document.dataset[i].id == id);
            assert forall|j: int| 0 <= j < i implies (#[trigger] document.dataset[j]).id
                != id by {
                assert(datasets[j].id != id);
            }
        },
        None => {
            assert forall|i: int| 0 <= i < document.dataset.len() implies (
            #[trigger] document.dataset[i]).id != id by {
                assert(datasets[i].id != id);
            }
        },
    }
}

/// Both DSP routes over one in-memory cache read the same flattened view.
pub proof fn routes_read_one_view(
    cache: InMemoryCatalogCache,
    first: Seq<CatalogView>,
    second: Seq<CatalogView>,
)
    requires
        crate::api::whole_listing(cache, first),
        crate::api::whole_listing(cache, second),
    ensures
        crate::api::all_datasets(first) == crate::api::all_datasets(second),
        crate::api::all_data_services(first) == crate::api::all_data_services(second),
{
    crate::properties::cache::memory_listings_are_unique(cache.graphs(), None, first, second);
}

} // verus!
