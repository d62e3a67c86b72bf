//! Laws of the documents that are served, stated field by field on the
//! documents and on the catalogs they are made of.

use crate::api::{
    catalog_reply, dataset_reply, find_dataset, flatten, flatten_found, health, list_reply,
    report, sample_catalog, CatalogListResponse, HealthResponse, Reply,
};
use crate::catalog::{Catalog, DataService, Dataset, Distribution, NodeId};
use crate::dsp::{
    data_services_to_dsp, datasets_to_dsp, dspace_version, placeholder_offer, DspCatalog,
    DspCatalogError, DspDataService, DspDataset, DspDistribution, DspOffer, DspaceVersionResponse,
};
use crate::store::{StoreError, StoreResult};
use vstd::prelude::*;

verus! {

/// Whether an optional text is the same in both places.
pub open spec fn same_option(a: Option<String>, b: Option<String>) -> bool {
    match (a, b) {
        (Some(x), Some(y)) => x@ == y@,
        (None, None) => true,
        _ => false,
    }
}

/// Whether two distributions are the same, field by field.
pub open spec fn same_distribution(a: Distribution, b: Distribution) -> bool {
    a.format@ == b.format@ && a.access_service@ == b.access_service@
}

/// Whether two data services are the same, field by field.
pub open spec fn same_service(a: DataService, b: DataService) -> bool {
    &&& a.id@ == b.id@
    &&& a.endpoint_url@ == b.endpoint_url@
    &&& same_option(a.endpoint_description, b.endpoint_description)
}

/// Whether two datasets are the same, field by field and distribution by
/// distribution.
pub open spec fn same_dataset(a: Dataset, b: Dataset) -> bool {
    &&& a.id@ == b.id@
    &&& a.properties@ == b.properties@
    &&& a.distributions@.len() == b.distributions@.len()
    &&& forall|i: int|
        0 <= i < a.distributions@.len() ==> same_distribution(
            #[trigger] a.distributions@[i],
            b.distributions@[i],
        )
}

/// Whether two catalogs are the same, field by field, dataset by dataset and
/// service by service.
pub open spec fn same_catalog(a: Catalog, b: Catalog) -> bool {
    &&& a.id@ == b.id@
    &&& a.origin_node.0@ == b.origin_node.0@
    &&& same_option(a.participant_id, b.participant_id)
    &&& a.properties@ == b.properties@
    &&& a.datasets@.len() == b.datasets@.len()
    &&& forall|i: int|
        0 <= i < a.datasets@.len() ==> same_dataset(#[trigger] a.datasets@[i], b.datasets@[i])
    &&& a.data_services@.len() == b.data_services@.len()
    &&& forall|i: int|
        0 <= i < a.data_services@.len() ==> same_service(
            #[trigger] a.data_services@[i],
            b.data_services@[i],
        )
}

/// What two distributions say is the same exactly if they are.
pub proof fn distributions_say_all_they_hold(a: Distribution, b: Distribution)
    ensures
        a@ == b@ <==> same_distribution(a, b),
{
}

/// What two data services say is the same exactly if they are.
pub proof fn services_say_all_they_hold(a: DataService, b: DataService)
    ensures
        a@ == b@ <==> same_service(a, b),
{
}

/// What two datasets say is the same exactly if they are.
pub proof fn datasets_say_all_they_hold(a: Dataset, b: Dataset)
    ensures
        a@ == b@ <==> same_dataset(a, b),
{
    let x = crate::catalog::distribution_views(a.distributions@);
    let y = crate::catalog::distribution_views(b.distributions@);
    assert(x.len() == a.distributions@.len());
    assert(y.len() == b.distributions@.len());
    if a@ == b@ {
        assert forall|i: int| 0 <= i < a.distributions@.len() implies same_distribution(
            #[trigger] a.distributions@[i],
            b.distributions@[i],
        ) by {
            assert(x[i] == y[i]);
        }
    }
    if same_dataset(a, b) {
        assert forall|i: int| 0 <= i < x.len() implies x[i] == y[i] by {
            assert(same_distribution(a.distributions@[i], b.distributions@[i]));
        }
        assert(x =~= y);
    }
}

/// What two catalogs say is the same exactly if they are.
pub proof fn catalogs_say_all_they_hold(a: Catalog, b: Catalog)
    ensures
        a@ == b@ <==> same_catalog(a, b),
{
    let x = crate::catalog::dataset_views(a.datasets@);
    let y = crate::catalog::dataset_views(b.datasets@);
    let u = crate::catalog::data_service_views(a.data_services@);
    let v = crate::catalog::data_service_views(b.data_services@);
    assert(x.len() == a.datasets@.len());
    assert(y.len() == b.datasets@.len());
    assert(u.len() == a.data_services@.len());
    assert(v.len() == b.data_services@.len());
    if a@ == b@ {
        assert forall|i: int| 0 <= i < a.datasets@.len() implies same_dataset(
            #[trigger] a.datasets@[i],
            b.datasets@[i],
        ) by {
            assert(x[i] == y[i]);
            datasets_say_all_they_hold(a.datasets@[i], b.datasets@[i]);
        }
        assert forall|i: int| 0 <= i < a.data_services@.len() implies same_service(
            #[trigger] a.data_services@[i],
            b.data_services@[i],
        ) by {
            assert(u[i] == v[i]);
        }
    }
    if same_catalog(a, b) {
        assert forall|i: int| 0 <= i < x.len() implies x[i] == y[i] by {
            assert(same_dataset(a.datasets@[i], b.datasets@[i]));
            datasets_say_all_they_hold(a.datasets@[i], b.datasets@[i]);
        }
        assert forall|i: int| 0 <= i < u.len() implies u[i] == v[i] by {
            assert(same_service(a.data_services@[i], b.data_services@[i]));
        }
        assert(x =~= y);
        assert(u =~= v);
    }
}

/// A copy of a catalog is the same catalog.
pub proof fn copies_are_the_same(catalog: &Catalog, copy: Catalog)
    requires
        call_ensures(<Catalog as Clone>::clone, (catalog,), copy),
    ensures
        same_catalog(copy, *catalog),
{
    catalogs_say_all_they_hold(copy, *catalog);
}

// --- DSP documents ---------------------------------------------------------

/// Whether a list is a stored dataset's distributions, all of them and in
/// order, each with its type, format and access service.
pub open spec fn serves_every_distribution(
    served: Seq<DspDistribution>,
    stored: Seq<Distribution>,
) -> bool {
    &&& served.len() == stored.len()
    &&& forall|i: int|
        0 <= i < stored.len() ==> {
            &&& (#[trigger] served[i]).ld_type@ == "Distribution"@
            &&& served[i].format@ == stored[i].format@
            &&& served[i].access_service@ == stored[i].access_service@
        }
}

/// Whether an offer has this id and permits use, and nothing else.
pub open spec fn permits_use(offer: DspOffer, id: Seq<char>) -> bool {
    &&& offer.id@ == id
    &&& offer.ld_type@ == "Offer"@
    &&& offer.permission@.len() == 1
    &&& offer.permission@[0].ld_type@ == "Permission"@
    &&& offer.permission@[0].action@ == "http://www.w3.org/ns/odrl/2/use"@
}

/// Whether a document is a stored dataset: under its id, with all its
/// distributions, under one offer, which permits use.
pub open spec fn serves_whole_dataset(served: DspDataset, stored: Dataset) -> bool {
    &&& served.id@ == stored.id@
    &&& served.ld_type@ == "Dataset"@
    &&& served.has_policy@.len() == 1
    &&& permits_use(served.has_policy@[0], served.has_policy@[0].id@)
    &&& serves_every_distribution(served.distribution@, stored.distributions@)
}

/// Whether a document is a stored data service.
pub open spec fn serves_whole_service(served: DspDataService, stored: DataService) -> bool {
    &&& served.id@ == stored.id@
    &&& served.ld_type@ == "DataService"@
    &&& served.endpoint_url@ == stored.endpoint_url@
}

/// Whether a list of contexts is the one of the Dataspace Protocol.
pub open spec fn is_dsp_context(context: Seq<String>) -> bool {
    context.len() == 1 && context[0]@ == "https://w3id.org/dspace/2025/1/context.jsonld"@
}

proof fn lemma_permits_use(offer: DspOffer, id: Seq<char>)
    requires
        offer@ == crate::dsp::use_offer(id),
    ensures
        permits_use(offer, id),
{
    assert(offer@.permission.len() == offer.permission@.len());
    assert(offer@.permission[0] == offer.permission@[0]@);
}

/// An offer made under an id permits use under that id.
pub proof fn offers_permit_use(id: String, offer: DspOffer)
    requires
        call_ensures(DspOffer::with_id, (id,), offer),
    ensures
        permits_use(offer, id@),
{
    lemma_permits_use(offer, id@);
}

/// The offer that stands in for a dataset's policy permits use, under an id
/// that was drawn.
pub proof fn placeholder_offers_permit_use(offer: DspOffer)
    requires
        call_ensures(placeholder_offer, (), offer),
    ensures
        permits_use(offer, offer.id@),
        crate::ids::fresh_urn(offer.id@),
{
    lemma_permits_use(offer, offer.id@);
}

proof fn lemma_serves_distributions(served: DspDataset, stored: Dataset, offer: DspOffer)
    requires
        served@.distribution == crate::dsp::dsp_dataset(stored@, offer@).distribution,
    ensures
        serves_every_distribution(served.distribution@, stored.distributions@),
{
    let all = stored@.distributions;
    assert(served@.distribution.len() == served.distribution@.len());
    assert(all.len() == stored.distributions@.len());
    assert forall|i: int| 0 <= i < stored.distributions@.len() implies {
        &&& (#[trigger] served.distribution@[i]).ld_type@ == "Distribution"@
        &&& served.distribution@[i].format@ == stored.distributions@[i].format@
        &&& served.distribution@[i].access_service@ == stored.distributions@[i].access_service@
    } by {
        assert(served@.distribution[i] == served.distribution@[i]@);
        assert(all[i] == stored.distributions@[i]@);
    }
}

/// A distribution is served with its format and access service.
pub proof fn distributions_are_served_whole(stored: Distribution, served: DspDistribution)
    requires
        call_ensures(<DspDistribution as From<Distribution>>::from, (stored,), served),
    ensures
        served.ld_type@ == "Distribution"@,
        served.format@ == stored.format@,
        served.access_service@ == stored.access_service@,
{
}

/// A data service is served with its id and endpoint.
pub proof fn services_are_served_whole(stored: DataService, served: DspDataService)
    requires
        call_ensures(<DspDataService as From<DataService>>::from, (stored,), served),
    ensures
        serves_whole_service(served, stored),
{
}

/// A dataset under a given offer is served with its id, that offer and all its
/// distributions, without a context.
pub proof fn datasets_are_served_whole(stored: Dataset, offer: DspOffer, served: DspDataset)
    requires
        call_ensures(DspDataset::with_offer, (stored, offer), served),
    ensures
        served.context is None,
        served.id@ == stored.id@,
        served.ld_type@ == "Dataset"@,
        served.has_policy@.len() == 1,
        served.has_policy@[0].id@ == offer.id@,
        served.has_policy@[0].ld_type@ == offer.ld_type@,
        served.has_policy@[0].permission@.len() == offer.permission@.len(),
        forall|i: int|
            0 <= i < offer.permission@.len() ==> (
            #[trigger] served.has_policy@[0].permission@[i]).ld_type@
                == offer.permission@[i].ld_type@ && served.has_policy@[0].permission@[i].action@
                == offer.permission@[i].action@,
        serves_every_distribution(served.distribution@, stored.distributions@),
{
    assert(served@.has_policy.len() == served.has_policy@.len());
    assert(served@.has_policy[0] == served.has_policy@[0]@);
    let kept = served.has_policy@[0]@.permission;
    assert(kept == offer@.permission);
    assert(kept.len() == served.has_policy@[0].permission@.len());
    assert(offer@.permission.len() == offer.permission@.len());
    assert forall|i: int| 0 <= i < offer.permission@.len() implies (
    #[trigger] served.has_policy@[0].permission@[i]).ld_type@ == offer.permission@[i].ld_type@
        && served.has_policy@[0].permission@[i].action@ == offer.permission@[i].action@ by {
        assert(kept[i] == served.has_policy@[0].permission@[i]@);
        assert(kept[i] == offer.permission@[i]@);
    }
    lemma_serves_distributions(served, stored, offer);
}

proof fn lemma_serves_whole_dataset(served: DspDataset, stored: Dataset)
    requires
        served@.id == stored@.id,
        served@.ld_type == "Dataset"@,
        served@.has_policy == seq![crate::dsp::use_offer(served@.has_policy[0].id)],
        served@.distribution == crate::dsp::dsp_dataset(
            stored@,
            crate::dsp::use_offer(served@.has_policy[0].id),
        ).distribution,
    ensures
        serves_whole_dataset(served, stored),
        served@.has_policy[0].id == served.has_policy@[0].id@,
{
    assert(served@.has_policy.len() == served.has_policy@.len());
    assert(served@.has_policy[0] == served.has_policy@[0]@);
    let offer = served.has_policy@[0];
    lemma_permits_use(offer, offer.id@);
    lemma_serves_distributions(served, stored, offer);
}

/// A dataset is served whole, under one offer that was made for it, without a
/// context.
pub proof fn datasets_are_served_under_an_offer_of_their_own(stored: Dataset, served: DspDataset)
    requires
        call_ensures(<DspDataset as From<Dataset>>::from, (stored,), served),
    ensures
        served.context is None,
        serves_whole_dataset(served, stored),
        crate::ids::fresh_urn(served.has_policy@[0].id@),
{
    lemma_serves_whole_dataset(served, stored);
}

/// Framing a dataset as a document of its own adds the context and changes
/// nothing else.
pub proof fn framing_adds_only_the_context(dataset: DspDataset, document: DspDataset)
    requires
        call_ensures(DspDataset::into_document, (dataset,), document),
    ensures
        document.context matches Some(context) && is_dsp_context(context@),
        document.id@ == dataset.id@,
        document.ld_type@ == dataset.ld_type@,
        document@.has_policy == dataset@.has_policy,
        document@.distribution == dataset@.distribution,
{
    let context = document.context->0;
    assert(document@.context == Some(seq![
        "https://w3id.org/dspace/2025/1/context.jsonld"@,
    ]));
    assert(crate::text::texts(context@).len() == context@.len());
    assert(crate::text::texts(context@)[0] == context@[0]@);
}

/// A list of datasets is served whole, each in its place.
pub proof fn dataset_lists_are_served_whole(stored: Vec<Dataset>, served: Vec<DspDataset>)
    requires
        call_ensures(datasets_to_dsp, (stored,), served),
    ensures
        served@.len() == stored@.len(),
        forall|i: int|
            0 <= i < stored@.len() ==> {
                &&& (#[trigger] served@[i]).context is None
                &&& serves_whole_dataset(served@[i], stored@[i])
                &&& crate::ids::fresh_urn(served@[i].has_policy@[0].id@)
            },
{
    lemma_dataset_lists(
        stored@,
        served@,
        crate::catalog::dataset_views(stored@),
        crate::dsp::dsp_dataset_views(served@),
    );
    assert forall|i: int| 0 <= i < stored@.len() implies {
        &&& (#[trigger] served@[i]).context is None
        &&& serves_whole_dataset(served@[i], stored@[i])
        &&& crate::ids::fresh_urn(served@[i].has_policy@[0].id@)
    } by {
        let views = crate::dsp::dsp_dataset_views(served@);
        assert(crate::ids::fresh_urn(crate::dsp::offer_ids(views)[i]));
        assert(crate::dsp::offer_ids(views)[i] == views[i].has_policy[0].id);
        assert(views[i] == served@[i]@);
    }
}

proof fn lemma_dataset_lists(
    stored: Seq<Dataset>,
    served: Seq<DspDataset>,
    stored_views: Seq<crate::catalog::DatasetView>,
    served_views: Seq<crate::dsp::DspDatasetView>,
)
    requires
        stored_views == crate::catalog::dataset_views(stored),
        served_views == crate::dsp::dsp_dataset_views(served),
        served_views == crate::dsp::dsp_datasets(
            stored_views,
            crate::dsp::offer_ids(served_views),
        ),
    ensures
        served.len() == stored.len(),
        forall|i: int|
            0 <= i < stored.len() ==> (#[trigger] served[i]).context is None
                && serves_whole_dataset(served[i], stored[i]) && served_views[i].has_policy[0].id
                == served[i].has_policy@[0].id@,
{
    assert(stored_views.len() == stored.len());
    assert(served_views.len() == served.len());
    assert forall|i: int| 0 <= i < stored.len() implies (#[trigger] served[i]).context is None
        && serves_whole_dataset(served[i], stored[i]) && served_views[i].has_policy[0].id
        == served[i].has_policy@[0].id@ by {
        assert(served_views[i] == served[i]@);
        assert(stored_views[i] == stored[i]@);
        assert(served_views[i] == crate::dsp::dsp_dataset(
            stored_views[i],
            crate::dsp::use_offer(crate::dsp::offer_ids(served_views)[i]),
        ));
        assert(crate::dsp::offer_ids(served_views)[i] == served_views[i].has_policy[0].id);
        lemma_serves_whole_dataset(served[i], stored[i]);
    }
}

/// A list of data services is served whole, each in its place.
pub proof fn service_lists_are_served_whole(stored: Vec<DataService>, served: Vec<DspDataService>)
    requires
        call_ensures(data_services_to_dsp, (stored,), served),
    ensures
        served@.len() == stored@.len(),
        forall|i: int|
            0 <= i < stored@.len() ==> serves_whole_service(#[trigger] served@[i], stored@[i]),
{
    lemma_service_lists(stored@, served@);
}

proof fn lemma_service_lists(stored: Seq<DataService>, served: Seq<DspDataService>)
    requires
        crate::dsp::dsp_data_service_views(served) == crate::catalog::data_service_views(
            stored,
        ).map_values(
            |service: crate::catalog::DataServiceView| crate::dsp::dsp_data_service(service),
        ),
    ensures
        served.len() == stored.len(),
        forall|i: int|
            0 <= i < stored.len() ==> serves_whole_service(#[trigger] served[i], stored[i]),
{
    let x = crate::dsp::dsp_data_service_views(served);
    let y = crate::catalog::data_service_views(stored);
    assert(x.len() == served.len());
    assert(y.len() == stored.len());
    assert forall|i: int| 0 <= i < stored.len() implies serves_whole_service(
        #[trigger] served[i],
        stored[i],
    ) by {
        assert(x[i] == served[i]@);
        assert(y[i] == stored[i]@);
    }
}

/// Whether a catalog document is this connector's, of these datasets and
/// services: all of them, in order and whole.
pub open spec fn serves_whole_catalog(
    document: DspCatalog,
    datasets: Seq<Dataset>,
    services: Seq<DataService>,
) -> bool {
    &&& is_dsp_context(document.context@)
    &&& crate::ids::fresh_urn(document.id@)
    &&& document.ld_type@ == "Catalog"@
    &&& document.participant_id@ == "urn:connector:federated-catalog-rs"@
    &&& document.dataset@.len() == datasets.len()
    &&& forall|i: int|
        0 <= i < datasets.len() ==> {
            &&& (#[trigger] document.dataset@[i]).context is None
            &&& serves_whole_dataset(document.dataset@[i], datasets[i])
            &&& crate::ids::fresh_urn(document.dataset@[i].has_policy@[0].id@)
        }
    &&& document.service@.len() == services.len()
    &&& forall|i: int|
        0 <= i < services.len() ==> serves_whole_service(
            #[trigger] document.service@[i],
            services[i],
        )
}

/// A catalog document keeps the id, datasets and services that it is made of.
pub proof fn catalog_documents_keep_their_parts(
    id: String,
    dataset: Vec<DspDataset>,
    service: Vec<DspDataService>,
    document: DspCatalog,
)
    requires
        call_ensures(DspCatalog::with_id, (id, dataset, service), document),
    ensures
        is_dsp_context(document.context@),
        document.id@ == id@,
        document.ld_type@ == "Catalog"@,
        document.participant_id@ == "urn:connector:federated-catalog-rs"@,
        document.dataset@.len() == dataset@.len(),
        forall|i: int|
            0 <= i < dataset@.len() ==> (#[trigger] document.dataset@[i])@ == dataset@[i]@,
        document.service@.len() == service@.len(),
        forall|i: int|
            0 <= i < service@.len() ==> (#[trigger] document.service@[i])@ == service@[i]@,
{
    lemma_context(document);
    let x = crate::dsp::dsp_dataset_views(dataset@);
    let y = crate::dsp::dsp_data_service_views(service@);
    assert(x.len() == dataset@.len() && document@.dataset.len() == document.dataset@.len());
    assert(y.len() == service@.len() && document@.service.len() == document.service@.len());
    assert forall|i: int| 0 <= i < dataset@.len() implies (#[trigger] document.dataset@[i])@
        == dataset@[i]@ by {
        assert(x[i] == dataset@[i]@ && document@.dataset[i] == document.dataset@[i]@);
    }
    assert forall|i: int| 0 <= i < service@.len() implies (#[trigger] document.service@[i])@
        == service@[i]@ by {
        assert(y[i] == service@[i]@ && document@.service[i] == document.service@[i]@);
    }
}

proof fn lemma_context(document: DspCatalog)
    requires
        document@.context == seq!["https://w3id.org/dspace/2025/1/context.jsonld"@],
    ensures
        is_dsp_context(document.context@),
{
    assert(crate::text::texts(document.context@).len() == document.context@.len());
    assert(crate::text::texts(document.context@)[0] == document.context@[0]@);
}

/// Whether a reply reports this error of the store.
pub open spec fn tells<B>(reply: Reply<B>, error: StoreError) -> bool {
    reply matches Reply::Failure(body) && (error matches StoreError::Backend(reason) && body.error@
        == "catalog store backend error: "@ + reason@)
}

/// The request for the catalog is answered with every dataset and service of
/// the flattened cache, in order and whole, or with the store's error.
pub proof fn catalog_requests_serve_everything(
    flattened: StoreResult<(Vec<Dataset>, Vec<DataService>)>,
    reply: Reply<DspCatalog>,
)
    requires
        call_ensures(catalog_reply, (flattened,), reply),
    ensures
        match flattened {
            Ok(parts) => reply matches Reply::Success(body) && serves_whole_catalog(
                body,
                parts.0@,
                parts.1@,
            ),
            Err(error) => tells(reply, error),
        },
{
    if let Ok(parts) = flattened {
        let body = reply->Success_0;
        lemma_federated_catalog(body, parts.0@, parts.1@);
    }
}

pub(crate) proof fn lemma_federated_catalog(
    body: DspCatalog,
    datasets: Seq<Dataset>,
    services: Seq<DataService>,
)
    requires
        crate::api::federated_catalog(
            body@,
            crate::catalog::dataset_views(datasets),
            crate::catalog::data_service_views(services),
        ),
    ensures
        serves_whole_catalog(body, datasets, services),
{
    lemma_context(body);
    let views = body@.dataset;
    lemma_dataset_lists(
        datasets,
        body.dataset@,
        crate::catalog::dataset_views(datasets),
        views,
    );
    lemma_service_lists(services, body.service@);
    assert forall|i: int| 0 <= i < datasets.len() implies {
        &&& (#[trigger] body.dataset@[i]).context is None
        &&& serves_whole_dataset(body.dataset@[i], datasets[i])
        &&& crate::ids::fresh_urn(body.dataset@[i].has_policy@[0].id@)
    } by {
        assert(crate::ids::fresh_urn(crate::dsp::offer_ids(views)[i]));
        assert(crate::dsp::offer_ids(views)[i] == views[i].has_policy[0].id);
    }
}

/// Whether `i` is the first place of a dataset with this id.
pub open spec fn first_at(datasets: Seq<Dataset>, id: Seq<char>, i: int) -> bool {
    &&& 0 <= i < datasets.len()
    &&& datasets[i].id@ == id
    &&& forall|j: int| 0 <= j < i ==> (#[trigger] datasets[j]).id@ != id
}

proof fn lemma_first_at(datasets: Seq<Dataset>, id: Seq<char>)
    ensures
        match crate::api::first_dataset(crate::catalog::dataset_views(datasets), id) {
            Some(view) => exists|i: int| #[trigger] first_at(datasets, id, i) && datasets[i]@
                == view,
            None => forall|i: int| 0 <= i < datasets.len() ==> (#[trigger] datasets[i]).id@ != id,
        },
    decreases datasets.len(),
{
    let views = crate::catalog::dataset_views(datasets);
    assert(views.len() == datasets.len());
    if datasets.len() > 0 {
        assert(views[0] == datasets[0]@);
        if datasets[0].id@ == id {
            assert(first_at(datasets, id, 0));
        } else {
            let rest = datasets.skip(1);
            lemma_first_at(rest, id);
            assert(crate::catalog::dataset_views(rest) =~= views.skip(1));
            match crate::api::first_dataset(views, id) {
                Some(view) => {
                    let i = choose|i: int| #[trigger] first_at(rest, id, i) && rest[i]@ == view;
                    assert forall|j: int| 0 <= j < i + 1 implies (#[trigger] datasets[j]).id@
                        != id by {
                        if j > 0 {
                            assert(rest[j - 1] == datasets[j]);
                        }
                    }
                    assert(first_at(datasets, id, i + 1));
                },
                None => {
                    assert forall|i: int| 0 <= i < datasets.len() implies (
                    #[trigger] datasets[i]).id@ != id by {
                        if i > 0 {
                            assert(rest[i - 1] == datasets[i]);
                        }
                    }
                },
            }
        }
    }
}

/// The dataset that is found under an id is the first that has it; none is
/// found exactly where none has it.
pub proof fn the_first_dataset_is_found(datasets: Vec<Dataset>, id: &str, found: Option<Dataset>)
    requires
        call_ensures(find_dataset, (datasets, id), found),
    ensures
        match found {
            Some(dataset) => exists|i: int| #[trigger] first_at(datasets@, id@, i) && same_dataset(
                dataset,
                datasets@[i],
            ),
            None => forall|i: int|
                0 <= i < datasets@.len() ==> (#[trigger] datasets@[i]).id@ != id@,
        },
{
    lemma_first_at(datasets@, id@);
    if let Some(dataset) = found {
        let i = choose|i: int| #[trigger] first_at(datasets@, id@, i) && datasets@[i]@ == dataset@;
        datasets_say_all_they_hold(dataset, datasets@[i]);
    }
}

/// Whether a reply serves the first dataset with this id, whole and framed as
/// a document of its own, or says that there is none.
pub open spec fn serves_the_first(
    reply: Reply<DspDataset>,
    datasets: Seq<Dataset>,
    id: Seq<char>,
) -> bool {
    match reply {
        Reply::Success(body) => {
            &&& body.context matches Some(context) && is_dsp_context(context@)
            &&& crate::ids::fresh_urn(body.has_policy@[0].id@)
            &&& exists|i: int| #[trigger] first_at(datasets, id, i) && serves_whole_dataset(
                body,
                datasets[i],
            )
        },
        Reply::NotFound(body) => {
            &&& forall|i: int| 0 <= i < datasets.len() ==> (#[trigger] datasets[i]).id@ != id
            &&& says_not_found(body)
        },
        Reply::Failure(_) => false,
    }
}

/// Whether a document is the error that nothing was found, under an id that
/// was drawn.
pub open spec fn says_not_found(error: DspCatalogError) -> bool {
    &&& is_dsp_context(error.context@)
    &&& crate::ids::fresh_urn(error.id@)
    &&& error.ld_type@ == "CatalogError"@
    &&& error.code@ == "NOT_FOUND"@
}

proof fn lemma_says_not_found(error: DspCatalogError)
    requires
        error@ == crate::dsp::not_found_error(error@.id),
        crate::ids::fresh_urn(error@.id),
    ensures
        says_not_found(error),
{
    assert(crate::text::texts(error.context@).len() == error.context@.len());
    assert(crate::text::texts(error.context@)[0] == error.context@[0]@);
}

/// The error that nothing was found says so.
pub proof fn not_found_says_so(error: DspCatalogError)
    requires
        call_ensures(DspCatalogError::not_found, (), error),
    ensures
        says_not_found(error),
{
    lemma_says_not_found(error);
}

pub(crate) proof fn lemma_serves_the_first(
    reply: Reply<DspDataset>,
    datasets: Seq<Dataset>,
    id: Seq<char>,
)
    requires
        crate::api::serves_dataset(reply, crate::catalog::dataset_views(datasets), id),
    ensures
        serves_the_first(reply, datasets, id),
{
    lemma_first_at(datasets, id);
    match reply {
        Reply::Success(body) => {
            let view = crate::api::first_dataset(crate::catalog::dataset_views(datasets), id)->0;
            let i = choose|i: int| #[trigger] first_at(datasets, id, i) && datasets[i]@ == view;
            lemma_serves_whole_dataset(body, datasets[i]);
            let context = body.context->0;
            assert(crate::text::texts(context@).len() == context@.len());
            assert(crate::text::texts(context@)[0] == context@[0]@);
        },
        Reply::NotFound(body) => {
            lemma_says_not_found(body);
        },
        Reply::Failure(_) => {},
    }
}

/// A lookup is answered with the first dataset of that id, whole and framed as
/// a document of its own, with a not-found error exactly where there is none,
/// or with the store's error.
pub proof fn lookups_serve_the_first_dataset(
    flattened: StoreResult<(Vec<Dataset>, Vec<DataService>)>,
    id: &str,
    reply: Reply<DspDataset>,
)
    requires
        call_ensures(dataset_reply, (flattened, id), reply),
    ensures
        match flattened {
            Ok(parts) => serves_the_first(reply, parts.0@, id@),
            Err(error) => tells(reply, error),
        },
{
    if let Ok(parts) = flattened {
        lemma_serves_the_first(reply, parts.0@, id@);
    }
}

// --- The aggregate view ----------------------------------------------------

/// How many datasets the first `n` catalogs have.
pub open spec fn datasets_in(catalogs: Seq<Catalog>, n: int) -> int
    decreases n,
{
    if n <= 0 {
        0
    } else {
        datasets_in(catalogs, n - 1) + catalogs[n - 1].datasets@.len()
    }
}

/// How many data services the first `n` catalogs have.
pub open spec fn services_in(catalogs: Seq<Catalog>, n: int) -> int
    decreases n,
{
    if n <= 0 {
        0
    } else {
        services_in(catalogs, n - 1) + catalogs[n - 1].data_services@.len()
    }
}

/// Whether two lists hold the datasets and services of these catalogs: all of
/// them, catalog by catalog and in order.
pub open spec fn holds_everything(
    datasets: Seq<Dataset>,
    services: Seq<DataService>,
    catalogs: Seq<Catalog>,
) -> bool {
    &&& datasets.len() == datasets_in(catalogs, catalogs.len() as int)
    &&& forall|k: int, j: int|
        0 <= k < catalogs.len() && 0 <= j < catalogs[k].datasets@.len() ==> same_dataset(
            datasets[datasets_in(catalogs, k) + j],
            #[trigger] catalogs[k].datasets@[j],
        )
    &&& services.len() == services_in(catalogs, catalogs.len() as int)
    &&& forall|k: int, j: int|
        0 <= k < catalogs.len() && 0 <= j < catalogs[k].data_services@.len() ==> same_service(
            services[services_in(catalogs, k) + j],
            #[trigger] catalogs[k].data_services@[j],
        )
}

proof fn lemma_datasets_in(catalogs: Seq<Catalog>, k: int, n: int)
    requires
        0 <= k < n <= catalogs.len(),
    ensures
        0 <= datasets_in(catalogs, k),
        datasets_in(catalogs, k) + catalogs[k].datasets@.len() <= datasets_in(catalogs, n),
    decreases n,
{
    if k > 0 {
        lemma_datasets_in(catalogs, k - 1, k);
    }
    if k < n - 1 {
        lemma_datasets_in(catalogs, k, n - 1);
    }
}

/// Whether a list holds the datasets of the first `n` catalogs in their places.
spec fn datasets_placed(
    all: Seq<crate::catalog::DatasetView>,
    catalogs: Seq<Catalog>,
    n: int,
) -> bool {
    &&& all.len() == datasets_in(catalogs, n)
    &&& forall|k: int, j: int|
        0 <= k < n && 0 <= j < catalogs[k].datasets@.len() ==> all[datasets_in(catalogs, k) + j]
            == (#[trigger] catalogs[k].datasets@[j])@
}

proof fn lemma_all_datasets(catalogs: Seq<Catalog>, n: int)
    requires
        0 <= n <= catalogs.len(),
    ensures
        datasets_placed(
            crate::api::all_datasets(crate::catalog::catalog_views(catalogs).take(n)),
            catalogs,
            n,
        ),
    decreases n,
{
    let views = crate::catalog::catalog_views(catalogs);
    let all = crate::api::all_datasets(views.take(n));
    if n > 0 {
        lemma_all_datasets(catalogs, n - 1);
        assert(views.take(n).drop_last() =~= views.take(n - 1));
        let last = catalogs[n - 1];
        assert(views.take(n).last() == last@);
        assert(last@.datasets.len() == last.datasets@.len());
        let before = crate::api::all_datasets(views.take(n - 1));
        assert(all == before + last@.datasets);
        assert forall|k: int, j: int|
            0 <= k < n && 0 <= j < catalogs[k].datasets@.len() implies all[datasets_in(catalogs, k)
            + j] == (#[trigger] catalogs[k].datasets@[j])@ by {
            if k == n - 1 {
                assert(last@.datasets[j] == last.datasets@[j]@);
            } else {
                lemma_datasets_in(catalogs, k, n - 1);
                assert(before[datasets_in(catalogs, k) + j] == catalogs[k].datasets@[j]@);
            }
        }
    }
}

proof fn lemma_services_in(catalogs: Seq<Catalog>, k: int, n: int)
    requires
        0 <= k < n <= catalogs.len(),
    ensures
        0 <= services_in(catalogs, k),
        services_in(catalogs, k) + catalogs[k].data_services@.len() <= services_in(catalogs, n),
    decreases n,
{
    if k > 0 {
        lemma_services_in(catalogs, k - 1, k);
    }
    if k < n - 1 {
        lemma_services_in(catalogs, k, n - 1);
    }
}

/// Whether a list holds the services of the first `n` catalogs in their places.
spec fn services_placed(
    all: Seq<crate::catalog::DataServiceView>,
    catalogs: Seq<Catalog>,
    n: int,
) -> bool {
    &&& all.len() == services_in(catalogs, n)
    &&& forall|k: int, j: int|
        0 <= k < n && 0 <= j < catalogs[k].data_services@.len() ==> (
        #[trigger] catalogs[k].data_services@[j])@ == all[services_in(catalogs, k) + j]
}

proof fn lemma_all_services(catalogs: Seq<Catalog>, n: int)
    requires
        0 <= n <= catalogs.len(),
    ensures
        services_placed(
            crate::api::all_data_services(crate::catalog::catalog_views(catalogs).take(n)),
            catalogs,
            n,
        ),
    decreases n,
{
    let views = crate::catalog::catalog_views(catalogs);
    let all = crate::api::all_data_services(views.take(n));
    if n > 0 {
        lemma_all_services(catalogs, n - 1);
        assert(views.take(n).drop_last() =~= views.take(n - 1));
        let last = catalogs[n - 1];
        assert(views.take(n).last() == last@);
        assert(last@.data_services.len() == last.data_services@.len());
        let before = crate::api::all_data_services(views.take(n - 1));
        assert(all == before + last@.data_services);
        assert forall|k: int, j: int|
            0 <= k < n && 0 <= j < catalogs[k].data_services@.len() implies (
        #[trigger] catalogs[k].data_services@[j])@ == all[services_in(catalogs, k) + j] by {
            if k == n - 1 {
                assert(last@.data_services[j] == last.data_services@[j]@);
            } else {
                lemma_services_in(catalogs, k, n - 1);
                assert(before[services_in(catalogs, k) + j] == catalogs[k].data_services@[j]@);
            }
        }
    }
}

pub(crate) proof fn lemma_holds_everything(
    datasets: Seq<Dataset>,
    services: Seq<DataService>,
    catalogs: Seq<Catalog>,
)
    requires
        crate::catalog::dataset_views(datasets) == crate::api::all_datasets(
            crate::catalog::catalog_views(catalogs),
        ),
        crate::catalog::data_service_views(services) == crate::api::all_data_services(
            crate::catalog::catalog_views(catalogs),
        ),
    ensures
        holds_everything(datasets, services, catalogs),
{
    let n = catalogs.len() as int;
    let views = crate::catalog::catalog_views(catalogs);
    assert(views.take(n) =~= views);
    lemma_all_datasets(catalogs, n);
    lemma_all_services(catalogs, n);
    let x = crate::catalog::dataset_views(datasets);
    let y = crate::catalog::data_service_views(services);
    assert(x.len() == datasets.len());
    assert(y.len() == services.len());
    assert forall|k: int, j: int|
        0 <= k < catalogs.len() && 0 <= j < catalogs[k].datasets@.len() implies same_dataset(
        datasets[datasets_in(catalogs, k) + j],
        #[trigger] catalogs[k].datasets@[j],
    ) by {
        let at = datasets_in(catalogs, k) + j;
        lemma_datasets_in(catalogs, k, n);
        assert(x[at] == catalogs[k].datasets@[j]@);
        assert(x[at] == datasets[at]@);
        datasets_say_all_they_hold(datasets[at], catalogs[k].datasets@[j]);
    }
    assert forall|k: int, j: int|
        0 <= k < catalogs.len() && 0 <= j < catalogs[k].data_services@.len() implies same_service(
        services[services_in(catalogs, k) + j],
        #[trigger] catalogs[k].data_services@[j],
    ) by {
        let at = services_in(catalogs, k) + j;
        lemma_services_in(catalogs, k, n);
        assert(y[at] == catalogs[k].data_services@[j]@);
        assert(y[at] == services[at]@);
    }
}

/// Flattening keeps every dataset and service of every catalog, catalog by
/// catalog and in order, and adds none.
pub proof fn flattening_keeps_everything(
    catalogs: Vec<Catalog>,
    flattened: (Vec<Dataset>, Vec<DataService>),
)
    requires
        call_ensures(flatten, (catalogs,), flattened),
    ensures
        holds_everything(flattened.0@, flattened.1@, catalogs@),
{
    lemma_holds_everything(flattened.0@, flattened.1@, catalogs@);
}

/// Flattening what the store found keeps everything, or hands on the store's
/// error.
pub proof fn flattening_hands_on_errors(
    found: StoreResult<Vec<Catalog>>,
    flattened: StoreResult<(Vec<Dataset>, Vec<DataService>)>,
)
    requires
        call_ensures(flatten_found, (found,), flattened),
    ensures
        match found {
            Ok(catalogs) => flattened matches Ok(parts) && holds_everything(
                parts.0@,
                parts.1@,
                catalogs@,
            ),
            Err(error) => flattened matches Err(handed_on) && handed_on == error,
        },
{
    if let Ok(catalogs) = found {
        let parts = flattened->Ok_0;
        lemma_holds_everything(parts.0@, parts.1@, catalogs@);
    }
}

// --- Plain replies ---------------------------------------------------------

/// The list of catalogs is what the store found, or the store's error.
pub proof fn lists_are_what_was_found(
    found: StoreResult<Vec<Catalog>>,
    reply: Reply<CatalogListResponse>,
)
    requires
        call_ensures(list_reply, (found,), reply),
    ensures
        match found {
            Ok(catalogs) => reply matches Reply::Success(body) && body.catalogs == catalogs,
            Err(error) => tells(reply, error),
        },
{
}

/// An error of the store is reported with its reason.
pub proof fn errors_are_reported_with_their_reason(
    error: StoreError,
    reply: Reply<CatalogListResponse>,
)
    requires
        call_ensures(report::<CatalogListResponse>, (error,), reply),
    ensures
        tells(reply, error),
{
}

/// A store error says what its reason is.
pub proof fn store_errors_name_their_reason(error: &StoreError, message: String)
    requires
        call_ensures(StoreError::to_string, (error,), message),
    ensures
        *error matches StoreError::Backend(reason) && message@ == "catalog store backend error: "@
            + reason@,
{
}

/// A reply's status says which kind it is.
pub proof fn statuses_tell_replies_apart(reply: &Reply<CatalogListResponse>, status: u16)
    requires
        call_ensures(Reply::<CatalogListResponse>::status, (reply,), status),
    ensures
        match *reply {
            Reply::Success(_) => status == 200,
            Reply::NotFound(_) => status == 404,
            Reply::Failure(_) => status == 500,
        },
{
}

/// The health check says that all is well.
pub proof fn health_says_ok(response: HealthResponse)
    requires
        call_ensures(health, (), response),
    ensures
        response.status@ == "ok"@,
{
}

/// There is one protocol version, at its path and binding.
pub proof fn one_protocol_version_is_spoken(response: DspaceVersionResponse)
    requires
        call_ensures(dspace_version, (), response),
    ensures
        response.protocol_versions@.len() == 1,
        response.protocol_versions@[0].version@ == "2025-1"@,
        response.protocol_versions@[0].path@ == "/dsp"@,
        response.protocol_versions@[0].binding@ == "HTTPS"@,
{
    assert(response@.len() == response.protocol_versions@.len());
    assert(response@[0] == response.protocol_versions@[0]@);
}

/// Whether a catalog is the sample: one participant with one dataset, in one
/// distribution, and the service that gives access to it.
pub open spec fn is_sample(catalog: Catalog) -> bool {
    &&& catalog.id@ == "sample-catalog"@
    &&& catalog.origin_node.0@ == "sample-participant"@
    &&& catalog.participant_id matches Some(participant) && participant@
        == "did:example:sample-participant"@
    &&& catalog.properties@ == Map::<String, String>::empty()
    &&& catalog.datasets@.len() == 1
    &&& catalog.datasets@[0].id@ == "sample-dataset"@
    &&& catalog.datasets@[0].properties@ == Map::<String, String>::empty()
    &&& catalog.datasets@[0].distributions@.len() == 1
    &&& catalog.datasets@[0].distributions@[0].format@ == "application/json"@
    &&& catalog.datasets@[0].distributions@[0].access_service@ == "sample-data-service"@
    &&& catalog.data_services@.len() == 1
    &&& catalog.data_services@[0].id@ == "sample-data-service"@
    &&& catalog.data_services@[0].endpoint_url@ == "https://sample.example.org/dsp"@
    &&& catalog.data_services@[0].endpoint_description matches Some(description)
        && description@ == "dataspace-protocol-http:1.0"@
}

/// The sample catalog is one participant with one dataset and one service.
pub proof fn the_sample_is_one_dataset_and_its_service(catalog: Catalog)
    requires
        call_ensures(sample_catalog, (), catalog),
    ensures
        is_sample(catalog),
{
    lemma_is_sample(catalog);
}

pub(crate) proof fn lemma_is_sample(catalog: Catalog)
    requires
        catalog@ == crate::api::sample(),
    ensures
        is_sample(catalog),
{
    assert(catalog@.datasets.len() == catalog.datasets@.len());
    assert(catalog@.datasets[0] == catalog.datasets@[0]@);
    let dataset = catalog.datasets@[0];
    assert(dataset@.distributions.len() == dataset.distributions@.len());
    assert(dataset@.distributions[0] == dataset.distributions@[0]@);
    assert(catalog@.data_services.len() == catalog.data_services@.len());
    assert(catalog@.data_services[0] == catalog.data_services@[0]@);
}

/// A new catalog has the id and origin it was given and nothing else.
pub proof fn new_catalogs_are_empty(id: String, origin_node: NodeId, catalog: Catalog)
    requires
        call_ensures(Catalog::new::<String>, (id, origin_node), catalog),
    ensures
        catalog.id@ == id@,
        catalog.origin_node.0@ == origin_node.0@,
        catalog.participant_id is None,
        catalog.datasets@.len() == 0,
        catalog.data_services@.len() == 0,
        catalog.properties@ == Map::<String, String>::empty(),
{
    assert(catalog@.datasets.len() == catalog.datasets@.len());
    assert(catalog@.data_services.len() == catalog.data_services@.len());
}

} // verus!
