//! What the HTTP interface answers.
//!
//! Each route has a function here that takes the state and the request's
//! parameters and returns the reply, with its status. Binding routes,
//! decoding requests and writing JSON is left to the server around this
//! library.

use crate::catalog::{
    Catalog, CatalogView, DataService, DataServiceView, Dataset, DatasetView, Distribution,
    DistributionView, NodeId,
};
use crate::dsp::{data_services_to_dsp, datasets_to_dsp, DspCatalog, DspCatalogError, DspDataset};
use crate::ids::new_urn_uuid;
use crate::store::{CatalogCache, CatalogQuery, CatalogQueryView, StoreError, StoreResult};
use crate::text::same_text;
use std::collections::BTreeMap;
use vstd::prelude::*;

verus! {

/// Shared application state: just the cache.
pub struct AppState<C: CatalogCache> {
    pub cache: C,
}

impl<C: CatalogCache> AppState<C> {
    pub fn new(cache: C) -> (state: AppState<C>)
        ensures
            state.cache == cache,
    {
        AppState { cache }
    }
}

/// The catalog that a freshly started server serves.
pub open spec fn sample() -> CatalogView {
    CatalogView {
        id: "sample-catalog"@,
        origin_node: "sample-participant"@,
        participant_id: Some("did:example:sample-participant"@),
        datasets: seq![
            DatasetView {
                id: "sample-dataset"@,
                properties: Map::empty(),
                distributions: seq![
                    DistributionView {
                        format: "application/json"@,
                        access_service: "sample-data-service"@,
                    },
                ],
            },
        ],
        data_services: seq![
            DataServiceView {
                id: "sample-data-service"@,
                endpoint_url: "https://sample.example.org/dsp"@,
                endpoint_description: Some("dataspace-protocol-http:1.0"@),
            },
        ],
        properties: Map::empty(),
    }
}

/// The sample catalog.
pub fn sample_catalog() -> (catalog: Catalog)
    ensures
        catalog@ == sample(),
{
    let node = NodeId::new("sample-participant");
    let mut catalog = Catalog::new("sample-catalog", node);
    catalog.participant_id = Some("did:example:sample-participant".to_owned());
    let dataset = Dataset {
        id: "sample-dataset".to_owned(),
        properties: BTreeMap::new(),
        distributions: vec![
            Distribution {
                format: "application/json".to_owned(),
                access_service: "sample-data-service".to_owned(),
            },
        ],
    };
    assert(dataset@.distributions =~= sample().datasets[0].distributions);
    catalog.datasets.push(dataset);
    catalog.data_services.push(
        DataService {
            id: "sample-data-service".to_owned(),
            endpoint_url: "https://sample.example.org/dsp".to_owned(),
            endpoint_description: Some("dataspace-protocol-http:1.0".to_owned()),
        },
    );
    assert(catalog@.datasets =~= sample().datasets);
    assert(catalog@.data_services =~= sample().data_services);
    catalog
}

/// Seed `cache` with the sample catalog, so that a freshly started server has
/// something to serve before anything was crawled.
pub fn seed_sample_catalog<C: CatalogCache>(cache: &mut C) -> (done: StoreResult<()>)
    ensures
        C::never_fails() ==> done is Ok,
        done is Ok ==> final(cache).graphs() == old(cache).graphs().insert(
            sample().origin_node,
            sample(),
        ),
{
    cache.upsert(sample_catalog())
}

/// The body of a health check.
#[derive(Debug)]
pub struct HealthResponse {
    pub status: String,
}

/// `GET /health`.
pub fn health() -> (response: HealthResponse)
    ensures
        response.status@ == "ok"@,
{
    HealthResponse { status: "ok".to_owned() }
}

/// Optional filter for `GET /catalog`: with a node id, only the catalog
/// crawled from that node.
#[derive(Debug)]
pub struct CatalogParams {
    pub node_id: Option<String>,
}

/// The body that lists catalogs.
#[derive(Debug)]
pub struct CatalogListResponse {
    pub catalogs: Vec<Catalog>,
}

/// The body that reports an error of the store.
#[derive(Debug)]
pub struct ErrorResponse {
    pub error: String,
}

/// A reply whose body, when all went well, is a `B`.
pub enum Reply<B> {
    Success(B),
    NotFound(DspCatalogError),
    Failure(ErrorResponse),
}

impl<B> Reply<B> {
    /// The reply's HTTP status.
    pub fn status(&self) -> (status: u16)
        ensures
            self is Success <==> status == 200,
            self is NotFound <==> status == 404,
            self is Failure <==> status == 500,
    {
        match self {
            Reply::Success(_) => 200,
            Reply::NotFound(_) => 404,
            Reply::Failure(_) => 500,
        }
    }
}

/// Whether a reply reports this error of the store.
pub open spec fn reports<B>(reply: Reply<B>, error: StoreError) -> bool {
    reply matches Reply::Failure(body) && body.error@ == crate::store::store_error_message(error)
}

/// Whether a reply reports some error of the store.
pub open spec fn reports_an_error<B>(reply: Reply<B>) -> bool {
    exists|error: StoreError| reports(reply, error)
}

/// The reply that reports an error of the store.
pub fn report<B>(error: StoreError) -> (reply: Reply<B>)
    ensures
        reports(reply, error),
{
    Reply::Failure(ErrorResponse { error: error.to_string() })
}

/// What `GET /catalog` asks the store for.
pub open spec fn requested(node_id: Option<Seq<char>>) -> CatalogQueryView {
    CatalogQueryView { origin_node: node_id, offset: 0, limit: None }
}

/// Whether `found` is what a cache returned to this query.
pub open spec fn store_returned<C: CatalogCache>(
    cache: C,
    query: CatalogQueryView,
    found: StoreResult<Vec<Catalog>>,
) -> bool {
    exists|asked: CatalogQuery|
        asked@ == query && #[trigger] call_ensures(C::query, (&cache, asked), found)
}

/// Whether a reply lists what the store found, or reports its error.
pub open spec fn lists_found(
    reply: Reply<CatalogListResponse>,
    found: StoreResult<Vec<Catalog>>,
) -> bool {
    match found {
        Ok(catalogs) => reply == Reply::Success(CatalogListResponse { catalogs }),
        Err(error) => reports(reply, error),
    }
}

/// What `GET /catalog` answers, given what the store found.
pub fn list_reply(found: StoreResult<Vec<Catalog>>) -> (reply: Reply<CatalogListResponse>)
    ensures
        lists_found(reply, found),
{
    match found {
        Ok(catalogs) => Reply::Success(CatalogListResponse { catalogs }),
        Err(error) => report(error),
    }
}

/// `GET /catalog`: the stored catalogs, or only the given node's.
pub fn get_catalog<C: CatalogCache>(state: &AppState<C>, params: CatalogParams) -> (reply: Reply<
    CatalogListResponse,
>)
    ensures
        C::never_fails() ==> reply is Success,
        match reply {
            Reply::Success(body) => crate::store::answers(
                crate::catalog::catalog_views(body.catalogs@),
                state.cache.graphs(),
                requested(crate::catalog::optional_text(params.node_id)),
                |listing: Seq<CatalogView>| C::in_order(listing),
            ),
            Reply::NotFound(_) => false,
            Reply::Failure(_) => reports_an_error(reply),
        },
        exists|found: StoreResult<Vec<Catalog>>|
            {
                &&& #[trigger] store_returned(
                    state.cache,
                    requested(crate::catalog::optional_text(params.node_id)),
                    found,
                )
                &&& lists_found(reply, found)
            },
{
    let ghost wanted = requested(crate::catalog::optional_text(params.node_id));
    let query = match params.node_id {
        Some(node_id) => CatalogQuery::for_node(NodeId::new(node_id)),
        None => CatalogQuery::all(),
    };
    assert(query@ == wanted);
    let found = state.cache.query(query);
    assert(store_returned(state.cache, wanted, found));
    list_reply(found)
}

/// The datasets of a list of catalogs, catalog by catalog.
pub open spec fn all_datasets(catalogs: Seq<CatalogView>) -> Seq<DatasetView>
    decreases catalogs.len(),
{
    if catalogs.len() == 0 {
        Seq::empty()
    } else {
        all_datasets(catalogs.drop_last()) + catalogs.last().datasets
    }
}

/// The data services of a list of catalogs, catalog by catalog.
pub open spec fn all_data_services(catalogs: Seq<CatalogView>) -> Seq<DataServiceView>
    decreases catalogs.len(),
{
    if catalogs.len() == 0 {
        Seq::empty()
    } else {
        all_data_services(catalogs.drop_last()) + catalogs.last().data_services
    }
}

/// The datasets and data services of a list of catalogs.
pub fn flatten(catalogs: Vec<Catalog>) -> (flattened: (Vec<Dataset>, Vec<DataService>))
    ensures
        crate::catalog::dataset_views(flattened.0@) == all_datasets(
            crate::catalog::catalog_views(catalogs@),
        ),
        crate::catalog::data_service_views(flattened.1@) == all_data_services(
            crate::catalog::catalog_views(catalogs@),
        ),
{
    let ghost all = crate::catalog::catalog_views(catalogs@);
    let mut datasets: Vec<Dataset> = Vec::new();
    let mut services: Vec<DataService> = Vec::new();
    assert(crate::catalog::dataset_views(datasets@) =~= Seq::<DatasetView>::empty());
    assert(crate::catalog::data_service_views(services@) =~= Seq::<DataServiceView>::empty());
    for catalog in it: catalogs
        invariant
            it.seq() == catalogs@,
            all == crate::catalog::catalog_views(catalogs@),
            crate::catalog::dataset_views(datasets@) == all_datasets(all.take(it.index())),
            crate::catalog::data_service_views(services@) == all_data_services(
                all.take(it.index()),
            ),
    {
        let ghost datasets_before = crate::catalog::dataset_views(datasets@);
        let ghost services_before = crate::catalog::data_service_views(services@);
        let ghost i = it.index();
        let mut more_datasets = catalog.datasets;
        let mut more_services = catalog.data_services;
        datasets.append(&mut more_datasets);
        services.append(&mut more_services);
        assert(all.take(i + 1).drop_last() =~= all.take(i));
        assert(crate::catalog::dataset_views(datasets@) =~= datasets_before + catalog@.datasets);
        assert(crate::catalog::data_service_views(services@) =~= services_before
            + catalog@.data_services);
    }
    assert(all.take(all.len() as int) =~= all);
    (datasets, services)
}

/// Whether `flattened` holds the datasets and data services of the catalogs
/// that the store found, or the error that it reported.
pub open spec fn flattens(
    flattened: StoreResult<(Vec<Dataset>, Vec<DataService>)>,
    found: StoreResult<Vec<Catalog>>,
) -> bool {
    match found {
        Ok(catalogs) => flattened matches Ok((datasets, services)) && {
            &&& crate::catalog::dataset_views(datasets@) == all_datasets(
                crate::catalog::catalog_views(catalogs@),
            )
            &&& crate::catalog::data_service_views(services@) == all_data_services(
                crate::catalog::catalog_views(catalogs@),
            )
        },
        Err(error) => flattened == Err::<(Vec<Dataset>, Vec<DataService>), StoreError>(error),
    }
}

/// The datasets and data services of the catalogs that the store found, or the
/// error that it reported.
pub fn flatten_found(found: StoreResult<Vec<Catalog>>) -> (flattened: StoreResult<
    (Vec<Dataset>, Vec<DataService>),
>)
    ensures
        flattens(flattened, found),
{
    match found {
        Ok(catalogs) => Ok(flatten(catalogs)),
        Err(error) => Err(error),
    }
}

/// Whether `flattened` is what becomes of the query for everything in a cache.
pub open spec fn flattened_store<C: CatalogCache>(
    cache: C,
    flattened: StoreResult<(Vec<Dataset>, Vec<DataService>)>,
) -> bool {
    exists|found: StoreResult<Vec<Catalog>>| #[trigger]
        store_returned(cache, requested(None), found) && flattens(flattened, found)
}

/// Whether a cache may list its catalogs in this order when asked for all of
/// them.
pub open spec fn whole_listing<C: CatalogCache>(cache: C, listing: Seq<CatalogView>) -> bool {
    crate::store::lists(listing, cache.graphs(), None) && C::in_order(listing)
}

/// Flatten every dataset and data service out of every catalog currently in
/// the cache: this connector's aggregate view over all of them.
pub fn flatten_cache<C: CatalogCache>(cache: &C) -> (flattened: StoreResult<
    (Vec<Dataset>, Vec<DataService>),
>)
    ensures
        C::never_fails() ==> flattened is Ok,
        flattened matches Ok((datasets, services)) ==> exists|listing: Seq<CatalogView>|
            {
                &&& #[trigger] whole_listing(*cache, listing)
                &&& crate::catalog::dataset_views(datasets@) == all_datasets(listing)
                &&& crate::catalog::data_service_views(services@) == all_data_services(listing)
            },
        flattened_store(*cache, flattened),
{
    let query = CatalogQuery::all();
    assert(query@ == requested(None));
    let found = cache.query(query);
    proof {
        assert(store_returned(*cache, requested(None), found));
        if let Ok(catalogs) = &found {
            let views = crate::catalog::catalog_views(catalogs@);
            let listing = choose|listing: Seq<CatalogView>|
                {
                    &&& #[trigger] crate::store::lists(listing, cache.graphs(), None)
                    &&& C::in_order(listing)
                    &&& views == crate::store::page(listing, 0, None)
                };
            assert(listing.skip(0) =~= listing);
            assert(whole_listing(*cache, views));
        }
    }
    flatten_found(found)
}

/// Whether a document is this connector's catalog of these datasets and
/// services, under fresh ids.
pub open spec fn federated_catalog(
    document: crate::dsp::DspCatalogView,
    datasets: Seq<DatasetView>,
    services: Seq<DataServiceView>,
) -> bool {
    &&& document == crate::dsp::dsp_catalog(
        document.id,
        crate::dsp::dsp_datasets(datasets, crate::dsp::offer_ids(document.dataset)),
        services.map_values(|service: DataServiceView| crate::dsp::dsp_data_service(service)),
    )
    &&& crate::ids::fresh_urn(document.id)
    &&& forall|i: int|
        0 <= i < document.dataset.len() ==> crate::ids::fresh_urn(
            #[trigger] crate::dsp::offer_ids(document.dataset)[i],
        )
}

/// Whether a reply serves the catalog document of the flattened cache, or
/// reports the store's error.
pub open spec fn serves_catalog(
    reply: Reply<DspCatalog>,
    flattened: StoreResult<(Vec<Dataset>, Vec<DataService>)>,
) -> bool {
    match flattened {
        Ok((datasets, services)) => reply matches Reply::Success(body) && federated_catalog(
            body@,
            crate::catalog::dataset_views(datasets@),
            crate::catalog::data_service_views(services@),
        ),
        Err(error) => reports(reply, error),
    }
}

/// What `POST /dsp/catalog/request` answers, given the flattened cache.
pub fn catalog_reply(flattened: StoreResult<(Vec<Dataset>, Vec<DataService>)>) -> (reply: Reply<
    DspCatalog,
>)
    ensures
        serves_catalog(reply, flattened),
{
    match flattened {
        Ok((datasets, services)) => Reply::Success(
            DspCatalog::with_id(
                new_urn_uuid(),
                datasets_to_dsp(datasets),
                data_services_to_dsp(services),
            ),
        ),
        Err(error) => report(error),
    }
}

/// `POST /dsp/catalog/request`: the whole flattened catalog. Never a 404,
/// even when the cache is empty.
pub fn catalog_request<C: CatalogCache>(state: &AppState<C>) -> (reply: Reply<DspCatalog>)
    ensures
        C::never_fails() ==> reply is Success,
        match reply {
            Reply::Success(body) => exists|listing: Seq<CatalogView>|
                {
                    &&& #[trigger] whole_listing(state.cache, listing)
                    &&& federated_catalog(
                        body@,
                        all_datasets(listing),
                        all_data_services(listing),
                    )
                },
            Reply::NotFound(_) => false,
            Reply::Failure(_) => reports_an_error(reply),
        },
        exists|flattened: StoreResult<(Vec<Dataset>, Vec<DataService>)>| #[trigger]
            flattened_store(state.cache, flattened) && serves_catalog(reply, flattened),
{
    catalog_reply(flatten_cache(&state.cache))
}

/// The first dataset with this id.
pub open spec fn first_dataset(datasets: Seq<DatasetView>, id: Seq<char>) -> Option<DatasetView>
    decreases datasets.len(),
{
    if datasets.len() == 0 {
        None
    } else if datasets[0].id == id {
        Some(datasets[0])
    } else {
        first_dataset(datasets.skip(1), id)
    }
}

/// The first dataset with this id.
pub fn find_dataset(datasets: Vec<Dataset>, id: &str) -> (found: Option<Dataset>)
    ensures
        match found {
            Some(dataset) => first_dataset(crate::catalog::dataset_views(datasets@), id@) == Some(
                dataset@,
            ),
            None => first_dataset(crate::catalog::dataset_views(datasets@), id@) is None,
        },
{
    let ghost all = crate::catalog::dataset_views(datasets@);
    assert(all.skip(0) =~= all);
    for dataset in it: datasets
        invariant
            it.seq() == datasets@,
            all == crate::catalog::dataset_views(datasets@),
            first_dataset(all, id@) == first_dataset(all.skip(it.index()), id@),
    {
        let ghost i = it.index();
        assert(all.skip(i)[0] == dataset@);
        if same_text(dataset.id.as_str(), id) {
            return Some(dataset);
        }
        assert(all.skip(i).skip(1) =~= all.skip(i + 1));
    }
    None
}

/// Whether a reply serves the dataset with this id out of the given ones: as
/// a document of its own under a fresh offer, or as not found.
pub open spec fn serves_dataset(
    reply: Reply<DspDataset>,
    datasets: Seq<DatasetView>,
    id: Seq<char>,
) -> bool {
    match first_dataset(datasets, id) {
        Some(dataset) => reply matches Reply::Success(body) && {
            &&& body@ == crate::dsp::root_document(
                crate::dsp::dsp_dataset(
                    dataset,
                    crate::dsp::use_offer(body@.has_policy[0].id),
                ),
            )
            &&& crate::ids::fresh_urn(body@.has_policy[0].id)
        },
        None => reply matches Reply::NotFound(body) && {
            &&& body@ == crate::dsp::not_found_error(body@.id)
            &&& crate::ids::fresh_urn(body@.id)
        },
    }
}

/// Whether a reply serves the dataset with this id out of the flattened cache,
/// or reports the store's error.
pub open spec fn answers_lookup(
    reply: Reply<DspDataset>,
    flattened: StoreResult<(Vec<Dataset>, Vec<DataService>)>,
    id: Seq<char>,
) -> bool {
    match flattened {
        Ok((datasets, _)) => serves_dataset(
            reply,
            crate::catalog::dataset_views(datasets@),
            id,
        ),
        Err(error) => reports(reply, error),
    }
}

/// What `GET /dsp/catalog/datasets/{id}` answers, given the flattened cache.
pub fn dataset_reply(
    flattened: StoreResult<(Vec<Dataset>, Vec<DataService>)>,
    id: &str,
) -> (reply: Reply<DspDataset>)
    ensures
        answers_lookup(reply, flattened, id@),
{
    match flattened {
        Ok((datasets, _)) => match find_dataset(datasets, id) {
            Some(dataset) => Reply::Success(DspDataset::from(dataset).into_document()),
            None => Reply::NotFound(DspCatalogError::not_found()),
        },
        Err(error) => report(error),
    }
}

/// `GET /dsp/catalog/datasets/{id}`: one dataset out of the same flattened
/// view that [`catalog_request`] serves.
pub fn get_dsp_dataset<C: CatalogCache>(state: &AppState<C>, id: &str) -> (reply: Reply<DspDataset>)
    ensures
        C::never_fails() ==> !(reply is Failure),
        !(reply is Failure) ==> exists|listing: Seq<CatalogView>|
            {
                &&& #[trigger] whole_listing(state.cache, listing)
                &&& serves_dataset(reply, all_datasets(listing), id@)
            },
        reply is Failure ==> reports_an_error(reply),
        exists|flattened: StoreResult<(Vec<Dataset>, Vec<DataService>)>| #[trigger]
            flattened_store(state.cache, flattened) && answers_lookup(reply, flattened, id@),
{
    dataset_reply(flatten_cache(&state.cache), id)
}

} // verus!
