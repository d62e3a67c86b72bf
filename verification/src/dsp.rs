//! Documents of the Dataspace Protocol (DSP) 2025-1 catalog protocol.

use crate::catalog::{DataService, DataServiceView, Dataset, DatasetView};
use crate::catalog::{Distribution, DistributionView};
use crate::ids::new_urn_uuid;
use vstd::prelude::*;
use vstd::std_specs::convert::FromSpecImpl;

verus! {

pub const DSP_CONTEXT_URL: &'static str = "https://w3id.org/dspace/2025/1/context.jsonld";

/// This connector's own participant id, as advertised in DSP catalog
/// responses.
pub const CONNECTOR_PARTICIPANT_ID: &'static str = "urn:connector:federated-catalog-rs";

/// One protocol version that this connector speaks.
pub struct ProtocolVersionEntry {
    pub version: String,
    pub path: String,
    pub binding: String,
}

/// What a [`ProtocolVersionEntry`] says.
pub struct ProtocolVersionEntryView {
    pub version: Seq<char>,
    pub path: Seq<char>,
    pub binding: Seq<char>,
}

impl View for ProtocolVersionEntry {
    type V = ProtocolVersionEntryView;

    open spec fn view(&self) -> ProtocolVersionEntryView {
        ProtocolVersionEntryView {
            version: self.version@,
            path: self.path@,
            binding: self.binding@,
        }
    }
}

/// The connector metadata document.
pub struct DspaceVersionResponse {
    pub protocol_versions: Vec<ProtocolVersionEntry>,
}

impl View for DspaceVersionResponse {
    type V = Seq<ProtocolVersionEntryView>;

    open spec fn view(&self) -> Seq<ProtocolVersionEntryView> {
        self.protocol_versions@.map_values(|entry: ProtocolVersionEntry| entry@)
    }
}

/// `GET /.well-known/dspace-version`: the one protocol version spoken here.
pub fn dspace_version() -> (response: DspaceVersionResponse)
    ensures
        response@ == seq![
            ProtocolVersionEntryView { version: "2025-1"@, path: "/dsp"@, binding: "HTTPS"@ },
        ],
{
    let response = DspaceVersionResponse {
        protocol_versions: vec![
            ProtocolVersionEntry {
                version: "2025-1".to_owned(),
                path: "/dsp".to_owned(),
                binding: "HTTPS".to_owned(),
            },
        ],
    };
    assert(response@ =~= seq![
        ProtocolVersionEntryView { version: "2025-1"@, path: "/dsp"@, binding: "HTTPS"@ },
    ]);
    response
}

/// One thing that an offer permits.
pub struct DspPermission {
    pub ld_type: String,
    pub action: String,
}

/// What a [`DspPermission`] says.
pub struct DspPermissionView {
    pub ld_type: Seq<char>,
    pub action: Seq<char>,
}

impl View for DspPermission {
    type V = DspPermissionView;

    open spec fn view(&self) -> DspPermissionView {
        DspPermissionView { ld_type: self.ld_type@, action: self.action@ }
    }
}

/// The terms on which a dataset is offered.
pub struct DspOffer {
    pub id: String,
    pub ld_type: String,
    pub permission: Vec<DspPermission>,
}

/// What a [`DspOffer`] says.
pub struct DspOfferView {
    pub id: Seq<char>,
    pub ld_type: Seq<char>,
    pub permission: Seq<DspPermissionView>,
}

impl View for DspOffer {
    type V = DspOfferView;

    open spec fn view(&self) -> DspOfferView {
        DspOfferView {
            id: self.id@,
            ld_type: self.ld_type@,
            permission: self.permission@.map_values(|permission: DspPermission| permission@),
        }
    }
}

/// The default "use" offer under this id.
pub open spec fn use_offer(id: Seq<char>) -> DspOfferView {
    DspOfferView {
        id,
        ld_type: "Offer"@,
        permission: seq![
            DspPermissionView {
                ld_type: "Permission"@,
                action: "http://www.w3.org/ns/odrl/2/use"@,
            },
        ],
    }
}

impl DspOffer {
    /// The default "use" offer under the given id.
    pub fn with_id(id: String) -> (offer: DspOffer)
        ensures
            offer@ == use_offer(id@),
    {
        let offer = DspOffer {
            id,
            ld_type: "Offer".to_owned(),
            permission: vec![
                DspPermission {
                    ld_type: "Permission".to_owned(),
                    action: "http://www.w3.org/ns/odrl/2/use".to_owned(),
                },
            ],
        };
        assert(offer@.permission =~= use_offer(id@).permission);
        offer
    }
}

/// Synthesize a single default "use" offer for a dataset, under a fresh id.
///
/// A placeholder: datasets carry no policies of their own yet, and DSP
/// requires every dataset to have one.
pub fn placeholder_offer() -> (offer: DspOffer)
    ensures
        offer@ == use_offer(offer@.id),
        crate::ids::fresh_urn(offer@.id),
{
    DspOffer::with_id(new_urn_uuid())
}

/// A distribution, as DSP writes it.
pub struct DspDistribution {
    pub ld_type: String,
    pub format: String,
    pub access_service: String,
}

/// What a [`DspDistribution`] says.
pub struct DspDistributionView {
    pub ld_type: Seq<char>,
    pub format: Seq<char>,
    pub access_service: Seq<char>,
}

impl View for DspDistribution {
    type V = DspDistributionView;

    open spec fn view(&self) -> DspDistributionView {
        DspDistributionView {
            ld_type: self.ld_type@,
            format: self.format@,
            access_service: self.access_service@,
        }
    }
}

/// A distribution, in DSP's terms.
pub open spec fn dsp_distribution(distribution: DistributionView) -> DspDistributionView {
    DspDistributionView {
        ld_type: "Distribution"@,
        format: distribution.format,
        access_service: distribution.access_service,
    }
}

impl FromSpecImpl<Distribution> for DspDistribution {
    open spec fn obeys_from_spec() -> bool {
        false
    }

    open spec fn from_spec(distribution: Distribution) -> DspDistribution {
        arbitrary()
    }
}

impl From<Distribution> for DspDistribution {
    fn from(distribution: Distribution) -> (converted: DspDistribution)
        ensures
            converted@ == dsp_distribution(distribution@),
    {
        DspDistribution {
            ld_type: "Distribution".to_owned(),
            format: distribution.format,
            access_service: distribution.access_service,
        }
    }
}

/// The DSP form of a list of distributions.
fn distributions_to_dsp(list: Vec<Distribution>) -> (converted: Vec<DspDistribution>)
    ensures
        dsp_distribution_views(converted@) == crate::catalog::distribution_views(
            list@,
        ).map_values(|distribution: DistributionView| dsp_distribution(distribution)),
{
    let ghost expected = crate::catalog::distribution_views(list@).map_values(
        |distribution: DistributionView| dsp_distribution(distribution),
    );
    let mut converted: Vec<DspDistribution> = Vec::new();
    for distribution in it: list
        invariant
            it.seq() == list@,
            expected.len() == list@.len(),
            forall|i: int|
                0 <= i < list@.len() ==> #[trigger] expected[i] == dsp_distribution(list@[i]@),
            dsp_distribution_views(converted@) == expected.take(it.index()),
    {
        let ghost before = dsp_distribution_views(converted@);
        let ghost i = it.index();
        let entry = DspDistribution::from(distribution);
        converted.push(entry);
        assert(dsp_distribution_views(converted@) =~= before.push(entry@));
        assert(expected.take(i + 1) =~= expected.take(i).push(expected[i]));
    }
    assert(expected.take(expected.len() as int) =~= expected);
    converted
}

/// The views of a list of DSP distributions.
pub open spec fn dsp_distribution_views(list: Seq<DspDistribution>) -> Seq<DspDistributionView> {
    list.map_values(|distribution: DspDistribution| distribution@)
}

/// A DSP `Dataset` document. `context` is only present when it is a document
/// of its own; inside a catalog it is left out, since only the root of a
/// JSON-LD document is framed.
pub struct DspDataset {
    pub context: Option<Vec<String>>,
    pub id: String,
    pub ld_type: String,
    pub has_policy: Vec<DspOffer>,
    pub distribution: Vec<DspDistribution>,
}

/// What a [`DspDataset`] says.
pub struct DspDatasetView {
    pub context: Option<Seq<Seq<char>>>,
    pub id: Seq<char>,
    pub ld_type: Seq<char>,
    pub has_policy: Seq<DspOfferView>,
    pub distribution: Seq<DspDistributionView>,
}

impl View for DspDataset {
    type V = DspDatasetView;

    open spec fn view(&self) -> DspDatasetView {
        DspDatasetView {
            context: match self.context {
                Some(context) => Some(crate::text::texts(context@)),
                None => None,
            },
            id: self.id@,
            ld_type: self.ld_type@,
            has_policy: self.has_policy@.map_values(|offer: DspOffer| offer@),
            distribution: dsp_distribution_views(self.distribution@),
        }
    }
}

/// A dataset, in DSP's terms, under the given offer.
pub open spec fn dsp_dataset(dataset: DatasetView, offer: DspOfferView) -> DspDatasetView {
    DspDatasetView {
        context: None,
        id: dataset.id,
        ld_type: "Dataset"@,
        has_policy: seq![offer],
        distribution: dataset.distributions.map_values(
            |distribution: DistributionView| dsp_distribution(distribution),
        ),
    }
}

impl DspDataset {
    /// The DSP form of a dataset, under the given offer.
    pub fn with_offer(dataset: Dataset, offer: DspOffer) -> (converted: DspDataset)
        ensures
            converted@ == dsp_dataset(dataset@, offer@),
    {
        let ghost wanted = offer@;
        let converted = DspDataset {
            context: None,
            id: dataset.id,
            ld_type: "Dataset".to_owned(),
            has_policy: vec![offer],
            distribution: distributions_to_dsp(dataset.distributions),
        };
        assert(converted@.has_policy =~= seq![wanted]);
        converted
    }

    /// The same dataset as a document of its own.
    pub fn into_document(self) -> (document: DspDataset)
        ensures
            document@ == root_document(self@),
    {
        let document = DspDataset {
            context: Some(vec![DSP_CONTEXT_URL.to_owned()]),
            ..self
        };
        assert(document@.context->0 =~= seq![DSP_CONTEXT_URL@]);
        document
    }
}

/// A dataset framed as a document of its own.
pub open spec fn root_document(dataset: DspDatasetView) -> DspDatasetView {
    DspDatasetView { context: Some(seq![DSP_CONTEXT_URL@]), ..dataset }
}

impl FromSpecImpl<Dataset> for DspDataset {
    open spec fn obeys_from_spec() -> bool {
        false
    }

    open spec fn from_spec(dataset: Dataset) -> DspDataset {
        arbitrary()
    }
}

impl From<Dataset> for DspDataset {
    fn from(dataset: Dataset) -> (converted: DspDataset)
        ensures
            converted@ == dsp_dataset(dataset@, use_offer(converted@.has_policy[0].id)),
            crate::ids::fresh_urn(converted@.has_policy[0].id),
    {
        DspDataset::with_offer(dataset, placeholder_offer())
    }
}

/// A data service, as DSP writes it.
pub struct DspDataService {
    pub id: String,
    pub ld_type: String,
    pub endpoint_url: String,
}

/// What a [`DspDataService`] says.
pub struct DspDataServiceView {
    pub id: Seq<char>,
    pub ld_type: Seq<char>,
    pub endpoint_url: Seq<char>,
}

impl View for DspDataService {
    type V = DspDataServiceView;

    open spec fn view(&self) -> DspDataServiceView {
        DspDataServiceView {
            id: self.id@,
            ld_type: self.ld_type@,
            endpoint_url: self.endpoint_url@,
        }
    }
}

/// A data service, in DSP's terms.
pub open spec fn dsp_data_service(service: DataServiceView) -> DspDataServiceView {
    DspDataServiceView {
        id: service.id,
        ld_type: "DataService"@,
        endpoint_url: service.endpoint_url,
    }
}

impl FromSpecImpl<DataService> for DspDataService {
    open spec fn obeys_from_spec() -> bool {
        false
    }

    open spec fn from_spec(service: DataService) -> DspDataService {
        arbitrary()
    }
}

impl From<DataService> for DspDataService {
    fn from(service: DataService) -> (converted: DspDataService)
        ensures
            converted@ == dsp_data_service(service@),
    {
        DspDataService {
            id: service.id,
            ld_type: "DataService".to_owned(),
            endpoint_url: service.endpoint_url,
        }
    }
}

/// The views of a list of DSP datasets.
pub open spec fn dsp_dataset_views(list: Seq<DspDataset>) -> Seq<DspDatasetView> {
    list.map_values(|dataset: DspDataset| dataset@)
}

/// The views of a list of DSP data services.
pub open spec fn dsp_data_service_views(list: Seq<DspDataService>) -> Seq<DspDataServiceView> {
    list.map_values(|service: DspDataService| service@)
}

/// The offer ids under which a list of DSP datasets is offered.
pub open spec fn offer_ids(list: Seq<DspDatasetView>) -> Seq<Seq<char>> {
    list.map_values(|dataset: DspDatasetView| dataset.has_policy[0].id)
}

/// The DSP form of a list of datasets, each under its own offer id.
pub open spec fn dsp_datasets(datasets: Seq<DatasetView>, ids: Seq<Seq<char>>) -> Seq<
    DspDatasetView,
> {
    Seq::new(datasets.len(), |i: int| dsp_dataset(datasets[i], use_offer(ids[i])))
}

/// The DSP form of a list of datasets, under fresh offer ids.
pub fn datasets_to_dsp(list: Vec<Dataset>) -> (converted: Vec<DspDataset>)
    ensures
        dsp_dataset_views(converted@) == dsp_datasets(
            crate::catalog::dataset_views(list@),
            offer_ids(dsp_dataset_views(converted@)),
        ),
        forall|i: int|
            0 <= i < converted@.len() ==> crate::ids::fresh_urn(
                (#[trigger] offer_ids(dsp_dataset_views(converted@))[i]),
            ),
{
    let mut converted: Vec<DspDataset> = Vec::new();
    for dataset in it: list
        invariant
            it.seq() == list@,
            converted@.len() == it.index(),
            forall|i: int|
                0 <= i < converted@.len() ==> {
                    &&& (#[trigger] converted@[i])@ == dsp_dataset(
                        list@[i]@,
                        use_offer(converted@[i]@.has_policy[0].id),
                    )
                    &&& crate::ids::fresh_urn(converted@[i]@.has_policy[0].id)
                },
    {
        converted.push(DspDataset::from(dataset));
    }
    assert(dsp_dataset_views(converted@) =~= dsp_datasets(
        crate::catalog::dataset_views(list@),
        offer_ids(dsp_dataset_views(converted@)),
    ));
    converted
}

/// The DSP form of a list of data services.
pub fn data_services_to_dsp(list: Vec<DataService>) -> (converted: Vec<DspDataService>)
    ensures
        dsp_data_service_views(converted@) == crate::catalog::data_service_views(
            list@,
        ).map_values(|service: DataServiceView| dsp_data_service(service)),
{
    let mut converted: Vec<DspDataService> = Vec::new();
    for service in it: list
        invariant
            it.seq() == list@,
            converted@.len() == it.index(),
            forall|i: int|
                0 <= i < converted@.len() ==> (#[trigger] converted@[i])@ == dsp_data_service(
                    list@[i]@,
                ),
    {
        converted.push(DspDataService::from(service));
    }
    assert(dsp_data_service_views(converted@) =~= crate::catalog::data_service_views(
        list@,
    ).map_values(|service: DataServiceView| dsp_data_service(service)));
    converted
}

/// A DSP `Catalog` document.
pub struct DspCatalog {
    pub context: Vec<String>,
    pub id: String,
    pub ld_type: String,
    pub participant_id: String,
    pub dataset: Vec<DspDataset>,
    pub service: Vec<DspDataService>,
}

/// What a [`DspCatalog`] says.
pub struct DspCatalogView {
    pub context: Seq<Seq<char>>,
    pub id: Seq<char>,
    pub ld_type: Seq<char>,
    pub participant_id: Seq<char>,
    pub dataset: Seq<DspDatasetView>,
    pub service: Seq<DspDataServiceView>,
}

impl View for DspCatalog {
    type V = DspCatalogView;

    open spec fn view(&self) -> DspCatalogView {
        DspCatalogView {
            context: crate::text::texts(self.context@),
            id: self.id@,
            ld_type: self.ld_type@,
            participant_id: self.participant_id@,
            dataset: dsp_dataset_views(self.dataset@),
            service: dsp_data_service_views(self.service@),
        }
    }
}

/// This connector's catalog document with the given id, datasets and
/// services.
pub open spec fn dsp_catalog(
    id: Seq<char>,
    dataset: Seq<DspDatasetView>,
    service: Seq<DspDataServiceView>,
) -> DspCatalogView {
    DspCatalogView {
        context: seq![DSP_CONTEXT_URL@],
        id,
        ld_type: "Catalog"@,
        participant_id: CONNECTOR_PARTICIPANT_ID@,
        dataset,
        service,
    }
}

impl DspCatalog {
    /// This connector's catalog document.
    pub fn with_id(id: String, dataset: Vec<DspDataset>, service: Vec<DspDataService>) -> (catalog:
        DspCatalog)
        ensures
            catalog@ == dsp_catalog(
                id@,
                dsp_dataset_views(dataset@),
                dsp_data_service_views(service@),
            ),
    {
        let catalog = DspCatalog {
            context: vec![DSP_CONTEXT_URL.to_owned()],
            id,
            ld_type: "Catalog".to_owned(),
            participant_id: CONNECTOR_PARTICIPANT_ID.to_owned(),
            dataset,
            service,
        };
        assert(catalog@.context =~= seq![DSP_CONTEXT_URL@]);
        catalog
    }
}

/// A DSP `CatalogError` document.
pub struct DspCatalogError {
    pub context: Vec<String>,
    pub id: String,
    pub ld_type: String,
    pub code: String,
}

/// What a [`DspCatalogError`] says.
pub struct DspCatalogErrorView {
    pub context: Seq<Seq<char>>,
    pub id: Seq<char>,
    pub ld_type: Seq<char>,
    pub code: Seq<char>,
}

impl View for DspCatalogError {
    type V = DspCatalogErrorView;

    open spec fn view(&self) -> DspCatalogErrorView {
        DspCatalogErrorView {
            context: crate::text::texts(self.context@),
            id: self.id@,
            ld_type: self.ld_type@,
            code: self.code@,
        }
    }
}

/// The error document with this id that says a dataset was not found.
pub open spec fn not_found_error(id: Seq<char>) -> DspCatalogErrorView {
    DspCatalogErrorView {
        context: seq![DSP_CONTEXT_URL@],
        id,
        ld_type: "CatalogError"@,
        code: "NOT_FOUND"@,
    }
}

impl DspCatalogError {
    /// Says that a dataset was not found, under a fresh id.
    pub fn not_found() -> (error: DspCatalogError)
        ensures
            error@ == not_found_error(error@.id),
            crate::ids::fresh_urn(error@.id),
    {
        let error = DspCatalogError {
            context: vec![DSP_CONTEXT_URL.to_owned()],
            id: new_urn_uuid(),
            ld_type: "CatalogError".to_owned(),
            code: "NOT_FOUND".to_owned(),
        };
        assert(error@.context =~= seq![DSP_CONTEXT_URL@]);
        error
    }
}

} // verus!
