//! Domain types of the federated catalog: participants, crawl work, and the
//! catalogs, datasets and data services that participants advertise.
//!
//! Each type that travels through the store or the HTTP interface has a view
//! in which texts are character sequences and lists are sequences.

use std::collections::BTreeMap;
use vstd::prelude::*;

verus! {

/// `String::from(&str)`: the new string holds the same characters.
pub assume_specification<'a>[ <String as From<&'a str>>::from ](s: &str) -> (r: String)
    ensures
        r@ == s@,
;

/// `From` a type to itself: the argument, unchanged.
pub assume_specification<Any>[ <Any as From<Any>>::from ](value: Any) -> (r: Any)
    ensures
        r == value,
;

/// The characters of an optional text.
pub open spec fn optional_text(text: Option<String>) -> Option<Seq<char>> {
    match text {
        Some(text) => Some(text@),
        None => None,
    }
}

/// Identifier of a dataspace participant / crawl target node.
#[derive(Debug, PartialEq, Eq, PartialOrd, Ord, Hash)]
pub struct NodeId(pub String);

impl View for NodeId {
    type V = Seq<char>;

    open spec fn view(&self) -> Seq<char> {
        self.0@
    }
}

impl Clone for NodeId {
    fn clone(&self) -> (copy: NodeId)
        ensures
            copy@ == self@,
    {
        NodeId(self.0.clone())
    }
}

impl NodeId {
    /// The identifier whose text `id` converts into.
    pub fn new<S: Into<String>>(id: S) -> (node: NodeId)
        ensures
            call_ensures(<S as Into<String>>::into, (id,), node.0),
    {
        NodeId(id.into())
    }

    /// The identifier as text.
    pub fn to_string(&self) -> (text: String)
        ensures
            text@ == self@,
    {
        self.0.clone()
    }
}

/// A participant known to the crawler: enough to address it and pick a
/// protocol to speak.
#[derive(Debug, Clone, PartialEq, Eq)]
pub struct TargetNode {
    pub id: NodeId,
    pub name: String,
    pub target_url: String,
    pub supported_protocols: Vec<String>,
}

/// One unit of crawl work: a target node plus how many times it has already
/// been retried in the current cycle.
#[derive(Debug, Clone, PartialEq, Eq)]
pub struct CrawlWorkItem {
    pub node: TargetNode,
    pub retries: u32,
}

impl CrawlWorkItem {
    /// Work on `node` that has not been retried yet.
    pub fn new(node: TargetNode) -> (item: CrawlWorkItem)
        ensures
            item == (CrawlWorkItem { node, retries: 0 }),
    {
        CrawlWorkItem { node, retries: 0 }
    }
}

/// One concrete access method for a dataset: a data-plane endpoint plus the
/// format it serves.
#[derive(Debug, PartialEq, Eq)]
pub struct Distribution {
    pub format: String,
    pub access_service: String,
}

/// What a [`Distribution`] says.
pub struct DistributionView {
    pub format: Seq<char>,
    pub access_service: Seq<char>,
}

impl View for Distribution {
    type V = DistributionView;

    open spec fn view(&self) -> DistributionView {
        DistributionView { format: self.format@, access_service: self.access_service@ }
    }
}

impl Clone for Distribution {
    fn clone(&self) -> (copy: Distribution)
        ensures
            copy@ == self@,
    {
        Distribution { format: self.format.clone(), access_service: self.access_service.clone() }
    }
}

/// A dataspace protocol-facing description of a data service (e.g. a
/// connector's DSP endpoint).
#[derive(Debug, PartialEq, Eq)]
pub struct DataService {
    pub id: String,
    pub endpoint_url: String,
    pub endpoint_description: Option<String>,
}

/// What a [`DataService`] says.
pub struct DataServiceView {
    pub id: Seq<char>,
    pub endpoint_url: Seq<char>,
    pub endpoint_description: Option<Seq<char>>,
}

impl View for DataService {
    type V = DataServiceView;

    open spec fn view(&self) -> DataServiceView {
        DataServiceView {
            id: self.id@,
            endpoint_url: self.endpoint_url@,
            endpoint_description: optional_text(self.endpoint_description),
        }
    }
}

impl Clone for DataService {
    fn clone(&self) -> (copy: DataService)
        ensures
            copy@ == self@,
    {
        DataService {
            id: self.id.clone(),
            endpoint_url: self.endpoint_url.clone(),
            endpoint_description: self.endpoint_description.clone(),
        }
    }
}

/// One offered dataset: its id, arbitrary properties, and the distributions
/// it is available through.
#[derive(Debug, PartialEq, Eq)]
pub struct Dataset {
    pub id: String,
    pub properties: BTreeMap<String, String>,
    pub distributions: Vec<Distribution>,
}

/// What a [`Dataset`] says.
pub struct DatasetView {
    pub id: Seq<char>,
    pub properties: Map<String, String>,
    pub distributions: Seq<DistributionView>,
}

impl View for Dataset {
    type V = DatasetView;

    open spec fn view(&self) -> DatasetView {
        DatasetView {
            id: self.id@,
            properties: self.properties@,
            distributions: distribution_views(self.distributions@),
        }
    }
}

impl Clone for Dataset {
    fn clone(&self) -> (copy: Dataset)
        ensures
            copy@ == self@,
    {
        let distributions = self.distributions.clone();
        assert(distribution_views(distributions@) =~= distribution_views(self.distributions@));
        Dataset { id: self.id.clone(), properties: self.properties.clone(), distributions }
    }
}

/// A crawled catalog: one participant's advertised datasets and data
/// services, as fetched by a single crawl of `origin_node`.
#[derive(Debug, PartialEq, Eq)]
pub struct Catalog {
    pub id: String,
    pub origin_node: NodeId,
    pub participant_id: Option<String>,
    pub datasets: Vec<Dataset>,
    pub data_services: Vec<DataService>,
    pub properties: BTreeMap<String, String>,
}

/// What a [`Catalog`] says.
pub struct CatalogView {
    pub id: Seq<char>,
    pub origin_node: Seq<char>,
    pub participant_id: Option<Seq<char>>,
    pub datasets: Seq<DatasetView>,
    pub data_services: Seq<DataServiceView>,
    pub properties: Map<String, String>,
}

impl View for Catalog {
    type V = CatalogView;

    open spec fn view(&self) -> CatalogView {
        CatalogView {
            id: self.id@,
            origin_node: self.origin_node@,
            participant_id: optional_text(self.participant_id),
            datasets: dataset_views(self.datasets@),
            data_services: data_service_views(self.data_services@),
            properties: self.properties@,
        }
    }
}

impl Clone for Catalog {
    fn clone(&self) -> (copy: Catalog)
        ensures
            copy@ == self@,
    {
        let datasets = self.datasets.clone();
        let data_services = self.data_services.clone();
        assert(dataset_views(datasets@) =~= dataset_views(self.datasets@));
        assert(data_service_views(data_services@) =~= data_service_views(self.data_services@));
        Catalog {
            id: self.id.clone(),
            origin_node: self.origin_node.clone(),
            participant_id: self.participant_id.clone(),
            datasets,
            data_services,
            properties: self.properties.clone(),
        }
    }
}

impl Catalog {
    /// A catalog from `origin_node` that advertises nothing.
    pub fn new<S: Into<String>>(id: S, origin_node: NodeId) -> (catalog: Catalog)
        ensures
            call_ensures(<S as Into<String>>::into, (id,), catalog.id),
            catalog@ == empty_catalog(catalog.id@, origin_node@),
    {
        let catalog = Catalog {
            id: id.into(),
            origin_node,
            participant_id: None,
            datasets: Vec::new(),
            data_services: Vec::new(),
            properties: BTreeMap::new(),
        };
        assert(catalog@.datasets =~= Seq::<DatasetView>::empty());
        assert(catalog@.data_services =~= Seq::<DataServiceView>::empty());
        catalog
    }
}

/// The catalog with this id and origin that advertises nothing.
pub open spec fn empty_catalog(id: Seq<char>, origin_node: Seq<char>) -> CatalogView {
    CatalogView {
        id,
        origin_node,
        participant_id: None,
        datasets: Seq::empty(),
        data_services: Seq::empty(),
        properties: Map::empty(),
    }
}

/// The views of a list of distributions.
pub open spec fn distribution_views(distributions: Seq<Distribution>) -> Seq<DistributionView> {
    distributions.map_values(|distribution: Distribution| distribution@)
}

/// The views of a list of datasets.
pub open spec fn dataset_views(datasets: Seq<Dataset>) -> Seq<DatasetView> {
    datasets.map_values(|dataset: Dataset| dataset@)
}

/// The views of a list of data services.
pub open spec fn data_service_views(services: Seq<DataService>) -> Seq<DataServiceView> {
    services.map_values(|service: DataService| service@)
}

/// The views of a list of catalogs.
pub open spec fn catalog_views(catalogs: Seq<Catalog>) -> Seq<CatalogView> {
    catalogs.map_values(|catalog: Catalog| catalog@)
}

} // verus!
