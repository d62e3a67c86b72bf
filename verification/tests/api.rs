use federated_catalog::api::{
    catalog_reply, catalog_request, dataset_reply, flatten, flatten_found, get_catalog,
    get_dsp_dataset, health, list_reply, seed_sample_catalog, AppState, CatalogListResponse,
    CatalogParams, Reply,
};
use federated_catalog::catalog::{Catalog, DataService, Dataset, Distribution, NodeId};
use federated_catalog::dsp::{
    dspace_version, placeholder_offer, DspCatalog, DspCatalogError, DspDataService, DspDataset,
    DspDistribution, DspOffer, CONNECTOR_PARTICIPANT_ID, DSP_CONTEXT_URL,
};
use federated_catalog::memory::InMemoryCatalogCache;
use federated_catalog::store::{CatalogCache, StoreError};

fn test_state() -> AppState<InMemoryCatalogCache> {
    AppState::new(InMemoryCatalogCache::new())
}

fn listed(reply: Reply<CatalogListResponse>) -> Vec<Catalog> {
    match reply {
        Reply::Success(body) => body.catalogs,
        _ => panic!("no list was served"),
    }
}

fn dataset(id: &str) -> Dataset {
    Dataset { id: id.to_string(), properties: Default::default(), distributions: Vec::new() }
}

fn service(id: &str) -> DataService {
    DataService {
        id: id.to_string(),
        endpoint_url: format!("https://{id}.example.org"),
        endpoint_description: None,
    }
}

fn is_urn_uuid_v4(text: &str) -> bool {
    let Some(uuid) = text.strip_prefix("urn:uuid:") else {
        return false;
    };
    let bytes = uuid.as_bytes();
    bytes.len() == 36
        && bytes.iter().enumerate().all(|(i, b)| match i {
            8 | 13 | 18 | 23 => *b == b'-',
            14 => *b == b'4',
            19 => matches!(*b, b'8' | b'9' | b'a' | b'b'),
            _ => b.is_ascii_digit() || (b'a'..=b'f').contains(b),
        })
}

#[test]
fn health_returns_ok() {
    assert_eq!(health().status, "ok");
}

#[test]
fn catalog_endpoint_returns_empty_list_when_cache_is_empty() {
    let reply = get_catalog(&test_state(), CatalogParams { node_id: None });
    assert_eq!(reply.status(), 200);
    assert!(listed(reply).is_empty());
}

#[test]
fn catalog_endpoint_returns_upserted_catalog() {
    let mut state = test_state();
    let node = NodeId::new("node-1");
    state.cache.upsert(Catalog::new("cat-1", node.clone())).unwrap();

    let reply = get_catalog(&state, CatalogParams { node_id: Some("node-1".to_string()) });
    assert_eq!(reply.status(), 200);
    let catalogs = listed(reply);
    assert_eq!(catalogs.len(), 1);
    assert_eq!(catalogs[0].id, "cat-1");
}

#[test]
fn catalog_endpoint_serves_seeded_sample_catalog() {
    let mut state = test_state();
    seed_sample_catalog(&mut state.cache).unwrap();

    let reply = get_catalog(
        &state,
        CatalogParams { node_id: Some("sample-participant".to_string()) },
    );
    assert_eq!(reply.status(), 200);
    let catalogs = listed(reply);
    assert_eq!(catalogs.len(), 1);
    let catalog = &catalogs[0];
    assert_eq!(catalog.id, "sample-catalog");
    assert_eq!(catalog.origin_node, NodeId::new("sample-participant"));
    assert_eq!(catalog.datasets.len(), 1);
    assert_eq!(catalog.datasets[0].id, "sample-dataset");
    assert_eq!(catalog.data_services.len(), 1);
}

#[test]
fn seeded_sample_catalog_is_complete() {
    let mut state = test_state();
    seed_sample_catalog(&mut state.cache).unwrap();
    let catalogs = listed(get_catalog(&state, CatalogParams { node_id: None }));
    assert_eq!(
        catalogs,
        vec![Catalog {
            id: "sample-catalog".to_string(),
            origin_node: NodeId::new("sample-participant"),
            participant_id: Some("did:example:sample-participant".to_string()),
            datasets: vec![Dataset {
                id: "sample-dataset".to_string(),
                properties: Default::default(),
                distributions: vec![Distribution {
                    format: "application/json".to_string(),
                    access_service: "sample-data-service".to_string(),
                }],
            }],
            data_services: vec![DataService {
                id: "sample-data-service".to_string(),
                endpoint_url: "https://sample.example.org/dsp".to_string(),
                endpoint_description: Some("dataspace-protocol-http:1.0".to_string()),
            }],
            properties: Default::default(),
        }]
    );
}

#[test]
fn catalog_endpoint_filters_by_unknown_node_id() {
    let mut state = test_state();
    state.cache.upsert(Catalog::new("cat-1", NodeId::new("node-1"))).unwrap();

    let reply = get_catalog(&state, CatalogParams { node_id: Some("does-not-exist".to_string()) });
    assert_eq!(reply.status(), 200);
    assert!(listed(reply).is_empty());
}

fn down() -> StoreError {
    StoreError::Backend("down".to_string())
}

#[test]
fn backend_errors_are_reported_as_server_errors() {
    let list = list_reply(Err(down()));
    assert_eq!(list.status(), 500);
    match list {
        Reply::Failure(body) => assert_eq!(body.error, "catalog store backend error: down"),
        _ => panic!("no failure was reported"),
    }
    let catalog = catalog_reply(Err(down()));
    assert_eq!(catalog.status(), 500);
    match catalog {
        Reply::Failure(body) => assert_eq!(body.error, "catalog store backend error: down"),
        _ => panic!("no failure was reported"),
    }
    let found = dataset_reply(Err(down()), "any");
    assert_eq!(found.status(), 500);
    match found {
        Reply::Failure(body) => assert_eq!(body.error, "catalog store backend error: down"),
        _ => panic!("no failure was reported"),
    }
}

#[test]
fn dspace_version_names_one_protocol_version() {
    let versions = dspace_version().protocol_versions;
    assert_eq!(versions.len(), 1);
    assert_eq!(versions[0].version, "2025-1");
    assert_eq!(versions[0].path, "/dsp");
    assert_eq!(versions[0].binding, "HTTPS");
}

#[test]
fn flatten_keeps_datasets_and_services_catalog_by_catalog() {
    let mut first = Catalog::new("cat-1", NodeId::new("node-1"));
    first.datasets.push(dataset("a"));
    first.datasets.push(dataset("b"));
    first.data_services.push(service("s"));
    let mut second = Catalog::new("cat-2", NodeId::new("node-2"));
    second.datasets.push(dataset("c"));
    second.data_services.push(service("t"));
    let (datasets, services) = flatten(vec![first, second]);
    let dataset_ids: Vec<String> = datasets.into_iter().map(|d| d.id).collect();
    let service_ids: Vec<String> = services.into_iter().map(|s| s.id).collect();
    assert_eq!(dataset_ids, vec!["a", "b", "c"]);
    assert_eq!(service_ids, vec!["s", "t"]);
}

#[test]
fn flatten_hands_on_what_the_store_gave() {
    match flatten_found(Err(down())) {
        Err(error) => assert_eq!(error.to_string(), "catalog store backend error: down"),
        Ok(_) => panic!("the error was lost"),
    }
    let mut catalog = Catalog::new("cat-1", NodeId::new("node-1"));
    catalog.datasets.push(dataset("a"));
    catalog.datasets.push(dataset("a"));
    match flatten_found(Ok(vec![catalog])) {
        Ok((datasets, services)) => {
            assert_eq!(datasets, vec![dataset("a"), dataset("a")]);
            assert!(services.is_empty());
        }
        Err(error) => panic!("{}", error.to_string()),
    }
}

fn served_catalog(state: &AppState<InMemoryCatalogCache>) -> DspCatalog {
    let reply = catalog_request(state);
    assert_eq!(reply.status(), 200);
    match reply {
        Reply::Success(body) => body,
        _ => panic!("no catalog was served"),
    }
}

#[test]
fn catalog_request_serves_an_empty_catalog_from_an_empty_cache() {
    let body = served_catalog(&test_state());
    assert_eq!(body.context, vec!["https://w3id.org/dspace/2025/1/context.jsonld"]);
    assert!(is_urn_uuid_v4(&body.id));
    assert_eq!(body.ld_type, "Catalog");
    assert_eq!(body.participant_id, "urn:connector:federated-catalog-rs");
    assert!(body.dataset.is_empty());
    assert!(body.service.is_empty());
}

#[test]
fn catalog_request_offers_every_dataset_under_one_fresh_offer() {
    let mut state = test_state();
    seed_sample_catalog(&mut state.cache).unwrap();
    let mut other = Catalog::new("a-catalog", NodeId::new("other"));
    other.datasets.push(dataset("other-dataset"));
    state.cache.upsert(other).unwrap();

    let body = served_catalog(&state);
    assert_eq!(body.dataset.len(), 2);
    assert_eq!(body.dataset[0].id, "other-dataset");
    assert_eq!(body.dataset[1].id, "sample-dataset");
    for dataset in &body.dataset {
        assert!(dataset.context.is_none());
        assert_eq!(dataset.ld_type, "Dataset");
        assert_eq!(dataset.has_policy.len(), 1);
        let offer = &dataset.has_policy[0];
        assert!(is_urn_uuid_v4(&offer.id));
        assert_eq!(offer.ld_type, "Offer");
        assert_eq!(offer.permission.len(), 1);
        assert_eq!(offer.permission[0].ld_type, "Permission");
        assert_eq!(offer.permission[0].action, "http://www.w3.org/ns/odrl/2/use");
    }
    assert_ne!(body.dataset[0].has_policy[0].id, body.dataset[1].has_policy[0].id);
    let distribution = &body.dataset[1].distribution[0];
    assert_eq!(distribution.ld_type, "Distribution");
    assert_eq!(distribution.format, "application/json");
    assert_eq!(distribution.access_service, "sample-data-service");
    assert_eq!(body.service.len(), 1);
    assert_eq!(body.service[0].id, "sample-data-service");
    assert_eq!(body.service[0].ld_type, "DataService");
    assert_eq!(body.service[0].endpoint_url, "https://sample.example.org/dsp");
}

#[test]
fn get_dsp_dataset_serves_a_framed_document() {
    let mut state = test_state();
    seed_sample_catalog(&mut state.cache).unwrap();
    let reply = get_dsp_dataset(&state, "sample-dataset");
    assert_eq!(reply.status(), 200);
    match reply {
        Reply::Success(body) => {
            assert_eq!(body.context, Some(vec![DSP_CONTEXT_URL.to_string()]));
            assert_eq!(body.id, "sample-dataset");
            assert_eq!(body.has_policy.len(), 1);
            assert_eq!(body.distribution.len(), 1);
        }
        _ => panic!("no dataset was served"),
    }
}

#[test]
fn get_dsp_dataset_answers_unknown_ids_with_a_catalog_error() {
    let mut state = test_state();
    seed_sample_catalog(&mut state.cache).unwrap();
    let reply = get_dsp_dataset(&state, "no-such-dataset");
    assert_eq!(reply.status(), 404);
    match reply {
        Reply::NotFound(body) => {
            assert_eq!(body.context, vec![DSP_CONTEXT_URL.to_string()]);
            assert!(is_urn_uuid_v4(&body.id));
            assert_eq!(body.ld_type, "CatalogError");
            assert_eq!(body.code, "NOT_FOUND");
        }
        _ => panic!("no error was served"),
    }
}

#[test]
fn the_first_of_two_datasets_with_one_id_is_served() {
    let mut first = dataset("twin");
    first.distributions.push(Distribution {
        format: "first".to_string(),
        access_service: "s".to_string(),
    });
    match dataset_reply(Ok((vec![dataset("x"), first, dataset("twin")], Vec::new())), "twin") {
        Reply::Success(body) => {
            assert_eq!(body.distribution.len(), 1);
            assert_eq!(body.distribution[0].format, "first");
        }
        _ => panic!("no dataset was served"),
    }
}

#[test]
fn every_listed_dataset_can_be_looked_up() {
    let mut state = test_state();
    for i in 0..3 {
        let mut catalog = Catalog::new(format!("cat-{i}"), NodeId::new(format!("node-{i}")));
        catalog.datasets.push(dataset(&format!("ds-{i}")));
        state.cache.upsert(catalog).unwrap();
    }
    let body = served_catalog(&state);
    assert_eq!(body.dataset.len(), 3);
    for listed in &body.dataset {
        assert_eq!(get_dsp_dataset(&state, &listed.id).status(), 200);
    }
}

#[test]
fn conversions_to_dsp_keep_the_fields() {
    let distribution = DspDistribution::from(Distribution {
        format: "f".to_string(),
        access_service: "s".to_string(),
    });
    assert_eq!(distribution.ld_type, "Distribution");
    assert_eq!(distribution.format, "f");
    assert_eq!(distribution.access_service, "s");
    let converted = DspDataService::from(service("svc"));
    assert_eq!(converted.id, "svc");
    assert_eq!(converted.ld_type, "DataService");
    assert_eq!(converted.endpoint_url, "https://svc.example.org");
    let named = DspDataset::with_offer(dataset("ds"), DspOffer::with_id("offer-1".to_string()));
    assert_eq!(named.has_policy[0].id, "offer-1");
    let framed = named.into_document();
    assert_eq!(framed.context, Some(vec![DSP_CONTEXT_URL.to_string()]));
    assert_eq!(framed.id, "ds");
    let document = DspCatalog::with_id("urn:x".to_string(), Vec::new(), Vec::new());
    assert_eq!(document.id, "urn:x");
    assert_eq!(document.participant_id, CONNECTOR_PARTICIPANT_ID);
}

#[test]
fn fresh_ids_differ() {
    assert_ne!(placeholder_offer().id, placeholder_offer().id);
    assert_ne!(DspCatalogError::not_found().id, DspCatalogError::not_found().id);
}
