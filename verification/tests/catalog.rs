use federated_catalog::catalog::{
    Catalog, CrawlWorkItem, DataService, Dataset, Distribution, NodeId, TargetNode,
};
use std::collections::BTreeMap;

#[test]
fn catalog_new_has_empty_collections() {
    let cat = Catalog::new("cat-1", NodeId::new("node-1"));
    assert_eq!(cat.id, "cat-1");
    assert_eq!(cat.origin_node, NodeId::new("node-1"));
    assert!(cat.datasets.is_empty());
    assert!(cat.data_services.is_empty());
}

#[test]
fn catalog_new_has_no_participant_and_no_properties() {
    let cat = Catalog::new("cat-1".to_string(), NodeId::new("node-1".to_string()));
    assert_eq!(cat.participant_id, None);
    assert!(cat.properties.is_empty());
}

#[test]
fn crawl_work_item_starts_at_zero_retries() {
    let node = TargetNode {
        id: NodeId::new("node-1"),
        name: "node-1".into(),
        target_url: "https://example.org/dsp".into(),
        supported_protocols: vec!["dataspace-protocol-http".into()],
    };
    let item = CrawlWorkItem::new(node);
    assert_eq!(item.retries, 0);
}

#[test]
fn crawl_work_item_keeps_its_node() {
    let node = TargetNode {
        id: NodeId::new("node-1"),
        name: "first".into(),
        target_url: "https://example.org/dsp".into(),
        supported_protocols: vec!["a".into(), "b".into()],
    };
    let item = CrawlWorkItem::new(node);
    assert_eq!(item.node.id.to_string(), "node-1");
    assert_eq!(item.node.name, "first");
    assert_eq!(item.node.target_url, "https://example.org/dsp");
    assert_eq!(item.node.supported_protocols, vec!["a".to_string(), "b".to_string()]);
}

#[test]
fn node_id_display_matches_inner_string() {
    let id = NodeId::new("abc");
    assert_eq!(id.to_string(), "abc");
}

#[test]
fn clones_are_equal() {
    let mut properties = BTreeMap::new();
    properties.insert("k".to_string(), "v".to_string());
    let catalog = Catalog {
        id: "cat".to_string(),
        origin_node: NodeId::new("node"),
        participant_id: Some("did:web:example.org".to_string()),
        datasets: vec![Dataset {
            id: "ds".to_string(),
            properties: properties.clone(),
            distributions: vec![Distribution {
                format: "text/csv".to_string(),
                access_service: "svc".to_string(),
            }],
        }],
        data_services: vec![DataService {
            id: "svc".to_string(),
            endpoint_url: "https://example.org/dsp".to_string(),
            endpoint_description: None,
        }],
        properties,
    };
    assert_eq!(catalog.clone(), catalog);
}
