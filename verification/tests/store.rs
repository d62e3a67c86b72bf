use federated_catalog::catalog::{Catalog, NodeId};
use federated_catalog::memory::InMemoryCatalogCache;
use federated_catalog::store::{CatalogCache, CatalogQuery, StoreError};

fn sample_catalog(node: &str, id: &str) -> Catalog {
    Catalog::new(id, NodeId::new(node))
}

fn ids(catalogs: &[Catalog]) -> Vec<String> {
    catalogs.iter().map(|catalog| catalog.id.clone()).collect()
}

#[test]
fn upsert_then_query_all_returns_it() {
    let mut cache = InMemoryCatalogCache::new();
    cache.upsert(sample_catalog("node-1", "cat-1")).unwrap();

    let results = cache.query(CatalogQuery::all()).unwrap();
    assert_eq!(results.len(), 1);
    assert_eq!(results[0].id, "cat-1");
}

#[test]
fn upsert_replaces_prior_catalog_for_same_node() {
    let mut cache = InMemoryCatalogCache::new();
    cache.upsert(sample_catalog("node-1", "cat-1")).unwrap();
    cache.upsert(sample_catalog("node-1", "cat-2")).unwrap();

    let results = cache.query(CatalogQuery::all()).unwrap();
    assert_eq!(results.len(), 1);
    assert_eq!(results[0].id, "cat-2");
}

#[test]
fn query_for_node_filters_by_origin() {
    let mut cache = InMemoryCatalogCache::new();
    cache.upsert(sample_catalog("node-1", "cat-1")).unwrap();
    cache.upsert(sample_catalog("node-2", "cat-2")).unwrap();

    let results = cache.query(CatalogQuery::for_node(NodeId::new("node-2"))).unwrap();
    assert_eq!(results.len(), 1);
    assert_eq!(results[0].id, "cat-2");
}

#[test]
fn query_respects_offset_and_limit() {
    let mut cache = InMemoryCatalogCache::new();
    for i in 0..5 {
        cache
            .upsert(sample_catalog(&format!("node-{i}"), &format!("cat-{i}")))
            .unwrap();
    }

    let results = cache
        .query(CatalogQuery {
            origin_node: None,
            offset: 2,
            limit: Some(2),
        })
        .unwrap();
    assert_eq!(
        results.iter().map(|c| c.id.as_str()).collect::<Vec<_>>(),
        vec!["cat-2", "cat-3"]
    );
}

#[test]
fn delete_removes_catalog_and_reports_result() {
    let mut cache = InMemoryCatalogCache::new();
    cache.upsert(sample_catalog("node-1", "cat-1")).unwrap();

    let removed = cache.delete(&NodeId::new("node-1")).unwrap();
    assert!(removed);

    let results = cache.query(CatalogQuery::all()).unwrap();
    assert!(results.is_empty());

    let removed_again = cache.delete(&NodeId::new("node-1")).unwrap();
    assert!(!removed_again);
}

#[test]
fn listing_is_sorted_by_id_whatever_the_order_of_storing() {
    let mut cache = InMemoryCatalogCache::default();
    for id in ["b", "a", "ab", "", "Z", "é"] {
        cache.upsert(sample_catalog(&format!("node-of-{id}"), id)).unwrap();
    }
    let results = cache.query(CatalogQuery::all()).unwrap();
    let listed = ids(&results);
    assert_eq!(listed, vec!["", "Z", "a", "ab", "b", "é"]);
    let mut sorted = listed.clone();
    sorted.sort();
    assert_eq!(listed, sorted);
}

#[test]
fn equal_ids_are_listed_by_node_whatever_the_order_of_storing() {
    let mut first = InMemoryCatalogCache::new();
    let mut second = InMemoryCatalogCache::new();
    let nodes = ["node-2", "node-1", "node-3"];
    for node in nodes {
        first.upsert(sample_catalog(node, "same")).unwrap();
    }
    for node in nodes.iter().rev() {
        second.upsert(sample_catalog(node, "same")).unwrap();
    }
    first.upsert(sample_catalog("node-0", "z")).unwrap();
    second.upsert(sample_catalog("node-0", "z")).unwrap();
    let listed = first.query(CatalogQuery::all()).unwrap();
    let origins: Vec<&str> = listed.iter().map(|c| c.origin_node.0.as_str()).collect();
    assert_eq!(origins, vec!["node-1", "node-2", "node-3", "node-0"]);
    assert_eq!(second.query(CatalogQuery::all()).unwrap(), listed);
}

#[test]
fn pages_over_equal_ids_lose_and_repeat_nothing() {
    let mut cache = InMemoryCatalogCache::new();
    for node in ["c", "a", "e", "b", "d"] {
        cache.upsert(sample_catalog(node, "same")).unwrap();
    }
    let whole = cache.query(CatalogQuery::all()).unwrap();
    for size in 1..7 {
        let mut joined = Vec::new();
        let mut offset = 0;
        while offset < whole.len() {
            let page = CatalogQuery { origin_node: None, offset, limit: Some(size) };
            let found = cache.query(page).unwrap();
            let end = whole.len().min(offset + size);
            assert_eq!(found, whole[offset..end].to_vec());
            joined.extend(found);
            offset += size;
        }
        assert_eq!(joined, whole);
    }
}

#[test]
fn pages_join_to_the_whole_listing() {
    let mut cache = InMemoryCatalogCache::new();
    for i in 0..7 {
        cache
            .upsert(sample_catalog(&format!("node-{i}"), &format!("cat-{i}")))
            .unwrap();
    }
    let whole = cache.query(CatalogQuery::all()).unwrap();
    let mut joined = Vec::new();
    for page in 0..3 {
        let query = CatalogQuery { offset: page * 3, limit: Some(3), ..CatalogQuery::default() };
        joined.extend(cache.query(query).unwrap());
    }
    assert_eq!(joined, whole);
    assert_eq!(joined.len(), 7);
}

#[test]
fn offset_past_the_end_and_limit_zero_give_empty_pages() {
    let mut cache = InMemoryCatalogCache::new();
    cache.upsert(sample_catalog("node-1", "cat-1")).unwrap();
    let past = CatalogQuery { offset: usize::MAX, limit: None, ..CatalogQuery::all() };
    assert!(cache.query(past).unwrap().is_empty());
    let none = CatalogQuery { offset: 0, limit: Some(0), ..CatalogQuery::all() };
    assert!(cache.query(none).unwrap().is_empty());
    let all = CatalogQuery { offset: 0, limit: Some(usize::MAX), ..CatalogQuery::all() };
    assert_eq!(cache.query(all).unwrap().len(), 1);
}

#[test]
fn storing_and_removing_leave_other_nodes_alone() {
    let mut cache = InMemoryCatalogCache::new();
    cache.upsert(sample_catalog("node-1", "cat-1")).unwrap();
    cache.upsert(sample_catalog("node-2", "cat-2")).unwrap();
    cache.upsert(sample_catalog("node-3", "cat-3")).unwrap();
    cache.upsert(sample_catalog("node-2", "cat-2b")).unwrap();
    assert!(cache.delete(&NodeId::new("node-3")).unwrap());

    let first = cache.query(CatalogQuery::for_node(NodeId::new("node-1"))).unwrap();
    assert_eq!(ids(&first), vec!["cat-1"]);
    let second = cache.query(CatalogQuery::for_node(NodeId::new("node-2"))).unwrap();
    assert_eq!(ids(&second), vec!["cat-2b"]);
    let third = cache.query(CatalogQuery::for_node(NodeId::new("node-3"))).unwrap();
    assert!(third.is_empty());
}

#[test]
fn query_for_node_can_be_paged() {
    let mut cache = InMemoryCatalogCache::new();
    cache.upsert(sample_catalog("node-1", "cat-1")).unwrap();
    let query = CatalogQuery { offset: 1, ..CatalogQuery::for_node(NodeId::new("node-1")) };
    assert!(cache.query(query).unwrap().is_empty());
}

#[test]
fn store_error_names_its_reason() {
    let error = StoreError::Backend("disk full".to_string());
    assert_eq!(error.to_string(), "catalog store backend error: disk full");
}
